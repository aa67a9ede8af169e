use vstd::prelude::*;

verus! {

/// `i` is where `x` first occurs in `s`.
pub open spec fn is_first_index(s: Seq<usize>, x: usize, i: int) -> bool {
    &&& 0 <= i < s.len()
    &&& s[i] == x
    &&& forall|j: int| 0 <= j < i ==> #[trigger] s[j] != x
}

/// Where `x` first occurs in `s`, when it does.
pub open spec fn first_index(s: Seq<usize>, x: usize) -> int {
    choose|i: int| is_first_index(s, x, i)
}

/// `s` without the first occurrence of `x` (all of `s` when `x` does not occur).
pub open spec fn without_first(s: Seq<usize>, x: usize) -> Seq<usize> {
    if s.contains(x) {
        s.remove(first_index(s, x))
    } else {
        s
    }
}

/// `s` with `x` taken out if it occurs (its first occurrence), or put at the end if it does not.
pub open spec fn toggled(s: Seq<usize>, x: usize) -> Seq<usize> {
    if s.contains(x) {
        without_first(s, x)
    } else {
        s.push(x)
    }
}

/// No value occurs twice in `s`.
pub open spec fn no_repeats(s: Seq<usize>) -> bool {
    forall|i: int, j: int| 0 <= i < s.len() && 0 <= j < s.len() && i != j ==> #[trigger] s[i] != #[trigger] s[j]
}

proof fn lemma_first_index_found(s: Seq<usize>, x: usize, i: int)
    requires
        is_first_index(s, x, i),
    ensures
        s.contains(x),
        first_index(s, x) == i,
{
    assert(s[i] == x);
    let k = first_index(s, x);
    assert(is_first_index(s, x, k));
    if k < i {
        assert(s[k] != x);
    } else if i < k {
        assert(s[i] != x);
    }
}

/// Where `x` first occurs in `list`.
pub fn position_of(list: &Vec<usize>, x: usize) -> (r: Option<usize>)
    ensures
        match r {
            Some(i) => is_first_index(list@, x, i as int),
            None => !list@.contains(x),
        },
{
    let mut i: usize = 0;
    while i < list.len()
        invariant
            0 <= i <= list.len(),
            forall|j: int| 0 <= j < i ==> #[trigger] list@[j] != x,
        decreases list.len() - i,
    {
        if list[i] == x {
            return Some(i);
        }
        i = i + 1;
    }
    None
}

/// Whether `x` occurs in `list`.
pub fn list_contains(list: &Vec<usize>, x: usize) -> (r: bool)
    ensures
        r == list@.contains(x),
{
    position_of(list, x).is_some()
}

/// Takes the first occurrence of `x` out of `list`; returns whether there was one.
pub fn remove_first(list: &mut Vec<usize>, x: usize) -> (removed: bool)
    ensures
        removed == old(list)@.contains(x),
        final(list)@ == without_first(old(list)@, x),
{
    match position_of(list, x) {
        Some(i) => {
            proof {
                lemma_first_index_found(old(list)@, x, i as int);
            }
            list.remove(i);
            true
        },
        None => false,
    }
}

/// Takes `x` out of `list` (its first occurrence) when it is there, and puts
/// it at the end when it is not.
pub fn toggle(list: &mut Vec<usize>, x: usize)
    ensures
        final(list)@ == toggled(old(list)@, x),
{
    if !remove_first(list, x) {
        list.push(x);
    }
}

/// Toggling changes whether `x` is in a list with no repeats, and the list
/// keeps having no repeats.
pub proof fn law_toggle_flips_membership(s: Seq<usize>, x: usize)
    requires
        no_repeats(s),
    ensures
        toggled(s, x).contains(x) == !s.contains(x),
        no_repeats(toggled(s, x)),
        forall|y: usize| y != x ==> (toggled(s, x).contains(y) == s.contains(y)),
{
    if s.contains(x) {
        let i = choose|i: int| 0 <= i < s.len() && s[i] == x;
        assert forall|j: int| 0 <= j < i implies #[trigger] s[j] != x by {
            assert(s[j] != s[i]);
        }
        lemma_first_index_found(s, x, i);
        let t = s.remove(i);
        assert(t == toggled(s, x));
        assert forall|k: int| 0 <= k < t.len() implies #[trigger] t[k] != x by {
            if k < i {
                assert(s[k] != s[i]);
            } else {
                assert(s[k + 1] != s[i]);
            }
        }
        assert forall|y: usize| y != x implies (t.contains(y) == s.contains(y)) by {
            if s.contains(y) {
                let k = choose|k: int| 0 <= k < s.len() && s[k] == y;
                if k < i {
                    assert(t[k] == y);
                } else {
                    assert(k != i);
                    assert(t[k - 1] == y);
                }
            }
            if t.contains(y) {
                let k = choose|k: int| 0 <= k < t.len() && t[k] == y;
                if k < i {
                    assert(s[k] == y);
                } else {
                    assert(s[k + 1] == y);
                }
            }
        }
    } else {
        let t = s.push(x);
        assert(t[s.len() as int] == x);
        assert forall|y: usize| y != x implies (t.contains(y) == s.contains(y)) by {
            if s.contains(y) {
                let k = choose|k: int| 0 <= k < s.len() && s[k] == y;
                assert(t[k] == y);
            }
            if t.contains(y) {
                let k = choose|k: int| 0 <= k < t.len() && t[k] == y;
                assert(s[k] == y);
            }
        }
    }
}

/// Toggling a value that is not in a list twice gives the list back.
pub proof fn law_toggle_twice_restores(s: Seq<usize>, x: usize)
    requires
        !s.contains(x),
    ensures
        toggled(toggled(s, x), x) == s,
{
    let t = s.push(x);
    assert(t[s.len() as int] == x);
    assert forall|j: int| 0 <= j < s.len() implies #[trigger] t[j] != x by {
        assert(t[j] == s[j]);
    }
    lemma_first_index_found(t, x, s.len() as int);
    assert(t.remove(s.len() as int) =~= s);
}

} // verus!
