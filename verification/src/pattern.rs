use regex::Regex;
use vstd::prelude::*;

verus! {

#[verifier::external_type_specification]
#[verifier::external_body]
pub struct ExRegex(Regex);

/// Whether `regex::Regex::new` accepts `pattern`.
pub uninterp spec fn regex_compiles(pattern: Seq<char>) -> bool;

/// The capture groups of the leftmost-first match of `pattern` in `text`, as
/// `regex::Regex::captures` reports them: `None` when there is no match,
/// otherwise one entry per group (group 0 first), each the matched text or
/// `None` for a group that took no part in the match.
pub uninterp spec fn regex_captures(pattern: Seq<char>, text: Seq<char>) -> Option<Seq<Option<Seq<char>>>>;

/// The capture groups of every successive non-overlapping match of `pattern`
/// in `text`, as `regex::Regex::captures_iter` yields them.
pub uninterp spec fn regex_captures_all(pattern: Seq<char>, text: Seq<char>) -> Seq<Seq<Option<Seq<char>>>>;

/// `text` with every non-overlapping match of `pattern` replaced by
/// `replacement`, as `regex::Regex::replace_all` returns it.
pub uninterp spec fn regex_replace_all(pattern: Seq<char>, text: Seq<char>, replacement: Seq<char>) -> Seq<char>;

/// A regular expression together with the pattern it was compiled from.
///
/// The only way to build one is `Pattern::new`, so `compiled` is always the
/// expression that `regex::Regex::new` made of `source`.
pub struct Pattern {
    source: String,
    compiled: Regex,
}

impl View for Pattern {
    type V = Seq<char>;

    closed spec fn view(&self) -> Seq<char> {
        self.source@
    }
}

/// Trusted: calls `regex::Regex::new` and keeps the expression when the pattern
/// is accepted. Claimed: the result is present exactly when the pattern compiles.
#[verifier::external_body]
fn compile_regex(pattern: &str) -> (r: Option<Regex>)
    ensures
        r is Some <==> regex_compiles(pattern@),
{
    Regex::new(pattern).ok()
}

/// Trusted: calls `regex::Regex::captures` on the compiled expression and turns
/// each group into an owned string. Claimed: the groups are `regex_captures`
/// of the pattern's source and `text`; this rests on `Pattern::new` being the
/// only way to build a `Pattern`.
#[verifier::external_body]
fn regex_captures_first(p: &Pattern, text: &str) -> (r: Option<Vec<Option<String>>>)
    ensures
        r.deep_view() == regex_captures(p@, text@),
{
    p.compiled.captures(text).map(|caps| caps.iter().map(|m| m.map(|m| m.as_str().to_string())).collect())
}

/// Trusted: calls `regex::Regex::captures_iter` on the compiled expression and
/// collects the groups of every match as owned strings. Claimed: the result is
/// `regex_captures_all` of the pattern's source and `text`.
#[verifier::external_body]
fn regex_captures_every(p: &Pattern, text: &str) -> (r: Vec<Vec<Option<String>>>)
    ensures
        r.deep_view() == regex_captures_all(p@, text@),
{
    p.compiled.captures_iter(text).map(|caps| caps.iter().map(|m| m.map(|m| m.as_str().to_string())).collect()).collect()
}

/// Trusted: calls `regex::Regex::replace_all` on the compiled expression.
/// Claimed: the result is `regex_replace_all` of the pattern's source, `text`
/// and `replacement`.
#[verifier::external_body]
fn regex_replace_every(p: &Pattern, text: &str, replacement: &str) -> (r: String)
    ensures
        r@ == regex_replace_all(p@, text@, replacement@),
{
    p.compiled.replace_all(text, replacement).to_string()
}

impl Pattern {
    /// Compiles `source`; `None` when the regex crate refuses it.
    pub fn new(source: &str) -> (r: Option<Pattern>)
        ensures
            r is Some <==> regex_compiles(source@),
            r matches Some(p) ==> p@ == source@,
    {
        match compile_regex(source) {
            Some(compiled) => Some(Pattern { source: source.to_string(), compiled }),
            None => None,
        }
    }

    /// The groups of the first match of this pattern in `text`.
    pub fn captures(&self, text: &str) -> (r: Option<Vec<Option<String>>>)
        ensures
            r.deep_view() == regex_captures(self@, text@),
    {
        regex_captures_first(self, text)
    }

    /// The groups of every match of this pattern in `text`, in order.
    pub fn captures_all(&self, text: &str) -> (r: Vec<Vec<Option<String>>>)
        ensures
            r.deep_view() == regex_captures_all(self@, text@),
    {
        regex_captures_every(self, text)
    }

    /// `text` with every match of this pattern replaced by `replacement`.
    pub fn replace_all(&self, text: &str, replacement: &str) -> (r: String)
        ensures
            r@ == regex_replace_all(self@, text@, replacement@),
    {
        regex_replace_every(self, text, replacement)
    }
}

} // verus!
