use crate::story::{spec_story, spec_updated_chapters, FetchStep, Story, StoryView};
use vstd::prelude::*;

verus! {

/// A reader's collection: the stories, and the indices of the followed
/// stories, of the finished ones and of those put aside to read later.
pub struct StoryManager {
    pub stories: Vec<Story>,
    pub follows: Vec<usize>,
    pub finished: Vec<usize>,
    pub read_later: Vec<usize>,
}

/// What a `StoryManager` holds.
pub struct StoryManagerView {
    pub stories: Seq<StoryView>,
    pub follows: Seq<usize>,
    pub finished: Seq<usize>,
    pub read_later: Seq<usize>,
}

/// The views of some stories.
pub open spec fn story_views(stories: Seq<Story>) -> Seq<StoryView> {
    stories.map_values(|s: Story| s@)
}

impl View for StoryManager {
    type V = StoryManagerView;

    open spec fn view(&self) -> StoryManagerView {
        StoryManagerView {
            stories: story_views(self.stories@),
            follows: self.follows@,
            finished: self.finished@,
            read_later: self.read_later@,
        }
    }
}

/// `i` is the first story whose page is at `url`.
pub open spec fn is_first_at(stories: Seq<StoryView>, url: Seq<char>, i: int) -> bool {
    &&& 0 <= i < stories.len()
    &&& stories[i].page_url == url
    &&& forall|j: int| 0 <= j < i ==> #[trigger] stories[j].page_url != url
}

/// Some story has its page at `url`.
pub open spec fn has_story_at(stories: Seq<StoryView>, url: Seq<char>) -> bool {
    exists|i: int| 0 <= i < stories.len() && #[trigger] stories[i].page_url == url
}

/// No two stories have their page at the same address.
pub open spec fn distinct_pages(stories: Seq<StoryView>) -> bool {
    forall|i: int, j: int|
        0 <= i < stories.len() && 0 <= j < stories.len() && i != j
            ==> #[trigger] stories[i].page_url != #[trigger] stories[j].page_url
}

impl StoryManager {
    /// An empty collection.
    pub fn new() -> (r: StoryManager)
        ensures
            r@.stories == Seq::<StoryView>::empty(),
            r@.follows == Seq::<usize>::empty(),
            r@.finished == Seq::<usize>::empty(),
            r@.read_later == Seq::<usize>::empty(),
    {
        let r = StoryManager { stories: Vec::new(), follows: Vec::new(), finished: Vec::new(), read_later: Vec::new() };
        assert(story_views(r.stories@) =~= Seq::<StoryView>::empty());
        r
    }

    /// The first story whose page is at `url`.
    pub fn find_story(&self, url: &String) -> (r: Option<usize>)
        ensures
            match r {
                Some(i) => is_first_at(self@.stories, url@, i as int),
                None => !has_story_at(self@.stories, url@),
            },
    {
        let mut i: usize = 0;
        while i < self.stories.len()
            invariant
                0 <= i <= self.stories.len(),
                forall|j: int| 0 <= j < i ==> #[trigger] self@.stories[j].page_url != url@,
            decreases self.stories.len() - i,
        {
            if self.stories[i].page_url == *url {
                return Some(i);
            }
            i = i + 1;
        }
        None
    }

    /// Adds the story whose page is at `url`, read from that page,
    /// `page_html`, and returns its index. Refused with "Already loaded" when a
    /// story of the collection has its page at `url`, and with "Could not read
    /// story page" when the page cannot be read; the collection is then
    /// unchanged.
    pub fn add_story_from_url(&mut self, url: String, page_html: &str) -> (r: Result<usize, &'static str>)
        ensures
            has_story_at(old(self)@.stories, url@) ==> r == Err::<usize, &'static str>("Already loaded")
                && final(self)@ == old(self)@,
            !has_story_at(old(self)@.stories, url@) && spec_story(url@, page_html@) is None
                ==> r == Err::<usize, &'static str>("Could not read story page") && final(self)@ == old(self)@,
            !has_story_at(old(self)@.stories, url@) && spec_story(url@, page_html@) is Some ==> {
                &&& r == Ok::<usize, &'static str>(old(self).stories.len() as usize)
                &&& final(self)@ == (StoryManagerView {
                    stories: old(self)@.stories.push(spec_story(url@, page_html@)->0),
                    ..old(self)@
                })
            },
            distinct_pages(old(self)@.stories) ==> distinct_pages(final(self)@.stories),
    {
        if self.find_story(&url).is_some() {
            return Err("Already loaded");
        }
        let ghost before = self@.stories;
        match Story::from_page_url(url, page_html) {
            Some(story) => {
                let ghost s = story@;
                self.stories.push(story);
                assert(self@.stories =~= before.push(s));
                assert forall|i: int, j: int|
                    distinct_pages(before) && 0 <= i < self@.stories.len() && 0 <= j < self@.stories.len() && i != j
                    implies #[trigger] self@.stories[i].page_url != #[trigger] self@.stories[j].page_url by {
                    if i == before.len() {
                        assert(before[j].page_url != url@);
                    } else if j == before.len() {
                        assert(before[i].page_url != url@);
                    }
                }
                Ok(self.stories.len() - 1)
            },
            None => Err("Could not read story page"),
        }
    }

    /// One step of bringing every story up to date. `page` is the page
    /// fetched for the story that the previous step asked for, with that
    /// story's index (`None` to start). That story is brought up to date with
    /// the page (see `Story::update`); the step then asks for the page of the
    /// next story, or reports that there is none. It reports a failure when
    /// the page could not be applied.
    pub fn update_all(&mut self, page: Option<(usize, &str)>) -> (step: FetchStep)
        ensures
            final(self)@.follows == old(self)@.follows,
            final(self)@.finished == old(self)@.finished,
            final(self)@.read_later == old(self)@.read_later,
            final(self)@.stories.len() == old(self)@.stories.len(),
            match page {
                Some((i, html)) => if i < old(self).stories.len() {
                    let (chapters, ok) = spec_updated_chapters(old(self)@.stories[i as int].chapters, html@);
                    &&& final(self)@.stories == old(self)@.stories.update(
                        i as int,
                        StoryView { chapters, ..old(self)@.stories[i as int] },
                    )
                    &&& match step {
                        FetchStep::Failed { cursor } => !ok && cursor == i,
                        FetchStep::Fetch { cursor, url } => ok && cursor == i + 1
                            && url@ == final(self)@.stories[cursor as int].page_url,
                        FetchStep::Done => ok && i + 1 == old(self).stories.len(),
                    }
                } else {
                    final(self)@ == old(self)@ && step is Done
                },
                None => {
                    &&& final(self)@ == old(self)@
                    &&& match step {
                        FetchStep::Fetch { cursor, url } => cursor == 0 && url@ == final(self)@.stories[0].page_url,
                        FetchStep::Done => old(self).stories.len() == 0,
                        FetchStep::Failed { .. } => false,
                    }
                },
            },
    {
        let ghost before = self@.stories;
        let len = self.stories.len();
        let mut next: usize = 0;
        match page {
            Some((i, html)) => {
                if i >= len {
                    return FetchStep::Done;
                }
                let ok = self.stories[i].update(html);
                assert(self@.stories =~= before.update(i as int, self.stories@[i as int]@));
                if !ok {
                    return FetchStep::Failed { cursor: i };
                }
                next = i + 1;
            },
            None => {},
        }
        if next < len {
            FetchStep::Fetch { cursor: next, url: self.stories[next].page_url.clone() }
        } else {
            FetchStep::Done
        }
    }
}

/// Taking a story out of a collection whose stories are at distinct
/// addresses leaves them at distinct addresses.
pub proof fn law_remove_keeps_distinct_pages(stories: Seq<StoryView>, i: int)
    requires
        distinct_pages(stories),
        0 <= i < stories.len(),
    ensures
        distinct_pages(stories.remove(i)),
{
    let r = stories.remove(i);
    assert forall|a: int, b: int| 0 <= a < r.len() && 0 <= b < r.len() && a != b
        implies #[trigger] r[a].page_url != #[trigger] r[b].page_url by {
        let a2 = if a < i { a } else { a + 1 };
        let b2 = if b < i { b } else { b + 1 };
        assert(r[a] == stories[a2]);
        assert(r[b] == stories[b2]);
    }
}

/// A story added from the page at `url` is found at `url` afterwards, so a
/// second request to add it is refused as already loaded.
pub proof fn law_added_story_is_found(stories: Seq<StoryView>, url: Seq<char>, html: Seq<char>)
    requires
        spec_story(url, html) is Some,
    ensures
        has_story_at(stories.push(spec_story(url, html)->0), url),
{
    let r = stories.push(spec_story(url, html)->0);
    assert(r[stories.len() as int].page_url == url);
}

} // verus!
