use crate::lists::{list_contains, remove_first, toggle, toggled, without_first};
use crate::manager::{has_story_at, story_views, StoryManager, StoryManagerView};
use crate::story::{
    spec_story, spec_updated_chapters, ChapterContentView, ChapterView, FetchStep, Story, StoryView,
};
use crate::site::{first_group, DESCRIPTION_PATTERN, TITLE_PATTERN};
use vstd::prelude::*;
use vstd::string::StringExecFns;

verus! {

/// The chapter open for reading.
#[derive(Clone, Copy)]
pub struct ReadPage {
    pub story_index: usize,
    pub chapter_index: usize,
}

/// The story whose details are shown.
#[derive(Clone, Copy)]
pub struct StoryPage {
    pub story_index: usize,
}

/// Everything a reading front end keeps: the collection, the chapter open for
/// reading and the story whose details are shown.
pub struct AppState {
    pub manager: StoryManager,
    pub read_page: ReadPage,
    pub story_page: StoryPage,
}

/// A chapter as shown for reading.
pub struct ChapterResponse {
    pub content: String,
    pub start_note: String,
    pub end_note: String,
    pub title: String,
    pub author: String,
    pub before_exists: bool,
    pub after_exists: bool,
}

/// A story as listed.
pub struct StoryResponse {
    pub title: String,
    pub author: String,
    pub index: usize,
    pub last_read: String,
}

/// What a `StoryResponse` holds.
pub struct StoryResponseView {
    pub title: Seq<char>,
    pub author: Seq<char>,
    pub index: usize,
    pub last_read: Seq<char>,
}

impl View for StoryResponse {
    type V = StoryResponseView;

    open spec fn view(&self) -> StoryResponseView {
        StoryResponseView { title: self.title@, author: self.author@, index: self.index, last_read: self.last_read@ }
    }
}

/// The details of a story.
pub struct StoryInfoResponse {
    pub title: String,
    pub author: String,
    pub description: String,
    pub index: usize,
    pub followed: bool,
    pub read_later: bool,
    pub finished: bool,
}

/// A chapter as listed in a story's table of contents.
pub struct ChapterTitleResponse {
    pub title: String,
    pub index: usize,
}

/// The details of a story after they were read again.
pub struct UpdateStoryResponse {
    pub title: String,
    pub description: String,
}

/// The story at `index` can be listed: it exists and its progress is one of its chapters.
pub open spec fn listable(stories: Seq<StoryView>, index: int) -> bool {
    &&& 0 <= index < stories.len()
    &&& stories[index].progress < stories[index].chapters.len()
}

/// How the story at `index` is listed: its title, its author, its index and
/// the name of the chapter it has been read up to.
pub open spec fn story_listing(stories: Seq<StoryView>, index: usize) -> StoryResponseView {
    let s = stories[index as int];
    StoryResponseView { title: s.title, author: s.author, index, last_read: s.chapters[s.progress as int].name }
}

/// The story has chapters left to read: its progress is not its last chapter.
pub open spec fn has_unread(s: StoryView) -> bool {
    s.progress != s.chapters.len() - 1
}

/// The listings of the stories at `indices` that have chapters left to read
/// (`unread`) or that do not (`!unread`), in the order of `indices`.
pub open spec fn filtered_listings(stories: Seq<StoryView>, indices: Seq<usize>, unread: bool) -> Seq<StoryResponseView>
    decreases indices.len(),
{
    if indices.len() == 0 {
        Seq::empty()
    } else {
        let rest = filtered_listings(stories, indices.drop_last(), unread);
        if has_unread(stories[indices.last() as int]) == unread {
            rest.push(story_listing(stories, indices.last()))
        } else {
            rest
        }
    }
}

/// What a run over the followed stories asks for at position `n` of the
/// followed list: the page of the story there, a failure when that index is
/// not a story, or the end of the run.
pub open spec fn asks_for_follow(m: StoryManagerView, n: int, step: FetchStep) -> bool {
    if n < m.follows.len() {
        let f = m.follows[n];
        if f < m.stories.len() {
            step matches FetchStep::Fetch { cursor, url } && cursor == n && url@ == m.stories[f as int].page_url
        } else {
            step matches FetchStep::Failed { cursor } && cursor == n
        }
    } else {
        step is Done
    }
}

/// The listings of the stories at `indices`, in that order.
pub open spec fn listings_of(stories: Seq<StoryView>, indices: Seq<usize>) -> Seq<StoryResponseView> {
    indices.map_values(|i: usize| story_listing(stories, i))
}

/// Every index of `indices` is a listable story.
pub open spec fn all_listable(stories: Seq<StoryView>, indices: Seq<usize>) -> bool {
    forall|k: int| 0 <= k < indices.len() ==> listable(stories, #[trigger] indices[k] as int)
}

/// The views of some listings.
pub open spec fn listing_views(r: Seq<StoryResponse>) -> Seq<StoryResponseView> {
    r.map_values(|x: StoryResponse| x@)
}

/// The listing of the story at `index`.
pub fn list_story(stories: &Vec<Story>, index: usize) -> (r: StoryResponse)
    requires
        listable(story_views(stories@), index as int),
    ensures
        r@ == story_listing(story_views(stories@), index),
        r.title@ == stories@[index as int].title@,
        r.author@ == stories@[index as int].author@,
        r.index == index,
        r.last_read@ == stories@[index as int].chapters@[stories@[index as int].progress as int].name@,
{
    let s = &stories[index];
    StoryResponse {
        title: s.title.clone(),
        author: s.author.clone(),
        index,
        last_read: s.chapters[s.progress].name.clone(),
    }
}

/// The listings of the stories at `indices`, in that order.
pub fn list_stories_at(stories: &Vec<Story>, indices: &Vec<usize>) -> (r: Vec<StoryResponse>)
    requires
        all_listable(story_views(stories@), indices@),
    ensures
        listing_views(r@) == listings_of(story_views(stories@), indices@),
{
    let mut r: Vec<StoryResponse> = Vec::new();
    let mut k: usize = 0;
    while k < indices.len()
        invariant
            0 <= k <= indices.len(),
            all_listable(story_views(stories@), indices@),
            listing_views(r@) =~= listings_of(story_views(stories@), indices@.take(k as int)),
        decreases indices.len() - k,
    {
        let ghost before = r@;
        let item = list_story(stories, indices[k]);
        r.push(item);
        assert(listing_views(r@) =~= listing_views(before).push(item@));
        assert(indices@.take(k + 1) =~= indices@.take(k as int).push(indices@[k as int]));
        k = k + 1;
    }
    assert(indices@.take(indices.len() as int) =~= indices@);
    r
}

/// The listings of the stories at `indices` that have chapters left to read
/// (`unread`) or that do not (`!unread`), in the order of `indices`.
pub fn list_filtered(stories: &Vec<Story>, indices: &Vec<usize>, unread: bool) -> (r: Vec<StoryResponse>)
    requires
        all_listable(story_views(stories@), indices@),
    ensures
        listing_views(r@) == filtered_listings(story_views(stories@), indices@, unread),
{
    let mut r: Vec<StoryResponse> = Vec::new();
    let mut k: usize = 0;
    assert(indices@.take(0) =~= Seq::<usize>::empty());
    assert(listing_views(r@) =~= Seq::<StoryResponseView>::empty());
    while k < indices.len()
        invariant
            0 <= k <= indices.len(),
            all_listable(story_views(stories@), indices@),
            listing_views(r@) == filtered_listings(story_views(stories@), indices@.take(k as int), unread),
        decreases indices.len() - k,
    {
        let i = indices[k];
        assert(listable(story_views(stories@), indices@[k as int] as int));
        let s = &stories[i];
        assert(indices@.take(k + 1).drop_last() =~= indices@.take(k as int));
        let story_unread = s.progress != s.chapters.len() - 1;
        if story_unread == unread {
            let ghost before = r@;
            let item = list_story(stories, i);
            r.push(item);
            assert(listing_views(r@) =~= listing_views(before).push(item@));
        }
        k = k + 1;
    }
    assert(indices@.take(indices.len() as int) =~= indices@);
    r
}

/// A listing shows the story it names: that story's title, author and the
/// name of the chapter it has been read up to.
pub open spec fn shows_story(stories: Seq<StoryView>, r: StoryResponseView) -> bool {
    let s = stories[r.index as int];
    &&& r.title == s.title
    &&& r.author == s.author
    &&& r.last_read == s.chapters[s.progress as int].name
}

/// The listing of a story names that story and shows it.
pub proof fn law_listing_shows_the_story(stories: Seq<StoryView>, index: usize)
    ensures
        story_listing(stories, index).index == index,
        shows_story(stories, story_listing(stories, index)),
{
}

/// Each listing of a list of stories names the story at the same place of
/// the list, and shows that story.
pub proof fn law_listings_show_their_stories(stories: Seq<StoryView>, indices: Seq<usize>)
    ensures
        listings_of(stories, indices).len() == indices.len(),
        forall|k: int| 0 <= k < indices.len() ==> {
            &&& (#[trigger] listings_of(stories, indices)[k]).index == indices[k]
            &&& shows_story(stories, listings_of(stories, indices)[k])
        },
{
}

/// Each listing of the followed stories with (or without) chapters left to
/// read names a followed story that has (or has not) chapters left, and shows
/// that story.
pub proof fn law_filtered_listings_show_their_stories(stories: Seq<StoryView>, indices: Seq<usize>, unread: bool)
    ensures
        forall|k: int| 0 <= k < filtered_listings(stories, indices, unread).len() ==> {
            &&& indices.contains((#[trigger] filtered_listings(stories, indices, unread)[k]).index)
            &&& has_unread(stories[filtered_listings(stories, indices, unread)[k].index as int]) == unread
            &&& shows_story(stories, filtered_listings(stories, indices, unread)[k])
        },
    decreases indices.len(),
{
    if indices.len() > 0 {
        let front = indices.drop_last();
        law_filtered_listings_show_their_stories(stories, front, unread);
        let f = filtered_listings(stories, indices, unread);
        let g = filtered_listings(stories, front, unread);
        assert forall|k: int| 0 <= k < f.len() implies {
            &&& indices.contains((#[trigger] f[k]).index)
            &&& has_unread(stories[f[k].index as int]) == unread
            &&& shows_story(stories, f[k])
        } by {
            if k < g.len() {
                assert(f[k] == g[k]);
                let j = choose|j: int| 0 <= j < front.len() && front[j] == g[k].index;
                assert(indices[j] == front[j]);
            } else {
                assert(f[k] == story_listing(stories, indices.last()));
                assert(indices[indices.len() - 1] == indices.last());
            }
        }
    }
}

/// Listing the followed stories unread first, then read, lists each of them once.
pub proof fn law_follows_listed_once(stories: Seq<StoryView>, indices: Seq<usize>)
    ensures
        filtered_listings(stories, indices, true).len() + filtered_listings(stories, indices, false).len() == indices.len(),
    decreases indices.len(),
{
    if indices.len() > 0 {
        law_follows_listed_once(stories, indices.drop_last());
    }
}

/// Reading on never takes a story's progress past its last chapter, and
/// moves it by at most one.
pub proof fn law_continue_stays_in_story(s: StoryView)
    requires
        0 < s.chapters.len() <= usize::MAX,
        s.progress < s.chapters.len(),
    ensures
        ({
            let next = if s.progress != s.chapters.len() - 1 { (s.progress + 1) as usize } else { s.progress };
            &&& next < s.chapters.len()
            &&& s.progress <= next <= s.progress + 1
            &&& next == s.progress <==> s.progress == s.chapters.len() - 1
        }),
{
}

impl AppState {
    /// The state a front end starts with: the first chapter of the first story
    /// open for reading, the first story's details shown.
    pub fn new(manager: StoryManager) -> (r: AppState)
        ensures
            r.manager@ == manager@,
            r.read_page.story_index == 0 && r.read_page.chapter_index == 0,
            r.story_page.story_index == 0,
    {
        AppState { manager, read_page: ReadPage { story_index: 0, chapter_index: 0 }, story_page: StoryPage { story_index: 0 } }
    }

    /// Adds the story whose page is at `url`, read from `page_html`, and shows
    /// its details. Returns `false`, changing nothing, when the story is
    /// already there or the page cannot be read.
    pub fn add_story(&mut self, url: &str, page_html: &str) -> (added: bool)
        ensures
            added == (!has_story_at(old(self).manager@.stories, url@) && spec_story(url@, page_html@) is Some),
            added ==> {
                &&& final(self).manager@ == (StoryManagerView {
                    stories: old(self).manager@.stories.push(spec_story(url@, page_html@)->0),
                    ..old(self).manager@
                })
                &&& final(self).story_page.story_index == old(self).manager@.stories.len()
            },
            !added ==> final(self).manager@ == old(self).manager@ && final(self).story_page == old(self).story_page,
            final(self).read_page == old(self).read_page,
    {
        match self.manager.add_story_from_url(String::from_str(url), page_html) {
            Ok(index) => {
                self.story_page.story_index = index;
                true
            },
            Err(_) => false,
        }
    }

    /// Removes the story at `story_index`, and takes the first occurrence of
    /// that index out of the followed, the read-later and the finished lists.
    /// The indices of the other stories in those lists are left as they are.
    pub fn remove_story(&mut self, story_index: usize)
        requires
            story_index < old(self).manager.stories.len(),
        ensures
            final(self).manager@ == (StoryManagerView {
                stories: old(self).manager@.stories.remove(story_index as int),
                follows: without_first(old(self).manager@.follows, story_index),
                read_later: without_first(old(self).manager@.read_later, story_index),
                finished: without_first(old(self).manager@.finished, story_index),
            }),
            final(self).read_page == old(self).read_page,
            final(self).story_page == old(self).story_page,
    {
        let ghost before = self.manager@.stories;
        self.manager.stories.remove(story_index);
        assert(self.manager@.stories =~= before.remove(story_index as int));
        remove_first(&mut self.manager.follows, story_index);
        remove_first(&mut self.manager.read_later, story_index);
        remove_first(&mut self.manager.finished, story_index);
    }

    /// The chapter at `chapter_index` of the story at `story_index` as shown
    /// for reading: `None` when its content has not been loaded.
    pub fn get_chapter(&self, story_index: usize, chapter_index: usize) -> (r: Option<ChapterResponse>)
        requires
            story_index < self.manager.stories.len(),
            chapter_index < self.manager.stories@[story_index as int].chapters.len(),
        ensures
            ({
                let s = self.manager@.stories[story_index as int];
                let ch = s.chapters[chapter_index as int];
                match r {
                    None => ch.content is None,
                    Some(resp) => ch.content matches Some(c) && {
                        &&& resp.content@ == c.chapter_content
                        &&& resp.start_note@ == (match c.start_note { Some(n) => n, None => Seq::<char>::empty() })
                        &&& resp.end_note@ == (match c.end_note { Some(n) => n, None => Seq::<char>::empty() })
                        &&& resp.title@ == ch.name
                        &&& resp.author@ == s.author
                        &&& resp.before_exists == (chapter_index != 0)
                        &&& resp.after_exists == (chapter_index != s.chapters.len() - 1)
                    },
                }
            }),
    {
        let story = &self.manager.stories[story_index];
        let chapter = &story.chapters[chapter_index];
        match &chapter.content {
            None => None,
            Some(c) => {
                let start_note = match &c.start_note {
                    Some(n) => n.clone(),
                    None => String::new(),
                };
                let end_note = match &c.end_note {
                    Some(n) => n.clone(),
                    None => String::new(),
                };
                Some(ChapterResponse {
                    content: c.chapter_content.clone(),
                    start_note,
                    end_note,
                    title: chapter.name.clone(),
                    author: story.author.clone(),
                    before_exists: chapter_index != 0,
                    after_exists: chapter_index != story.chapters.len() - 1,
                })
            },
        }
    }

    /// Every story, listed in order.
    pub fn get_stories(&self) -> (r: Vec<StoryResponse>)
        requires
            forall|i: int| 0 <= i < self.manager.stories.len() ==> listable(self.manager@.stories, i),
        ensures
            listing_views(r@) == Seq::new(self.manager@.stories.len(), |i: int| story_listing(self.manager@.stories, i as usize)),
    {
        let ghost stories = self.manager@.stories;
        let mut r: Vec<StoryResponse> = Vec::new();
        let mut i: usize = 0;
        while i < self.manager.stories.len()
            invariant
                0 <= i <= self.manager.stories.len(),
                stories == self.manager@.stories,
                forall|j: int| 0 <= j < self.manager.stories.len() ==> listable(stories, j),
                listing_views(r@) =~= Seq::new(i as nat, |j: int| story_listing(stories, j as usize)),
            decreases self.manager.stories.len() - i,
        {
            let ghost before = r@;
            let item = list_story(&self.manager.stories, i);
            r.push(item);
            assert(listing_views(r@) =~= listing_views(before).push(item@));
            i = i + 1;
        }
        r
    }

    /// The followed stories: those with chapters left to read first, then the
    /// others, each group in the order of the followed list.
    pub fn get_follows(&self) -> (r: Vec<StoryResponse>)
        requires
            all_listable(self.manager@.stories, self.manager@.follows),
        ensures
            listing_views(r@) == filtered_listings(self.manager@.stories, self.manager@.follows, true)
                + filtered_listings(self.manager@.stories, self.manager@.follows, false),
    {
        let mut unread = list_filtered(&self.manager.stories, &self.manager.follows, true);
        let mut read = list_filtered(&self.manager.stories, &self.manager.follows, false);
        let ghost (a, b) = (unread@, read@);
        unread.append(&mut read);
        assert(listing_views(unread@) =~= listing_views(a) + listing_views(b));
        unread
    }

    /// The followed stories that have chapters left to read, in the order of the followed list.
    pub fn get_unread_follows(&self) -> (r: Vec<StoryResponse>)
        requires
            all_listable(self.manager@.stories, self.manager@.follows),
        ensures
            listing_views(r@) == filtered_listings(self.manager@.stories, self.manager@.follows, true),
    {
        list_filtered(&self.manager.stories, &self.manager.follows, true)
    }

    /// The stories put aside to read later, in the order of that list.
    pub fn get_read_later(&self) -> (r: Vec<StoryResponse>)
        requires
            all_listable(self.manager@.stories, self.manager@.read_later),
        ensures
            listing_views(r@) == listings_of(self.manager@.stories, self.manager@.read_later),
    {
        list_stories_at(&self.manager.stories, &self.manager.read_later)
    }

    /// The finished stories, in the order of that list.
    pub fn get_finished(&self) -> (r: Vec<StoryResponse>)
        requires
            all_listable(self.manager@.stories, self.manager@.finished),
        ensures
            listing_views(r@) == listings_of(self.manager@.stories, self.manager@.finished),
    {
        list_stories_at(&self.manager.stories, &self.manager.finished)
    }

    /// Opens the chapter at `chapter_index` of the story at `story_index` for reading.
    pub fn set_read_page(&mut self, story_index: usize, chapter_index: usize)
        ensures
            final(self).read_page.story_index == story_index,
            final(self).read_page.chapter_index == chapter_index,
            final(self).manager@ == old(self).manager@,
            final(self).story_page == old(self).story_page,
    {
        self.read_page.story_index = story_index;
        self.read_page.chapter_index = chapter_index;
    }

    /// Opens the next chapter of the story at `story_index` for reading and
    /// records it as the story's progress; at the last chapter, opens that
    /// chapter again and leaves the progress as it is.
    pub fn set_read_page_continue(&mut self, story_index: usize)
        requires
            story_index < old(self).manager.stories.len(),
            old(self).manager.stories@[story_index as int].chapters.len() > 0,
            old(self).manager.stories@[story_index as int].progress < usize::MAX
                || old(self).manager.stories@[story_index as int].progress
                    == old(self).manager.stories@[story_index as int].chapters.len() - 1,
        ensures
            ({
                let s = old(self).manager@.stories[story_index as int];
                let next = if s.progress != s.chapters.len() - 1 { (s.progress + 1) as usize } else { s.progress };
                &&& final(self).manager@ == (StoryManagerView {
                    stories: old(self).manager@.stories.update(story_index as int, StoryView { progress: next, ..s }),
                    ..old(self).manager@
                })
                &&& final(self).read_page.story_index == story_index
                &&& final(self).read_page.chapter_index == next
            }),
            final(self).story_page == old(self).story_page,
    {
        let ghost before = self.manager@.stories;
        let mut chapter_index = self.manager.stories[story_index].progress;
        if chapter_index != self.manager.stories[story_index].chapters.len() - 1 {
            chapter_index = chapter_index + 1;
            self.manager.stories[story_index].progress = chapter_index;
        }
        assert(self.manager@.stories =~= before.update(
            story_index as int,
            StoryView { progress: chapter_index, ..before[story_index as int] },
        ));
        self.read_page.story_index = story_index;
        self.read_page.chapter_index = chapter_index;
    }

    /// The details of the story shown.
    pub fn get_story_info(&self) -> (r: StoryInfoResponse)
        requires
            self.story_page.story_index < self.manager.stories.len(),
        ensures
            ({
                let index = self.story_page.story_index;
                let s = self.manager@.stories[index as int];
                &&& r.title@ == s.title
                &&& r.author@ == s.author
                &&& r.description@ == s.description
                &&& r.index == index
                &&& r.followed == self.manager@.follows.contains(index)
                &&& r.read_later == self.manager@.read_later.contains(index)
                &&& r.finished == self.manager@.finished.contains(index)
            }),
    {
        let index = self.story_page.story_index;
        let story = &self.manager.stories[index];
        StoryInfoResponse {
            title: story.title.clone(),
            author: story.author.clone(),
            description: story.description.clone(),
            index,
            followed: list_contains(&self.manager.follows, index),
            read_later: list_contains(&self.manager.read_later, index),
            finished: list_contains(&self.manager.finished, index),
        }
    }

    /// Shows the details of the story at `story_index`.
    pub fn set_story_page(&mut self, story_index: usize)
        ensures
            final(self).story_page.story_index == story_index,
            final(self).manager@ == old(self).manager@,
            final(self).read_page == old(self).read_page,
    {
        self.story_page.story_index = story_index;
    }

    /// Records `progress` as the chapter the story at `story_index` has been read up to.
    pub fn set_story_progress(&mut self, story_index: usize, progress: usize)
        requires
            story_index < old(self).manager.stories.len(),
        ensures
            final(self).manager@ == (StoryManagerView {
                stories: old(self).manager@.stories.update(
                    story_index as int,
                    StoryView { progress, ..old(self).manager@.stories[story_index as int] },
                ),
                ..old(self).manager@
            }),
            final(self).read_page == old(self).read_page,
            final(self).story_page == old(self).story_page,
    {
        let ghost before = self.manager@.stories;
        self.manager.stories[story_index].progress = progress;
        assert(self.manager@.stories =~= before.update(
            story_index as int,
            StoryView { progress, ..before[story_index as int] },
        ));
    }

    /// The chapter the story at `story_index` has been read up to.
    pub fn get_story_progress(&self, story_index: usize) -> (r: usize)
        requires
            story_index < self.manager.stories.len(),
        ensures
            r == self.manager@.stories[story_index as int].progress,
    {
        self.manager.stories[story_index].progress
    }

    /// The table of contents of the story at `story_index`: each chapter's
    /// name with its index.
    pub fn get_chapters(&self, story_index: usize) -> (r: Vec<ChapterTitleResponse>)
        requires
            story_index < self.manager.stories.len(),
        ensures
            r.len() == self.manager@.stories[story_index as int].chapters.len(),
            forall|i: int| 0 <= i < r.len() ==> {
                &&& (#[trigger] r@[i]).title@ == self.manager@.stories[story_index as int].chapters[i].name
                &&& r@[i].index == i
            },
    {
        let chapters = &self.manager.stories[story_index].chapters;
        let mut r: Vec<ChapterTitleResponse> = Vec::new();
        let mut i: usize = 0;
        while i < chapters.len()
            invariant
                0 <= i <= chapters.len(),
                chapters@ == self.manager.stories@[story_index as int].chapters@,
                story_index < self.manager.stories.len(),
                r.len() == i,
                forall|j: int| 0 <= j < i ==> {
                    &&& (#[trigger] r@[j]).title@ == chapters@[j].name@
                    &&& r@[j].index == j
                },
            decreases chapters.len() - i,
        {
            r.push(ChapterTitleResponse { title: chapters[i].name.clone(), index: i });
            i = i + 1;
        }
        r
    }

    /// The chapter the story at `story_index` has been read up to, with its index.
    pub fn get_last_read_chapter(&self, story_index: usize) -> (r: ChapterTitleResponse)
        requires
            listable(self.manager@.stories, story_index as int),
        ensures
            r.index == self.manager@.stories[story_index as int].progress,
            r.title@ == self.manager@.stories[story_index as int].chapters[r.index as int].name,
    {
        let story = &self.manager.stories[story_index];
        ChapterTitleResponse { title: story.chapters[story.progress].name.clone(), index: story.progress }
    }

    /// Follows the story at `story_index`, or stops following it.
    pub fn change_followed(&mut self, story_index: usize)
        ensures
            final(self).manager@ == (StoryManagerView {
                follows: toggled(old(self).manager@.follows, story_index),
                ..old(self).manager@
            }),
            final(self).read_page == old(self).read_page,
            final(self).story_page == old(self).story_page,
    {
        toggle(&mut self.manager.follows, story_index);
    }

    /// Puts the story at `story_index` aside to read later, or takes it off that list.
    pub fn change_read_later(&mut self, story_index: usize)
        ensures
            final(self).manager@ == (StoryManagerView {
                read_later: toggled(old(self).manager@.read_later, story_index),
                ..old(self).manager@
            }),
            final(self).read_page == old(self).read_page,
            final(self).story_page == old(self).story_page,
    {
        toggle(&mut self.manager.read_later, story_index);
    }

    /// Marks the story at `story_index` as finished, or takes it off that list.
    pub fn change_finished(&mut self, story_index: usize)
        ensures
            final(self).manager@ == (StoryManagerView {
                finished: toggled(old(self).manager@.finished, story_index),
                ..old(self).manager@
            }),
            final(self).read_page == old(self).read_page,
            final(self).story_page == old(self).story_page,
    {
        toggle(&mut self.manager.finished, story_index);
    }
    /// One step of bringing every followed story up to date. `page` is the
    /// page fetched for the followed story that the previous step asked for,
    /// with its position in the followed list (`None` to start). That story is
    /// brought up to date with the page (see `Story::update`); the step then
    /// asks for the page of the next followed story, or reports that there is
    /// none. It reports a failure when the page could not be applied or when a
    /// followed index is not a story.
    pub fn update_follows(&mut self, page: Option<(usize, &str)>) -> (step: FetchStep)
        ensures
            final(self).manager@.follows == old(self).manager@.follows,
            final(self).manager@.finished == old(self).manager@.finished,
            final(self).manager@.read_later == old(self).manager@.read_later,
            final(self).read_page == old(self).read_page,
            final(self).story_page == old(self).story_page,
            match page {
                Some((p, html)) => if p < old(self).manager.follows.len() {
                    let f = old(self).manager@.follows[p as int];
                    if f < old(self).manager.stories.len() {
                        let (chapters, ok) = spec_updated_chapters(old(self).manager@.stories[f as int].chapters, html@);
                        &&& final(self).manager@.stories == old(self).manager@.stories.update(
                            f as int,
                            StoryView { chapters, ..old(self).manager@.stories[f as int] },
                        )
                        &&& if ok {
                            asks_for_follow(final(self).manager@, p + 1, step)
                        } else {
                            step matches FetchStep::Failed { cursor } && cursor == p
                        }
                    } else {
                        final(self).manager@ == old(self).manager@ && (step matches FetchStep::Failed { cursor } && cursor == p)
                    }
                } else {
                    final(self).manager@ == old(self).manager@ && step is Done
                },
                None => final(self).manager@ == old(self).manager@ && asks_for_follow(final(self).manager@, 0, step),
            },
    {
        let mut next: usize = 0;
        match page {
            Some((p, html)) => {
                if p >= self.manager.follows.len() {
                    return FetchStep::Done;
                }
                let f = self.manager.follows[p];
                if f >= self.manager.stories.len() {
                    return FetchStep::Failed { cursor: p };
                }
                let ghost before = self.manager@.stories;
                let ok = self.manager.stories[f].update(html);
                assert(self.manager@.stories =~= before.update(f as int, self.manager.stories@[f as int]@));
                if !ok {
                    return FetchStep::Failed { cursor: p };
                }
                next = p + 1;
            },
            None => {},
        }
        if next < self.manager.follows.len() {
            let f = self.manager.follows[next];
            if f < self.manager.stories.len() {
                FetchStep::Fetch { cursor: next, url: self.manager.stories[f].page_url.clone() }
            } else {
                FetchStep::Failed { cursor: next }
            }
        } else {
            FetchStep::Done
        }
    }

    /// Takes the title and the description of the story at `story_index`
    /// from its page, `page_html` (see `Story::update_details`), and returns
    /// them; `None`, changing nothing, when the page lacks either.
    pub fn update_story_details(&mut self, story_index: usize, page_html: &str) -> (r: Option<UpdateStoryResponse>)
        requires
            story_index < old(self).manager.stories.len(),
        ensures
            final(self).read_page == old(self).read_page,
            final(self).story_page == old(self).story_page,
            r is Some <==> (first_group(TITLE_PATTERN@, page_html@, 1) is Some
                && first_group(DESCRIPTION_PATTERN@, page_html@, 1) is Some),
            r is None ==> final(self).manager@ == old(self).manager@,
            r matches Some(resp) ==> {
                &&& first_group(TITLE_PATTERN@, page_html@, 1) == Some(resp.title@)
                &&& first_group(DESCRIPTION_PATTERN@, page_html@, 1) == Some(resp.description@)
                &&& final(self).manager@ == (StoryManagerView {
                    stories: old(self).manager@.stories.update(
                        story_index as int,
                        StoryView {
                            title: resp.title@,
                            description: resp.description@,
                            ..old(self).manager@.stories[story_index as int]
                        },
                    ),
                    ..old(self).manager@
                })
            },
    {
        let ghost before = self.manager@.stories;
        let ok = self.manager.stories[story_index].update_details(page_html);
        assert(self.manager@.stories =~= before.update(story_index as int, self.manager.stories@[story_index as int]@));
        if ok {
            let story = &self.manager.stories[story_index];
            let r = UpdateStoryResponse { title: story.title.clone(), description: story.description.clone() };
            assert(r.title@ == story@.title);
            assert(self.manager.stories@[story_index as int]@ == (StoryView {
                title: r.title@, description: r.description@, ..before[story_index as int]
            }));
            Some(r)
        } else {
            assert(self.manager@.stories =~= before);
            None
        }
    }

    /// Drops the note before the chapter at `chapter_index` of the story at
    /// `story_index`, when the chapter's content is loaded.
    pub fn delete_start_note(&mut self, story_index: usize, chapter_index: usize)
        requires
            story_index < old(self).manager.stories.len(),
            chapter_index < old(self).manager.stories@[story_index as int].chapters.len(),
        ensures
            final(self).read_page == old(self).read_page,
            final(self).story_page == old(self).story_page,
            ({
                let s = old(self).manager@.stories[story_index as int];
                let ch = s.chapters[chapter_index as int];
                let new_content = match ch.content {
                    Some(c) => Some(ChapterContentView { start_note: None, ..c }),
                    None => None,
                };
                final(self).manager@ == (StoryManagerView {
                    stories: old(self).manager@.stories.update(
                        story_index as int,
                        StoryView {
                            chapters: s.chapters.update(chapter_index as int, ChapterView { content: new_content, ..ch }),
                            ..s
                        },
                    ),
                    ..old(self).manager@
                })
            }),
    {
        let ghost before = self.manager@.stories;
        let ghost chapters_before = before[story_index as int].chapters;
        match &mut self.manager.stories[story_index].chapters[chapter_index].content {
            Some(content) => {
                content.start_note = None;
            },
            None => {},
        }
        assert(self.manager@.stories[story_index as int].chapters =~= chapters_before.update(
            chapter_index as int,
            self.manager.stories@[story_index as int].chapters@[chapter_index as int]@,
        ));
        assert(self.manager@.stories =~= before.update(story_index as int, self.manager.stories@[story_index as int]@));
    }

    /// Drops the note after the chapter at `chapter_index` of the story at
    /// `story_index`, when the chapter's content is loaded.
    pub fn delete_end_note(&mut self, story_index: usize, chapter_index: usize)
        requires
            story_index < old(self).manager.stories.len(),
            chapter_index < old(self).manager.stories@[story_index as int].chapters.len(),
        ensures
            final(self).read_page == old(self).read_page,
            final(self).story_page == old(self).story_page,
            ({
                let s = old(self).manager@.stories[story_index as int];
                let ch = s.chapters[chapter_index as int];
                let new_content = match ch.content {
                    Some(c) => Some(ChapterContentView { end_note: None, ..c }),
                    None => None,
                };
                final(self).manager@ == (StoryManagerView {
                    stories: old(self).manager@.stories.update(
                        story_index as int,
                        StoryView {
                            chapters: s.chapters.update(chapter_index as int, ChapterView { content: new_content, ..ch }),
                            ..s
                        },
                    ),
                    ..old(self).manager@
                })
            }),
    {
        let ghost before = self.manager@.stories;
        let ghost chapters_before = before[story_index as int].chapters;
        match &mut self.manager.stories[story_index].chapters[chapter_index].content {
            Some(content) => {
                content.end_note = None;
            },
            None => {},
        }
        assert(self.manager@.stories[story_index as int].chapters =~= chapters_before.update(
            chapter_index as int,
            self.manager.stories@[story_index as int].chapters@[chapter_index as int]@,
        ));
        assert(self.manager@.stories =~= before.update(story_index as int, self.manager.stories@[story_index as int]@));
    }
}

} // verus!
