use crate::number::{parse_u32, spec_parse_u32};
use crate::pattern::{regex_captures, regex_captures_all, regex_compiles, regex_replace_all, Pattern};
use crate::site::{
    chapter_id, find_first, find_group, first_group, first_match, group_of, group_text,
    hidden_paragraph_pattern, hidden_paragraph_pattern_for, spec_chapter_id, AUTHOR_PATTERN,
    CHAPTER_ROW_PATTERN, CHAPTER_UPDATE_ROW_PATTERN, CONTENT_PATTERN, DESCRIPTION_PATTERN,
    HIDDEN_CLASS_PATTERN, SITE_ROOT, STORY_ID_PATTERN, TITLE_PATTERN,
};
use vstd::prelude::*;
use vstd::string::StringExecFns;

verus! {

// ---------------------------------------------------------------------------
// Chapter content
// ---------------------------------------------------------------------------

/// The text of one chapter, with the author's notes before and after it.
pub struct ChapterContent {
    pub start_note: Option<String>,
    pub chapter_content: String,
    pub end_note: Option<String>,
}

/// What a `ChapterContent` holds, as character sequences.
pub struct ChapterContentView {
    pub start_note: Option<Seq<char>>,
    pub chapter_content: Seq<char>,
    pub end_note: Option<Seq<char>>,
}

impl View for ChapterContent {
    type V = ChapterContentView;

    open spec fn view(&self) -> ChapterContentView {
        ChapterContentView {
            start_note: self.start_note.deep_view(),
            chapter_content: self.chapter_content@,
            end_note: self.end_note.deep_view(),
        }
    }
}

/// The start note, the text and the end note of a chapter, from the groups of
/// a match of the chapter pattern; `None` when the text group took no part.
pub open spec fn spec_content_parts(groups: Seq<Option<Seq<char>>>) -> Option<(Option<Seq<char>>, Seq<char>, Option<Seq<char>>)> {
    match group_text(groups, 2) {
        Some(body) => Some((group_text(groups, 1), body, group_text(groups, 3))),
        None => None,
    }
}

/// The chapter that a chapter page shows: its notes, and its text with every
/// paragraph of the hidden class (when the page hides one) taken out.
pub open spec fn spec_chapter_content(html: Seq<char>) -> Option<ChapterContentView> {
    match first_match(CONTENT_PATTERN@, html) {
        None => None,
        Some(groups) => match spec_content_parts(groups) {
            None => None,
            Some((start_note, body, end_note)) => if !regex_compiles(HIDDEN_CLASS_PATTERN@) {
                None
            } else {
                match regex_captures(HIDDEN_CLASS_PATTERN@, html) {
                    None => Some(ChapterContentView { start_note, chapter_content: body, end_note }),
                    Some(hidden) => match group_text(hidden, 1) {
                        None => None,
                        Some(class) => {
                            let p = hidden_paragraph_pattern(class);
                            if regex_compiles(p) {
                                Some(ChapterContentView {
                                    start_note,
                                    chapter_content: regex_replace_all(p, body, Seq::<char>::empty()),
                                    end_note,
                                })
                            } else {
                                None
                            }
                        },
                    },
                }
            },
        },
    }
}

/// The start note, the text and the end note of a chapter, from the groups of
/// a match of the chapter pattern.
pub fn content_parts(groups: &Vec<Option<String>>) -> (r: Option<(Option<String>, String, Option<String>)>)
    ensures
        r.deep_view() == spec_content_parts(groups.deep_view()),
{
    match group_of(groups, 2) {
        Some(body) => Some((group_of(groups, 1), body, group_of(groups, 3))),
        None => None,
    }
}

impl ChapterContent {
    /// Reads a chapter page: the notes and the text of the chapter, with the
    /// paragraphs that the page hides removed. `None` when the page does not
    /// have the shape of a chapter page.
    pub fn from_html(page_html: &str) -> (r: Option<ChapterContent>)
        ensures
            match r {
                Some(c) => spec_chapter_content(page_html@) == Some(c@),
                None => spec_chapter_content(page_html@) is None,
            },
    {
        let groups = match find_first(CONTENT_PATTERN, page_html) {
            Some(g) => g,
            None => return None,
        };
        let (start_note, body, end_note) = match content_parts(&groups) {
            Some(parts) => parts,
            None => return None,
        };
        let hidden_class = match Pattern::new(HIDDEN_CLASS_PATTERN) {
            Some(p) => p,
            None => return None,
        };
        match hidden_class.captures(page_html) {
            None => Some(ChapterContent { start_note, chapter_content: body, end_note }),
            Some(hidden) => match group_of(&hidden, 1) {
                None => None,
                Some(class) => {
                    let source = hidden_paragraph_pattern_for(class.as_str());
                    match Pattern::new(source.as_str()) {
                        None => None,
                        Some(p) => {
                            let nothing = String::new();
                            let cleaned = p.replace_all(body.as_str(), nothing.as_str());
                            Some(ChapterContent { start_note, chapter_content: cleaned, end_note })
                        },
                    }
                },
            },
        }
    }
}

// ---------------------------------------------------------------------------
// Chapters
// ---------------------------------------------------------------------------

/// One chapter of a story: its name, where it is read, its id, and its
/// content once it has been loaded.
pub struct Chapter {
    pub content: Option<ChapterContent>,
    pub name: String,
    pub url: String,
    pub id: u32,
}

/// What a `Chapter` holds, as character sequences.
pub struct ChapterView {
    pub content: Option<ChapterContentView>,
    pub name: Seq<char>,
    pub url: Seq<char>,
    pub id: u32,
}

/// The view of an optional chapter content.
pub open spec fn content_view(c: Option<ChapterContent>) -> Option<ChapterContentView> {
    match c {
        Some(c) => Some(c@),
        None => None,
    }
}

impl View for Chapter {
    type V = ChapterView;

    open spec fn view(&self) -> ChapterView {
        ChapterView {
            content: content_view(self.content),
            name: self.name@,
            url: self.url@,
            id: self.id,
        }
    }
}

/// An entry of a story's chapter table: the chapter's name and, when the row
/// gave one, its path on the site.
pub struct ListingEntry {
    pub name: String,
    pub path: Option<String>,
}

/// What a `ListingEntry` holds, as character sequences.
pub struct ListingEntryView {
    pub name: Seq<char>,
    pub path: Option<Seq<char>>,
}

impl View for ListingEntry {
    type V = ListingEntryView;

    open spec fn view(&self) -> ListingEntryView {
        ListingEntryView { name: self.name@, path: self.path.deep_view() }
    }
}

/// The chapter that a chapter table row names: its name is group 2, its path
/// group 1, its id is read from the path.
pub open spec fn spec_listed_chapter(row: Seq<Option<Seq<char>>>) -> Option<ChapterView> {
    match group_text(row, 2) {
        None => None,
        Some(name) => match group_text(row, 1) {
            None => None,
            Some(path) => match spec_chapter_id(path) {
                None => None,
                Some(id) => Some(ChapterView { content: None, name, url: SITE_ROOT@ + path, id }),
            },
        },
    }
}

/// The chapter that a new entry of a chapter table stands for.
pub open spec fn spec_new_chapter(e: ListingEntryView) -> Option<ChapterView> {
    match e.path {
        None => None,
        Some(path) => match spec_chapter_id(path) {
            None => None,
            Some(id) => Some(ChapterView { content: None, name: e.name, url: SITE_ROOT@ + path, id }),
        },
    }
}

/// The entry that a chapter table row gives when a story is brought up to
/// date: its name is group 2, which the row must have.
pub open spec fn spec_listing_entry(row: Seq<Option<Seq<char>>>) -> Option<ListingEntryView> {
    match group_text(row, 2) {
        None => None,
        Some(name) => Some(ListingEntryView { name, path: group_text(row, 1) }),
    }
}

/// All the items, when none is missing.
pub open spec fn all_present<T>(items: Seq<Option<T>>) -> Option<Seq<T>>
    decreases items.len(),
{
    if items.len() == 0 {
        Some(Seq::empty())
    } else {
        match (all_present(items.drop_last()), items.last()) {
            (Some(s), Some(x)) => Some(s.push(x)),
            _ => None,
        }
    }
}

proof fn lemma_all_present_step<T>(items: Seq<Option<T>>, i: int)
    requires
        0 <= i < items.len(),
    ensures
        all_present(items.take(i + 1)) == match (all_present(items.take(i)), items[i]) {
            (Some(s), Some(x)) => Some(s.push(x)),
            _ => None::<Seq<T>>,
        },
{
    assert(items.take(i + 1).drop_last() =~= items.take(i));
}

proof fn lemma_all_present_missing<T>(items: Seq<Option<T>>, k: int)
    requires
        0 <= k <= items.len(),
        all_present(items.take(k)) is None,
    ensures
        all_present(items) is None,
    decreases items.len() - k,
{
    if k < items.len() {
        lemma_all_present_step(items, k);
        lemma_all_present_missing(items, k + 1);
    } else {
        assert(items.take(k) =~= items);
    }
}

/// The chapter that each row of a chapter table names.
pub open spec fn rows_chapters(rows: Seq<Seq<Option<Seq<char>>>>) -> Seq<Option<ChapterView>> {
    rows.map_values(|row: Seq<Option<Seq<char>>>| spec_listed_chapter(row))
}

/// The entry that each row of a chapter table gives.
pub open spec fn rows_entries(rows: Seq<Seq<Option<Seq<char>>>>) -> Seq<Option<ListingEntryView>> {
    rows.map_values(|row: Seq<Option<Seq<char>>>| spec_listing_entry(row))
}

/// The chapters of a story page's chapter table, in order.
pub open spec fn spec_listed_chapters(html: Seq<char>) -> Option<Seq<ChapterView>> {
    if regex_compiles(CHAPTER_ROW_PATTERN@) {
        all_present(rows_chapters(regex_captures_all(CHAPTER_ROW_PATTERN@, html)))
    } else {
        None
    }
}

/// The entries of a story page's chapter table, as read to bring a story up to date.
pub open spec fn spec_listing(html: Seq<char>) -> Option<Seq<ListingEntryView>> {
    if regex_compiles(CHAPTER_UPDATE_ROW_PATTERN@) {
        all_present(rows_entries(regex_captures_all(CHAPTER_UPDATE_ROW_PATTERN@, html)))
    } else {
        None
    }
}

/// The views of some chapters.
pub open spec fn chapter_views(chapters: Seq<Chapter>) -> Seq<ChapterView> {
    chapters.map_values(|c: Chapter| c@)
}

/// The views of some listing entries.
pub open spec fn entry_views(entries: Seq<ListingEntry>) -> Seq<ListingEntryView> {
    entries.map_values(|e: ListingEntry| e@)
}

impl Chapter {
    /// A chapter whose content has not been loaded yet.
    pub fn from_name_and_url(name: String, url: String, id: u32) -> (r: Chapter)
        ensures
            r@ == (ChapterView { content: None, name: name@, url: url@, id }),
    {
        Chapter { content: None, name, url, id }
    }

    /// The chapter that one row of a story page's chapter table names.
    pub fn from_listing_row(row: &Vec<Option<String>>) -> (r: Option<Chapter>)
        ensures
            match r {
                Some(c) => spec_listed_chapter(row.deep_view()) == Some(c@),
                None => spec_listed_chapter(row.deep_view()) is None,
            },
    {
        let name = match group_of(row, 2) {
            Some(n) => n,
            None => return None,
        };
        let path = match group_of(row, 1) {
            Some(p) => p,
            None => return None,
        };
        match chapter_id(path.as_str()) {
            Some(id) => {
                let url = String::from_str(SITE_ROOT).concat(path.as_str());
                Some(Chapter::from_name_and_url(name, url, id))
            },
            None => None,
        }
    }

    /// The chapter that a new entry of a chapter table stands for.
    pub fn from_listing_entry(entry: &ListingEntry) -> (r: Option<Chapter>)
        ensures
            match r {
                Some(c) => spec_new_chapter(entry@) == Some(c@),
                None => spec_new_chapter(entry@) is None,
            },
    {
        match &entry.path {
            None => None,
            Some(path) => match chapter_id(path.as_str()) {
                Some(id) => {
                    let url = String::from_str(SITE_ROOT).concat(path.as_str());
                    Some(Chapter::from_name_and_url(entry.name.clone(), url, id))
                },
                None => None,
            },
        }
    }

    /// Stores the chapter read from `page_html`, the page at the chapter's
    /// address, unless the chapter already has its content. Returns `false`
    /// when the chapter had no content and the page could not be read.
    pub fn load_content(&mut self, page_html: &str) -> (loaded: bool)
        ensures
            old(self).content is Some ==> final(self)@ == old(self)@ && loaded,
            old(self).content is None ==> {
                &&& loaded == (spec_chapter_content(page_html@) is Some)
                &&& final(self)@ == (ChapterView { content: spec_chapter_content(page_html@), ..old(self)@ })
            },
    {
        if self.content.is_none() {
            match ChapterContent::from_html(page_html) {
                Some(c) => {
                    self.content = Some(c);
                    true
                },
                None => false,
            }
        } else {
            true
        }
    }
}

// ---------------------------------------------------------------------------
// Stories
// ---------------------------------------------------------------------------

/// A story: what its page says of it, its chapters, and how far it has been read.
pub struct Story {
    pub title: String,
    pub id: u32,
    pub page_url: String,
    pub description: String,
    pub chapters: Vec<Chapter>,
    pub author: String,
    pub progress: usize,
}

/// What a `Story` holds, as character sequences.
pub struct StoryView {
    pub title: Seq<char>,
    pub id: u32,
    pub page_url: Seq<char>,
    pub description: Seq<char>,
    pub chapters: Seq<ChapterView>,
    pub author: Seq<char>,
    pub progress: usize,
}

impl View for Story {
    type V = StoryView;

    open spec fn view(&self) -> StoryView {
        StoryView {
            title: self.title@,
            id: self.id,
            page_url: self.page_url@,
            description: self.description@,
            chapters: chapter_views(self.chapters@),
            author: self.author@,
            progress: self.progress,
        }
    }
}

/// The story that the page at `url` shows, with no chapter read yet.
pub open spec fn spec_story(url: Seq<char>, html: Seq<char>) -> Option<StoryView> {
    match (
        first_group(TITLE_PATTERN@, html, 1),
        first_group(STORY_ID_PATTERN@, url, 1),
        first_group(DESCRIPTION_PATTERN@, html, 1),
        first_group(AUTHOR_PATTERN@, html, 1),
    ) {
        (Some(title), Some(id_text), Some(description), Some(author)) => match (
            spec_parse_u32(id_text),
            spec_listed_chapters(html),
        ) {
            (Some(id), Some(chapters)) => Some(
                StoryView { title, id, page_url: url, description, chapters, author, progress: 0 },
            ),
            _ => None,
        },
        _ => None,
    }
}

/// There is a chapter named `name`.
pub open spec fn has_name(chapters: Seq<ChapterView>, name: Seq<char>) -> bool {
    exists|i: int| 0 <= i < chapters.len() && #[trigger] chapters[i].name == name
}

/// `i` is the first chapter named `name`.
pub open spec fn is_first_named(chapters: Seq<ChapterView>, name: Seq<char>, i: int) -> bool {
    &&& 0 <= i < chapters.len()
    &&& chapters[i].name == name
    &&& forall|j: int| 0 <= j < i ==> #[trigger] chapters[j].name != name
}

/// The first chapter named `name`, when there is one.
pub open spec fn first_named(chapters: Seq<ChapterView>, name: Seq<char>) -> int {
    choose|i: int| is_first_named(chapters, name, i)
}

/// One entry of a chapter table applied to the chapters, with `expected` the
/// chapter the entry is expected to name. When it names that chapter, the
/// next entry is expected to name the chapter after it (the last chapter
/// stays expected); when it names another known chapter, the chapter after
/// the first of that name is expected next (at most the last); an unknown
/// entry is appended as a new chapter. `None` when a new chapter cannot be made
/// of the entry.
pub open spec fn listing_step(chapters: Seq<ChapterView>, expected: int, e: ListingEntryView) -> Option<(Seq<ChapterView>, int)> {
    if chapters[expected].name == e.name {
        Some((chapters, if expected + 1 != chapters.len() { expected + 1 } else { expected }))
    } else if has_name(chapters, e.name) {
        let i = first_named(chapters, e.name);
        Some((chapters, if i + 1 <= chapters.len() - 1 { i + 1 } else { chapters.len() - 1 }))
    } else {
        match spec_new_chapter(e) {
            Some(c) => Some((chapters.push(c), expected)),
            None => None,
        }
    }
}

/// A chapter table applied entry by entry: the chapters and the expected
/// chapter at the end, and whether every entry could be applied (if not, the
/// state reached before the entry that could not).
pub open spec fn listing_run(chapters: Seq<ChapterView>, expected: int, listing: Seq<ListingEntryView>) -> (Seq<ChapterView>, int, bool)
    decreases listing.len(),
{
    if listing.len() == 0 {
        (chapters, expected, true)
    } else {
        match listing_step(chapters, expected, listing[0]) {
            Some((next, next_expected)) => listing_run(next, next_expected, listing.drop_first()),
            None => (chapters, expected, false),
        }
    }
}

/// The chapters after a chapter table has been applied from the first chapter on.
pub open spec fn applied_listing(chapters: Seq<ChapterView>, listing: Seq<ListingEntryView>) -> (Seq<ChapterView>, bool) {
    let (c, _e, ok) = listing_run(chapters, 0, listing);
    (c, ok)
}

/// The chapters after the story page `html` has been read to bring them up
/// to date, and whether that worked: it does not when the chapter table
/// cannot be read, when the story has no chapter to compare the table with,
/// or when a new chapter cannot be made of an entry.
pub open spec fn spec_updated_chapters(chapters: Seq<ChapterView>, html: Seq<char>) -> (Seq<ChapterView>, bool) {
    match spec_listing(html) {
        None => (chapters, false),
        Some(listing) => if chapters.len() == 0 && listing.len() > 0 {
            (chapters, false)
        } else {
            applied_listing(chapters, listing)
        },
    }
}

/// What one step of loading every chapter does: `before` are the chapters
/// when the step starts, `page` the page handed back (see
/// `Story::download_all`), `after` the chapters when it ends and `step` what it
/// asks for next.
pub open spec fn download_step(before: Seq<ChapterView>, page: Option<(usize, &str)>, after: Seq<ChapterView>, step: FetchStep) -> bool {
    &&& match page {
        Some((i, html)) => if i < before.len() {
            &&& after == before.update(
                i as int,
                if before[i as int].content is None {
                    ChapterView { content: spec_chapter_content(html@), ..before[i as int] }
                } else {
                    before[i as int]
                },
            )
            &&& (step is Failed <==> (before[i as int].content is None
                && spec_chapter_content(html@) is None))
            &&& step matches FetchStep::Failed { cursor } ==> cursor == i
        } else {
            after == before && step !is Failed
        },
        None => after == before && step !is Failed,
    }
    &&& match step {
        FetchStep::Fetch { cursor, url } => {
            &&& is_first_missing(after, resume_from(page_cursor(page), before.len() as int), cursor as int)
            &&& url@ == after[cursor as int].url
        },
        FetchStep::Done => none_missing(after, resume_from(page_cursor(page), before.len() as int)),
        FetchStep::Failed { .. } => true,
    }
}

/// Every chapter before `n` has its content.
pub open spec fn loaded_before(chapters: Seq<ChapterView>, n: int) -> bool {
    forall|k: int| 0 <= k < n && k < chapters.len() ==> (#[trigger] chapters[k]).content is Some
}

/// A run of loading steps skips no chapter: when every chapter before the
/// one whose page is handed back has its content (as at the start of a run),
/// and the step does not fail, then every chapter before the one it asks for
/// next has its content, and when it reports that it is done, every chapter
/// of the story has its content.
pub proof fn law_download_skips_no_chapter(before: Seq<ChapterView>, page: Option<(usize, &str)>, after: Seq<ChapterView>, step: FetchStep)
    requires
        download_step(before, page, after, step),
        match page {
            Some((i, _)) => i < before.len() && loaded_before(before, i as int),
            None => true,
        },
        step !is Failed,
    ensures
        match step {
            FetchStep::Fetch { cursor, .. } => cursor < after.len() && after[cursor as int].content is None
                && loaded_before(after, cursor as int),
            FetchStep::Done => loaded_before(after, after.len() as int),
            FetchStep::Failed { .. } => false,
        },
{
    match page {
        Some((i, html)) => {
            assert(after[i as int].content is Some);
            assert forall|k: int| 0 <= k < i ==> (#[trigger] after[k]).content is Some by {
                if 0 <= k < i {
                    assert(after[k] == before[k]);
                }
            }
        },
        None => {},
    }
}

/// The first chapter at or after `start` that has no content.
pub open spec fn is_first_missing(chapters: Seq<ChapterView>, start: int, i: int) -> bool {
    &&& start <= i < chapters.len()
    &&& chapters[i].content is None
    &&& forall|k: int| start <= k < i ==> (#[trigger] chapters[k]).content is Some
}

/// Every chapter at or after `start` has its content.
pub open spec fn none_missing(chapters: Seq<ChapterView>, start: int) -> bool {
    forall|k: int| start <= k < chapters.len() ==> (#[trigger] chapters[k]).content is Some
}

/// What a run that visits items one page at a time asks for next.
pub enum FetchStep {
    /// Fetch the page at `url` for the item at `cursor`, then hand it back.
    Fetch { cursor: usize, url: String },
    /// Every item has been visited.
    Done,
    /// The page handed back for the item at `cursor` could not be read.
    Failed { cursor: usize },
}

/// Where a run that visits items one page at a time goes on from: the start
/// at first, the item after the one whose page was handed back, or the end
/// when that item does not exist.
pub open spec fn resume_from(page_cursor: Option<usize>, len: int) -> int {
    match page_cursor {
        None => 0,
        Some(i) => if i < len { i + 1 } else { len },
    }
}

/// The cursor of a handed-back page.
pub open spec fn page_cursor(page: Option<(usize, &str)>) -> Option<usize> {
    match page {
        Some((i, _)) => Some(i),
        None => None,
    }
}

proof fn lemma_first_named_is_first(chapters: Seq<ChapterView>, name: Seq<char>, i: int)
    requires
        is_first_named(chapters, name, i),
    ensures
        has_name(chapters, name),
        first_named(chapters, name) == i,
{
    let j = first_named(chapters, name);
    assert(is_first_named(chapters, name, j));
    if j < i {
        assert(chapters[j].name != name);
    } else if i < j {
        assert(chapters[i].name != name);
    }
}

proof fn lemma_first_named_exists(chapters: Seq<ChapterView>, name: Seq<char>, i: int)
    requires
        0 <= i < chapters.len(),
        chapters[i].name == name,
    ensures
        is_first_named(chapters, name, first_named(chapters, name)),
    decreases i,
{
    if forall|j: int| 0 <= j < i ==> #[trigger] chapters[j].name != name {
        assert(is_first_named(chapters, name, i));
    } else {
        let j = choose|j: int| 0 <= j < i && #[trigger] chapters[j].name == name;
        lemma_first_named_exists(chapters, name, j);
    }
}

impl Story {
    /// Reads the page of the story at `url`: its title, id, description,
    /// author and chapter list. `None` when the page or the address does not
    /// have the expected shape.
    pub fn from_page_url(url: String, page_html: &str) -> (r: Option<Story>)
        ensures
            match r {
                Some(s) => spec_story(url@, page_html@) == Some(s@),
                None => spec_story(url@, page_html@) is None,
            },
    {
        let title = match find_group(TITLE_PATTERN, page_html, 1) {
            Some(t) => t,
            None => return None,
        };
        let id_text = match find_group(STORY_ID_PATTERN, url.as_str(), 1) {
            Some(t) => t,
            None => return None,
        };
        let description = match find_group(DESCRIPTION_PATTERN, page_html, 1) {
            Some(t) => t,
            None => return None,
        };
        let author = match find_group(AUTHOR_PATTERN, page_html, 1) {
            Some(t) => t,
            None => return None,
        };
        let id = match parse_u32(id_text.as_str()) {
            Some(id) => id,
            None => return None,
        };
        let chapters = match listed_chapters(page_html) {
            Some(c) => c,
            None => return None,
        };
        Some(Story { title, id, page_url: url, description, chapters, author, progress: 0 })
    }
}

/// The chapters of a story page's chapter table, in order.
pub fn listed_chapters(page_html: &str) -> (r: Option<Vec<Chapter>>)
    ensures
        match r {
            Some(c) => spec_listed_chapters(page_html@) == Some(chapter_views(c@)),
            None => spec_listed_chapters(page_html@) is None,
        },
{
    let rows_pattern = match Pattern::new(CHAPTER_ROW_PATTERN) {
        Some(p) => p,
        None => return None,
    };
    let rows = rows_pattern.captures_all(page_html);
    let ghost items = rows_chapters(rows.deep_view());
    let mut chapters: Vec<Chapter> = Vec::new();
    let mut i: usize = 0;
    assert(items.take(0) =~= Seq::<Option<ChapterView>>::empty());
    assert(chapter_views(chapters@) =~= Seq::<ChapterView>::empty());
    while i < rows.len()
        invariant
            0 <= i <= rows.len(),
            items == rows_chapters(rows.deep_view()),
            rows.deep_view() == regex_captures_all(CHAPTER_ROW_PATTERN@, page_html@),
            regex_compiles(CHAPTER_ROW_PATTERN@),
            all_present(items.take(i as int)) == Some(chapter_views(chapters@)),
        decreases rows.len() - i,
    {
        proof {
            lemma_all_present_step(items, i as int);
        }
        match Chapter::from_listing_row(&rows[i]) {
            Some(c) => {
                let ghost before = chapters@;
                chapters.push(c);
                assert(chapter_views(chapters@) =~= chapter_views(before).push(c@));
            },
            None => {
                proof {
                    lemma_all_present_missing(items, i + 1);
                }
                return None;
            },
        }
        i = i + 1;
    }
    assert(items.take(rows.len() as int) =~= items);
    Some(chapters)
}

/// The entries of a story page's chapter table, as read to bring a story up to date.
pub fn listing_from_html(page_html: &str) -> (r: Option<Vec<ListingEntry>>)
    ensures
        match r {
            Some(l) => spec_listing(page_html@) == Some(entry_views(l@)),
            None => spec_listing(page_html@) is None,
        },
{
    let rows_pattern = match Pattern::new(CHAPTER_UPDATE_ROW_PATTERN) {
        Some(p) => p,
        None => return None,
    };
    let rows = rows_pattern.captures_all(page_html);
    let ghost items = rows_entries(rows.deep_view());
    let mut entries: Vec<ListingEntry> = Vec::new();
    let mut i: usize = 0;
    assert(items.take(0) =~= Seq::<Option<ListingEntryView>>::empty());
    assert(entry_views(entries@) =~= Seq::<ListingEntryView>::empty());
    while i < rows.len()
        invariant
            0 <= i <= rows.len(),
            items == rows_entries(rows.deep_view()),
            rows.deep_view() == regex_captures_all(CHAPTER_UPDATE_ROW_PATTERN@, page_html@),
            regex_compiles(CHAPTER_UPDATE_ROW_PATTERN@),
            all_present(items.take(i as int)) == Some(entry_views(entries@)),
        decreases rows.len() - i,
    {
        proof {
            lemma_all_present_step(items, i as int);
        }
        match group_of(&rows[i], 2) {
            Some(name) => {
                let path = group_of(&rows[i], 1);
                let e = ListingEntry { name, path };
                let ghost before = entries@;
                entries.push(e);
                assert(entry_views(entries@) =~= entry_views(before).push(e@));
            },
            None => {
                proof {
                    lemma_all_present_missing(items, i + 1);
                }
                return None;
            },
        }
        i = i + 1;
    }
    assert(items.take(rows.len() as int) =~= items);
    Some(entries)
}

/// The first of `chapters` named `name`.
pub fn first_chapter_named(chapters: &Vec<Chapter>, name: &String) -> (r: Option<usize>)
    ensures
        match r {
            Some(i) => is_first_named(chapter_views(chapters@), name@, i as int),
            None => !has_name(chapter_views(chapters@), name@),
        },
{
    let ghost views = chapter_views(chapters@);
    let mut i: usize = 0;
    while i < chapters.len()
        invariant
            0 <= i <= chapters.len(),
            views == chapter_views(chapters@),
            forall|j: int| 0 <= j < i ==> #[trigger] views[j].name != name@,
        decreases chapters.len() - i,
    {
        if chapters[i].name == *name {
            return Some(i);
        }
        i = i + 1;
    }
    None
}

impl Story {
    /// The story with other chapters and everything else unchanged.
    pub open spec fn with_chapters(self, chapters: Seq<ChapterView>) -> StoryView {
        StoryView { chapters, ..self@ }
    }

    /// Applies a chapter table to the chapters, entry by entry, starting with
    /// the first chapter expected (see `listing_step`). Returns `false`, with
    /// the chapters as they were before the failing entry, when a new chapter
    /// cannot be made of an entry.
    pub fn apply_chapter_listing(&mut self, listing: &Vec<ListingEntry>) -> (ok: bool)
        requires
            old(self).chapters.len() > 0 || listing.len() == 0,
        ensures
            applied_listing(old(self)@.chapters, entry_views(listing@)) == (final(self)@.chapters, ok),
            final(self)@ == old(self).with_chapters(final(self)@.chapters),
    {
        let ghost l = entry_views(listing@);
        let ghost start = old(self)@.chapters;
        let mut expected: usize = 0;
        let mut i: usize = 0;
        assert(l.skip(0) =~= l);
        while i < listing.len()
            invariant
                0 <= i <= listing.len(),
                l == entry_views(listing@),
                start == old(self)@.chapters,
                self.chapters.len() > 0 || listing.len() == 0,
                self.chapters.len() > 0 ==> expected < self.chapters.len(),
                listing_run(start, 0, l) == listing_run(self@.chapters, expected as int, l.skip(i as int)),
                self@ == old(self).with_chapters(self@.chapters),
            decreases listing.len() - i,
        {
            let e = &listing[i];
            let ghost chs = self@.chapters;
            assert(l.skip(i as int)[0] == e@);
            assert(l.skip(i as int).drop_first() =~= l.skip(i + 1));
            if self.chapters[expected].name == e.name {
                if expected + 1 != self.chapters.len() {
                    expected = expected + 1;
                }
            } else {
                match first_chapter_named(&self.chapters, &e.name) {
                    Some(idx) => {
                        proof {
                            lemma_first_named_is_first(chs, e.name@, idx as int);
                        }
                        let last = self.chapters.len() - 1;
                        expected = if idx + 1 <= last { idx + 1 } else { last };
                    },
                    None => {
                        match Chapter::from_listing_entry(e) {
                            Some(c) => {
                                self.chapters.push(c);
                                assert(self@.chapters =~= chs.push(c@));
                            },
                            None => {
                                return false;
                            },
                        }
                    },
                }
            }
            i = i + 1;
        }
        true
    }

    /// Brings the chapter list up to date with the story page `page_html`:
    /// reads the page's chapter table and applies it (see
    /// `apply_chapter_listing`). Returns `false` when the table cannot be
    /// read, when the story has no chapter but the table has entries, or when
    /// a new chapter cannot be made of an entry.
    pub fn update(&mut self, page_html: &str) -> (ok: bool)
        ensures
            spec_updated_chapters(old(self)@.chapters, page_html@) == (final(self)@.chapters, ok),
            final(self)@ == old(self).with_chapters(final(self)@.chapters),
    {
        let listing = match listing_from_html(page_html) {
            Some(l) => l,
            None => return false,
        };
        if self.chapters.len() == 0 && listing.len() > 0 {
            return false;
        }
        self.apply_chapter_listing(&listing)
    }

    /// Takes the title and the description from the story page `page_html`.
    /// Returns `false`, changing nothing, when the page has either missing.
    pub fn update_details(&mut self, page_html: &str) -> (ok: bool)
        ensures
            ok == (first_group(TITLE_PATTERN@, page_html@, 1) is Some
                && first_group(DESCRIPTION_PATTERN@, page_html@, 1) is Some),
            ok ==> final(self)@ == (StoryView {
                title: first_group(TITLE_PATTERN@, page_html@, 1)->0,
                description: first_group(DESCRIPTION_PATTERN@, page_html@, 1)->0,
                ..old(self)@
            }),
            !ok ==> final(self)@ == old(self)@,
    {
        let title = match find_group(TITLE_PATTERN, page_html, 1) {
            Some(t) => t,
            None => return false,
        };
        let description = match find_group(DESCRIPTION_PATTERN, page_html, 1) {
            Some(d) => d,
            None => return false,
        };
        self.title = title;
        self.description = description;
        true
    }

    /// One step of loading the content of every chapter. `page` is the page
    /// fetched for the chapter that the previous step asked for, with that
    /// chapter's index (`None` to start). The page is loaded into that
    /// chapter (see `Chapter::load_content`); the step then asks for the first
    /// chapter after it that has no content, or reports that there is none.
    /// It reports a failure when the page could not be read.
    pub fn download_all(&mut self, page: Option<(usize, &str)>) -> (step: FetchStep)
        ensures
            final(self)@ == old(self).with_chapters(final(self)@.chapters),
            final(self)@.chapters.len() == old(self)@.chapters.len(),
            download_step(old(self)@.chapters, page, final(self)@.chapters, step),
    {
        let ghost before = self@.chapters;
        let len = self.chapters.len();
        let mut start: usize = 0;
        match page {
            Some((i, html)) => {
                if i < len {
                    let loaded = self.chapters[i].load_content(html);
                    assert(self@.chapters =~= before.update(i as int, self.chapters@[i as int]@));
                    if !loaded {
                        return FetchStep::Failed { cursor: i };
                    }
                    start = i + 1;
                } else {
                    start = len;
                }
            },
            None => {},
        }
        let ghost views = self@.chapters;
        let mut k: usize = start;
        let mut found = false;
        while k < len
            invariant_except_break
                start <= k <= len,
                len == self.chapters.len(),
                views == self@.chapters,
                forall|j: int| start <= j < k ==> (#[trigger] views[j]).content is Some,
                !found,
            ensures
                start <= k <= len,
                forall|j: int| start <= j < k ==> (#[trigger] views[j]).content is Some,
                found ==> k < len && views[k as int].content is None,
                !found ==> k == len,
            decreases len - k,
        {
            if self.chapters[k].content.is_none() {
                found = true;
                break;
            }
            k = k + 1;
        }
        if found {
            FetchStep::Fetch { cursor: k, url: self.chapters[k].url.clone() }
        } else {
            FetchStep::Done
        }
    }
}

// ---------------------------------------------------------------------------
// What bringing a chapter list up to date keeps
// ---------------------------------------------------------------------------

proof fn lemma_step_keeps_expected(chapters: Seq<ChapterView>, expected: int, e: ListingEntryView)
    requires
        0 <= expected < chapters.len(),
    ensures
        listing_step(chapters, expected, e) matches Some((next, next_expected)) ==> {
            &&& 0 <= next_expected < next.len()
            &&& next.len() >= chapters.len()
            &&& next.subrange(0, chapters.len() as int) == chapters
            &&& has_name(next, e.name)
        },
{
    if chapters[expected].name == e.name {
        assert(chapters.subrange(0, chapters.len() as int) =~= chapters);
    } else if has_name(chapters, e.name) {
        let w = choose|i: int| 0 <= i < chapters.len() && #[trigger] chapters[i].name == e.name;
        lemma_first_named_exists(chapters, e.name, w);
        assert(chapters.subrange(0, chapters.len() as int) =~= chapters);
    } else {
        match spec_new_chapter(e) {
            Some(c) => {
                let next = chapters.push(c);
                assert(next.subrange(0, chapters.len() as int) =~= chapters);
                assert(next[chapters.len() as int].name == e.name);
            },
            None => {},
        }
    }
}

/// Applying a chapter table only ever adds chapters at the end: the chapters
/// there were before stay, in order and unchanged.
pub proof fn law_listing_keeps_chapters(chapters: Seq<ChapterView>, expected: int, listing: Seq<ListingEntryView>)
    ensures
        listing_run(chapters, expected, listing).0.len() >= chapters.len(),
        listing_run(chapters, expected, listing).0.subrange(0, chapters.len() as int) == chapters,
    decreases listing.len(),
{
    if listing.len() > 0 {
        match listing_step(chapters, expected, listing[0]) {
            Some((next, next_expected)) => {
                law_listing_keeps_chapters(next, next_expected, listing.drop_first());
                let r = listing_run(next, next_expected, listing.drop_first()).0;
                assert(next.len() >= chapters.len() && next.subrange(0, chapters.len() as int) =~= chapters) by {
                    if chapters[expected].name == listing[0].name || has_name(chapters, listing[0].name) {
                        assert(chapters.subrange(0, chapters.len() as int) =~= chapters);
                    } else {
                        assert(chapters.push(spec_new_chapter(listing[0])->0).subrange(0, chapters.len() as int) =~= chapters);
                    }
                }
                assert(r.subrange(0, chapters.len() as int) =~= r.subrange(0, next.len() as int).subrange(0, chapters.len() as int));
            },
            None => {
                assert(chapters.subrange(0, chapters.len() as int) =~= chapters);
            },
        }
    } else {
        assert(chapters.subrange(0, chapters.len() as int) =~= chapters);
    }
}

proof fn lemma_run_names_every_entry(chapters: Seq<ChapterView>, expected: int, listing: Seq<ListingEntryView>)
    requires
        0 <= expected < chapters.len(),
    ensures
        listing_run(chapters, expected, listing).2 ==> forall|k: int| 0 <= k < listing.len()
            ==> has_name(listing_run(chapters, expected, listing).0, #[trigger] listing[k].name),
    decreases listing.len(),
{
    if listing.len() > 0 {
        lemma_step_keeps_expected(chapters, expected, listing[0]);
        match listing_step(chapters, expected, listing[0]) {
            Some((next, next_expected)) => {
                lemma_run_names_every_entry(next, next_expected, listing.drop_first());
                law_listing_keeps_chapters(next, next_expected, listing.drop_first());
                let r = listing_run(next, next_expected, listing.drop_first()).0;
                if listing_run(chapters, expected, listing).2 {
                    assert forall|k: int| 0 <= k < listing.len() implies has_name(r, #[trigger] listing[k].name) by {
                        if k == 0 {
                            let w = choose|i: int| 0 <= i < next.len() && #[trigger] next[i].name == listing[0].name;
                            assert(r.subrange(0, next.len() as int)[w] == next[w]);
                            assert(r[w].name == listing[0].name);
                        } else {
                            assert(listing.drop_first()[k - 1] == listing[k]);
                        }
                    }
                }
            },
            None => {},
        }
    }
}

proof fn lemma_run_over_known_names(chapters: Seq<ChapterView>, expected: int, listing: Seq<ListingEntryView>)
    requires
        0 <= expected < chapters.len(),
        forall|k: int| 0 <= k < listing.len() ==> has_name(chapters, #[trigger] listing[k].name),
    ensures
        listing_run(chapters, expected, listing).0 == chapters,
        listing_run(chapters, expected, listing).2,
    decreases listing.len(),
{
    if listing.len() > 0 {
        let e = listing[0];
        assert(has_name(chapters, e.name));
        lemma_step_keeps_expected(chapters, expected, e);
        let (next, next_expected) = listing_step(chapters, expected, e)->0;
        assert(next == chapters);
        assert forall|k: int| 0 <= k < listing.drop_first().len() implies has_name(chapters, #[trigger] listing.drop_first()[k].name) by {
            assert(listing.drop_first()[k] == listing[k + 1]);
        }
        lemma_run_over_known_names(chapters, next_expected, listing.drop_first());
    }
}

/// Applying a chapter table a second time, once it has been applied without
/// failure, changes nothing: every entry is then the name of a chapter.
pub proof fn law_listing_idempotent(chapters: Seq<ChapterView>, listing: Seq<ListingEntryView>)
    requires
        chapters.len() > 0,
        applied_listing(chapters, listing).1,
    ensures
        applied_listing(applied_listing(chapters, listing).0, listing) == (applied_listing(chapters, listing).0, true),
{
    let r = applied_listing(chapters, listing).0;
    law_listing_keeps_chapters(chapters, 0, listing);
    lemma_run_names_every_entry(chapters, 0, listing);
    lemma_run_over_known_names(r, 0, listing);
}

/// Bringing a story's chapters up to date with a page keeps the chapters it
/// had, at the start and unchanged, whether or not it succeeds.
pub proof fn law_update_keeps_chapters(chapters: Seq<ChapterView>, html: Seq<char>)
    ensures
        spec_updated_chapters(chapters, html).0.len() >= chapters.len(),
        spec_updated_chapters(chapters, html).0.subrange(0, chapters.len() as int) == chapters,
{
    law_listing_keeps_chapters(chapters, 0, spec_listing(html)->0);
    assert(chapters.subrange(0, chapters.len() as int) =~= chapters);
}

/// Bringing a story up to date twice with the same page, when the first time
/// succeeds, leaves the chapters as the first time left them.
pub proof fn law_update_idempotent(chapters: Seq<ChapterView>, html: Seq<char>)
    requires
        spec_updated_chapters(chapters, html).1,
    ensures
        spec_updated_chapters(spec_updated_chapters(chapters, html).0, html)
            == (spec_updated_chapters(chapters, html).0, true),
{
    let listing = spec_listing(html)->0;
    if chapters.len() > 0 {
        law_listing_idempotent(chapters, listing);
        law_listing_keeps_chapters(chapters, 0, listing);
    }
}

// ---------------------------------------------------------------------------
// What reading a chapter page keeps, what an update adds
// ---------------------------------------------------------------------------

/// The parts of a chapter are the groups of the chapter pattern's match, each
/// taken on its own: the start note is group 1, the text group 2 and the end
/// note group 3, whichever of the notes are there; there are parts exactly
/// when the text group took part.
pub proof fn law_content_parts_are_groups(groups: Seq<Option<Seq<char>>>)
    ensures
        spec_content_parts(groups) is Some <==> group_text(groups, 2) is Some,
        spec_content_parts(groups) matches Some((start_note, body, end_note)) ==> {
            &&& start_note == group_text(groups, 1)
            &&& Some(body) == group_text(groups, 2)
            &&& end_note == group_text(groups, 3)
        },
{
}

/// A chapter read from a page keeps the author's notes of the page, whether
/// or not the page hides a class: its start note is group 1 and its end note
/// group 3 of the chapter pattern's first match. When the page hides no
/// class, its text is group 2 as it stands.
pub proof fn law_chapter_keeps_notes(html: Seq<char>)
    ensures
        spec_chapter_content(html) is Some ==> first_group(CONTENT_PATTERN@, html, 2) is Some,
        spec_chapter_content(html) matches Some(c) ==> {
            &&& c.start_note == first_group(CONTENT_PATTERN@, html, 1)
            &&& c.end_note == first_group(CONTENT_PATTERN@, html, 3)
            &&& regex_captures(HIDDEN_CLASS_PATTERN@, html) is None
                ==> Some(c.chapter_content) == first_group(CONTENT_PATTERN@, html, 2)
        },
{
}

proof fn lemma_run_adds_unloaded(chapters: Seq<ChapterView>, expected: int, listing: Seq<ListingEntryView>)
    ensures
        forall|k: int| chapters.len() <= k < listing_run(chapters, expected, listing).0.len()
            ==> (#[trigger] listing_run(chapters, expected, listing).0[k]).content is None,
    decreases listing.len(),
{
    if listing.len() > 0 {
        match listing_step(chapters, expected, listing[0]) {
            Some((next, next_expected)) => {
                lemma_run_adds_unloaded(next, next_expected, listing.drop_first());
                law_listing_keeps_chapters(next, next_expected, listing.drop_first());
                let r = listing_run(next, next_expected, listing.drop_first()).0;
                assert forall|k: int| chapters.len() <= k < r.len() implies (#[trigger] r[k]).content is None by {
                    if k < next.len() {
                        assert(r.subrange(0, next.len() as int)[k] == next[k]);
                        assert(next.len() == chapters.len() + 1);
                        assert(next[k] == spec_new_chapter(listing[0])->0);
                    }
                }
            },
            None => {},
        }
    }
}

/// A chapter that bringing a story up to date adds has not been downloaded:
/// every chapter past the ones the story had has no content.
pub proof fn law_update_adds_unloaded_chapters(chapters: Seq<ChapterView>, html: Seq<char>)
    ensures
        forall|k: int| chapters.len() <= k < spec_updated_chapters(chapters, html).0.len()
            ==> (#[trigger] spec_updated_chapters(chapters, html).0[k]).content is None,
{
    match spec_listing(html) {
        Some(listing) => {
            lemma_run_adds_unloaded(chapters, 0, listing);
        },
        None => {},
    }
}

} // verus!
