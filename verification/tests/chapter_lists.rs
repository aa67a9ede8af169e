use royalroad::story::{Chapter, ChapterContent, FetchStep, ListingEntry, Story};

fn chapter(name: &str, id: u32) -> Chapter {
    Chapter::from_name_and_url(name.to_string(), format!("https://www.royalroad.com/c/{id}"), id)
}

fn story(names: &[&str]) -> Story {
    Story {
        title: "T".to_string(),
        id: 1,
        page_url: "https://www.royalroad.com/fiction/1/t".to_string(),
        description: "D".to_string(),
        chapters: names.iter().enumerate().map(|(i, n)| chapter(n, i as u32 + 1)).collect(),
        author: "A".to_string(),
        progress: 0,
    }
}

fn entry(name: &str, id: Option<u32>) -> ListingEntry {
    ListingEntry {
        name: name.to_string(),
        path: id.map(|i| format!("/fiction/1/t/chapter/{i}/slug")),
    }
}

fn names(s: &Story) -> Vec<String> {
    s.chapters.iter().map(|c| c.name.clone()).collect()
}

#[test]
fn from_name_and_url_has_no_content() {
    let c = Chapter::from_name_and_url("One".to_string(), "u".to_string(), 7);
    assert_eq!(c.name, "One");
    assert_eq!(c.url, "u");
    assert_eq!(c.id, 7);
    assert!(c.content.is_none());
}

#[test]
fn new_chapters_are_appended() {
    let mut s = story(&["A", "B"]);
    let listing = vec![entry("A", Some(1)), entry("B", Some(2)), entry("C", Some(30))];
    assert!(s.apply_chapter_listing(&listing));
    assert_eq!(names(&s), vec!["A", "B", "C"]);
    assert_eq!(s.chapters[2].id, 30);
    assert_eq!(s.chapters[2].url, "https://www.royalroad.com/fiction/1/t/chapter/30/slug");
}

#[test]
fn listing_applied_twice_changes_nothing_more() {
    let mut s = story(&["A", "B"]);
    let listing = vec![entry("X", Some(9)), entry("A", Some(1)), entry("Y", Some(10)), entry("B", Some(2))];
    assert!(s.apply_chapter_listing(&listing));
    let once = names(&s);
    assert_eq!(once, vec!["A", "B", "X", "Y"]);
    assert!(s.apply_chapter_listing(&listing));
    assert_eq!(names(&s), once);
}

#[test]
fn existing_chapters_are_kept() {
    let mut s = story(&["A", "B"]);
    s.chapters[0].content = Some(ChapterContent {
        start_note: None,
        chapter_content: "text".to_string(),
        end_note: None,
    });
    assert!(s.apply_chapter_listing(&vec![entry("B", Some(2)), entry("Z", Some(5))]));
    assert_eq!(names(&s), vec!["A", "B", "Z"]);
    assert_eq!(s.chapters[0].content.as_ref().unwrap().chapter_content, "text");
}

#[test]
fn entry_without_id_stops_the_listing() {
    let mut s = story(&["A"]);
    let listing = vec![entry("B", Some(2)), entry("C", None), entry("D", Some(4))];
    assert!(!s.apply_chapter_listing(&listing));
    assert_eq!(names(&s), vec!["A", "B"]);
}

#[test]
fn known_entry_without_id_is_fine() {
    let mut s = story(&["A", "B"]);
    assert!(s.apply_chapter_listing(&vec![entry("B", None), entry("A", None)]));
    assert_eq!(names(&s), vec!["A", "B"]);
}

#[test]
fn duplicate_names_in_the_listing_are_added_once() {
    let mut s = story(&["A"]);
    assert!(s.apply_chapter_listing(&vec![entry("N", Some(2)), entry("N", Some(3))]));
    assert_eq!(names(&s), vec!["A", "N"]);
    assert_eq!(s.chapters[1].id, 2);
}

#[test]
fn empty_listing_on_empty_story() {
    let mut s = story(&[]);
    assert!(s.apply_chapter_listing(&vec![]));
    assert!(s.chapters.is_empty());
}

#[test]
fn update_from_unreadable_page_fails() {
    let mut s = story(&["A"]);
    // A page with no chapter table has an empty listing: nothing changes.
    assert!(s.update("<html></html>"));
    assert_eq!(names(&s), vec!["A"]);
}

#[test]
fn update_details_needs_title_and_description() {
    let mut s = story(&["A"]);
    assert!(!s.update_details("<meta name=\"twitter:title\" content=\"New\">"));
    assert_eq!(s.title, "T");
    let page = "<meta name=\"twitter:title\" content=\"New\">\
                <div class=\"description\"><div class=\"hidden-content\">Fresh</div></div>";
    assert!(s.update_details(page));
    assert_eq!(s.title, "New");
    assert_eq!(s.description, "Fresh");
}

#[test]
fn load_content_keeps_loaded_content() {
    let mut c = chapter("A", 1);
    c.content = Some(ChapterContent { start_note: None, chapter_content: "kept".to_string(), end_note: None });
    assert!(c.load_content("<html>anything</html>"));
    assert_eq!(c.content.as_ref().unwrap().chapter_content, "kept");
}

#[test]
fn load_content_fails_on_a_page_that_is_no_chapter() {
    let mut c = chapter("A", 1);
    assert!(!c.load_content("<html>nothing</html>"));
    assert!(c.content.is_none());
}

#[test]
fn download_all_asks_for_missing_chapters_in_order() {
    let mut s = story(&["A", "B", "C"]);
    s.chapters[1].content = Some(ChapterContent { start_note: None, chapter_content: "b".to_string(), end_note: None });
    match s.download_all(None) {
        FetchStep::Fetch { cursor, url } => {
            assert_eq!(cursor, 0);
            assert_eq!(url, "https://www.royalroad.com/c/1");
        }
        _ => panic!("expected a fetch"),
    }
    // A page that cannot be read is reported.
    match s.download_all(Some((0, "no chapter"))) {
        FetchStep::Failed { cursor } => assert_eq!(cursor, 0),
        _ => panic!("expected a failure"),
    }
}

#[test]
fn download_all_with_everything_loaded_is_done() {
    let mut s = story(&["A"]);
    s.chapters[0].content = Some(ChapterContent { start_note: None, chapter_content: "a".to_string(), end_note: None });
    assert!(matches!(s.download_all(None), FetchStep::Done));
    // A page handed back for a loaded chapter changes nothing and the run ends.
    assert!(matches!(s.download_all(Some((0, "ignored"))), FetchStep::Done));
    assert_eq!(s.chapters[0].content.as_ref().unwrap().chapter_content, "a");
}
