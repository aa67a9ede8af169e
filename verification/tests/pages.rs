use royalroad::story::{listing_from_html, ChapterContent, FetchStep, Story};

fn row(path: &str, name: &str) -> String {
    format!(
        "<tr style=\"cursor: pointer\" data-url=\"{path}\" data-volume-id=\"null\" class=\"chapter-row\">\n\
         <td>\n<a href=\"{path}\">\n{name}\n</a>\n</td>\n\
         <td data-content=\"0\" class=\"text-right\">\n<a href=\"{path}\" data-content=\"0\">\n\
         <time unixtime=\"1600000000\" title=\"Sunday\" datetime=\"2020-09-13T12:26:40Z\" format=\"agoshort\">3 years</time> ago\n\
         </a>\n</td>\n</tr>\n"
    )
}

fn story_page(rows: &[(&str, &str)]) -> String {
    let mut page = String::new();
    page.push_str("<html><head><meta name=\"twitter:title\" content=\"There is no Epic Loot here, Only Puns\">\n");
    page.push_str("<meta property=\"books:author\" content=\"stewart92\"/>\n</head><body>\n");
    page.push_str("<div class=\"description\">\n<div class=\"hidden-content\">\n<p>A dungeon core story.</p>\n</div>\n</div>\n");
    page.push_str("<table>\n");
    for (path, name) in rows {
        page.push_str(&row(path, name));
    }
    page.push_str("</table></body></html>");
    page
}

const STORY_URL: &str = "https://www.royalroad.com/fiction/15935/there-is-no-epic-loot-here-only-puns";

fn path(n: u32, slug: &str) -> String {
    format!("/fiction/15935/there-is-no-epic-loot-here-only-puns/chapter/{n}/{slug}")
}

fn chapter_page(start_note: Option<&str>, body: &str, end_note: Option<&str>, hidden: Option<&str>) -> String {
    let note = |text: &str| {
        format!(
            "<div class=\"portlet solid author-note-portlet\">\n<div class=\"portlet-title\">\n<div class=\"caption\">\n\
             <i class=\"fa fa-sticky-note\"></i>\n<span class=\"caption-subject bold uppercase\">A note from the author</span>\n\
             </div>\n</div>\n<div class=\"portlet-body author-note\">{text}</div>\n</div>\n"
        )
    };
    let mut page = String::from("<html><head>");
    if let Some(class) = hidden {
        page.push_str(&format!("<style>\n.{class}{{\n display: none;\n speak: never;\n}}\n</style>"));
    }
    page.push_str("</head><body>\n");
    if let Some(n) = start_note {
        page.push_str(&note(n));
    }
    page.push_str(&format!("<div class=\"chapter-inner chapter-content\">{body}</div>\n"));
    page.push_str("<div class=\"portlet light t-center-3\" style=\"padding-top: 5px !important;position: relative\">advert</div>\n");
    if let Some(n) = end_note {
        page.push_str(&note(n));
    }
    page.push_str("\n<hr />\n</body></html>");
    page
}

#[test]
fn story_page_is_read() {
    let page = story_page(&[(&path(1, "one"), "Chapter One"), (&path(2, "two"), "Chapter Two")]);
    let story = Story::from_page_url(STORY_URL.to_string(), &page).unwrap();
    assert_eq!(story.title, "There is no Epic Loot here, Only Puns");
    assert_eq!(story.id, 15935);
    assert_eq!(story.page_url, STORY_URL);
    assert_eq!(story.description, "<p>A dungeon core story.</p>");
    assert_eq!(story.author, "stewart92");
    assert_eq!(story.progress, 0);
    assert_eq!(story.chapters.len(), 2);
    assert_eq!(story.chapters[0].name, "Chapter One");
    assert_eq!(story.chapters[0].url, format!("https://www.royalroad.com{}", path(1, "one")));
    assert_eq!(story.chapters[0].id, 1);
    assert_eq!(story.chapters[1].name, "Chapter Two");
    assert_eq!(story.chapters[1].id, 2);
    assert!(story.chapters.iter().all(|c| c.content.is_none()));
}

#[test]
fn story_page_without_title_is_refused() {
    let page = story_page(&[]).replace("twitter:title", "twitter:site");
    assert!(Story::from_page_url(STORY_URL.to_string(), &page).is_none());
}

#[test]
fn story_address_without_id_is_refused() {
    let page = story_page(&[]);
    assert!(Story::from_page_url("https://www.royalroad.com/fiction/abc/x".to_string(), &page).is_none());
}

#[test]
fn story_with_a_chapter_without_id_is_refused() {
    let page = story_page(&[("/fiction/15935/x/chapter/nope/one", "Chapter One")]);
    assert!(Story::from_page_url(STORY_URL.to_string(), &page).is_none());
}

#[test]
fn story_page_without_chapters_has_none() {
    let story = Story::from_page_url(STORY_URL.to_string(), &story_page(&[])).unwrap();
    assert!(story.chapters.is_empty());
}

#[test]
fn chapter_listing_is_read() {
    let page = story_page(&[(&path(1, "one"), "Chapter One"), (&path(2, "two"), "Chapter Two")]);
    let listing = listing_from_html(&page).unwrap();
    assert_eq!(listing.len(), 2);
    assert_eq!(listing[1].name, "Chapter Two");
    assert_eq!(listing[1].path, Some(path(2, "two")));
}

#[test]
fn chapter_page_is_read() {
    let page = chapter_page(Some("Thanks!"), "<p>It was dark.</p>", Some("See you"), None);
    let c = ChapterContent::from_html(&page).unwrap();
    assert_eq!(c.start_note, Some("Thanks!".to_string()));
    assert_eq!(c.chapter_content, "<p>It was dark.</p>");
    assert_eq!(c.end_note, Some("See you".to_string()));
}

#[test]
fn chapter_page_without_notes() {
    let page = chapter_page(None, "<p>Plain.</p>", None, None);
    let c = ChapterContent::from_html(&page).unwrap();
    assert_eq!(c.start_note, None);
    assert_eq!(c.chapter_content, "<p>Plain.</p>");
    assert_eq!(c.end_note, None);
}

#[test]
fn chapter_page_hidden_paragraphs_are_removed() {
    let body = "<p>One.</p><p class=\"cmZhY\">Stolen from Royal Road.</p><p>Two.</p>";
    let page = chapter_page(None, body, None, Some("cmZhY"));
    let c = ChapterContent::from_html(&page).unwrap();
    assert_eq!(c.chapter_content, "<p>One.</p><p>Two.</p>");
}

#[test]
fn page_that_is_no_chapter_is_refused() {
    assert!(ChapterContent::from_html("<html><body>Not found</body></html>").is_none());
}

#[test]
fn download_all_loads_each_missing_chapter() {
    let page = story_page(&[(&path(1, "one"), "Chapter One"), (&path(2, "two"), "Chapter Two")]);
    let mut story = Story::from_page_url(STORY_URL.to_string(), &page).unwrap();
    let mut asked = vec![];
    let mut step = story.download_all(None);
    loop {
        match step {
            FetchStep::Fetch { cursor, url } => {
                asked.push((cursor, url));
                let body = format!("<p>Body {cursor}</p>");
                step = story.download_all(Some((cursor, &chapter_page(None, &body, None, None))));
            }
            FetchStep::Done => break,
            FetchStep::Failed { .. } => panic!("unexpected failure"),
        }
    }
    assert_eq!(asked.len(), 2);
    assert_eq!(asked[1], (1, format!("https://www.royalroad.com{}", path(2, "two"))));
    assert_eq!(story.chapters[1].content.as_ref().unwrap().chapter_content, "<p>Body 1</p>");
}

#[test]
fn update_adds_new_chapters_from_the_story_page() {
    let first = story_page(&[(&path(1, "one"), "Chapter One")]);
    let mut story = Story::from_page_url(STORY_URL.to_string(), &first).unwrap();
    let later = story_page(&[(&path(1, "one"), "Chapter One"), (&path(2, "two"), "Chapter Two")]);
    assert!(story.update(&later));
    assert_eq!(story.chapters.len(), 2);
    assert_eq!(story.chapters[1].name, "Chapter Two");
    assert_eq!(story.chapters[1].id, 2);
    assert!(story.update(&later));
    assert_eq!(story.chapters.len(), 2);
}

#[test]
fn update_of_a_story_without_chapters_fails() {
    let mut story = Story::from_page_url(STORY_URL.to_string(), &story_page(&[])).unwrap();
    let later = story_page(&[(&path(1, "one"), "Chapter One")]);
    assert!(!story.update(&later));
    assert!(story.chapters.is_empty());
}
