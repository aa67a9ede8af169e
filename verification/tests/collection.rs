use royalroad::manager::StoryManager;
use royalroad::reader::AppState;
use royalroad::story::{Chapter, ChapterContent, FetchStep, Story};

fn story(url: &str, names: &[&str], progress: usize) -> Story {
    Story {
        title: format!("title of {url}"),
        id: 1,
        page_url: url.to_string(),
        description: "D".to_string(),
        chapters: names
            .iter()
            .enumerate()
            .map(|(i, n)| Chapter::from_name_and_url(n.to_string(), format!("{url}/c{i}"), i as u32))
            .collect(),
        author: "A".to_string(),
        progress,
    }
}

fn state(stories: Vec<Story>) -> AppState {
    let mut m = StoryManager::new();
    m.stories = stories;
    AppState::new(m)
}

const PAGE: &str = "<meta name=\"twitter:title\" content=\"T\">\
    <meta property=\"books:author\" content=\"A\"/>\
    <div class=\"description\"><div class=\"hidden-content\">D</div></div>";
const URL: &str = "https://www.royalroad.com/fiction/77/seventy-seven";

#[test]
fn new_manager_is_empty() {
    let m = StoryManager::new();
    assert!(m.stories.is_empty() && m.follows.is_empty() && m.finished.is_empty() && m.read_later.is_empty());
}

#[test]
fn add_story_then_refuse_the_same_address() {
    let mut m = StoryManager::new();
    assert_eq!(m.add_story_from_url(URL.to_string(), PAGE), Ok(0));
    assert_eq!(m.stories[0].id, 77);
    assert_eq!(m.add_story_from_url(URL.to_string(), PAGE), Err("Already loaded"));
    assert_eq!(m.stories.len(), 1);
    assert_eq!(m.find_story(&URL.to_string()), Some(0));
}

#[test]
fn add_story_with_unreadable_page_is_refused() {
    let mut m = StoryManager::new();
    assert_eq!(m.add_story_from_url(URL.to_string(), "<html></html>"), Err("Could not read story page"));
    assert!(m.stories.is_empty());
}

#[test]
fn app_add_story_shows_it() {
    let mut s = state(vec![story("u0", &["a"], 0)]);
    assert!(s.add_story(URL, PAGE));
    assert_eq!(s.story_page.story_index, 1);
    assert!(!s.add_story(URL, PAGE));
    assert_eq!(s.manager.stories.len(), 2);
}

#[test]
fn update_all_visits_every_story() {
    let mut m = StoryManager::new();
    m.stories = vec![story("u0", &["a"], 0), story("u1", &["b"], 0)];
    match m.update_all(None) {
        FetchStep::Fetch { cursor, url } => {
            assert_eq!(cursor, 0);
            assert_eq!(url, "u0");
        }
        _ => panic!("expected a fetch"),
    }
    match m.update_all(Some((0, "<html></html>"))) {
        FetchStep::Fetch { cursor, url } => {
            assert_eq!(cursor, 1);
            assert_eq!(url, "u1");
        }
        _ => panic!("expected a fetch"),
    }
    assert!(matches!(m.update_all(Some((1, "<html></html>"))), FetchStep::Done));
    assert!(matches!(StoryManager::new().update_all(None), FetchStep::Done));
}

#[test]
fn toggles_flip_membership() {
    let mut s = state(vec![story("u0", &["a"], 0)]);
    s.change_followed(3);
    assert_eq!(s.manager.follows, vec![3]);
    s.change_followed(5);
    s.change_followed(3);
    assert_eq!(s.manager.follows, vec![5]);
    s.change_read_later(1);
    s.change_read_later(1);
    assert!(s.manager.read_later.is_empty());
    s.change_finished(0);
    assert_eq!(s.manager.finished, vec![0]);
}

#[test]
fn remove_story_leaves_other_indices_alone() {
    let mut s = state(vec![story("u0", &["a"], 0), story("u1", &["b"], 0), story("u2", &["c"], 0)]);
    s.manager.follows = vec![2, 1, 1];
    s.manager.read_later = vec![0];
    s.manager.finished = vec![1];
    s.remove_story(1);
    assert_eq!(s.manager.stories.len(), 2);
    assert_eq!(s.manager.stories[1].page_url, "u2");
    assert_eq!(s.manager.follows, vec![2, 1]);
    assert_eq!(s.manager.read_later, vec![0]);
    assert!(s.manager.finished.is_empty());
}

#[test]
fn follows_list_unread_first() {
    let mut s = state(vec![
        story("u0", &["a", "b"], 1),
        story("u1", &["a", "b"], 0),
        story("u2", &["a"], 0),
        story("u3", &["a", "b", "c"], 1),
    ]);
    s.manager.follows = vec![0, 1, 2, 3];
    let all: Vec<usize> = s.get_follows().iter().map(|r| r.index).collect();
    assert_eq!(all, vec![1, 3, 0, 2]);
    let unread: Vec<usize> = s.get_unread_follows().iter().map(|r| r.index).collect();
    assert_eq!(unread, vec![1, 3]);
    let first = &s.get_follows()[0];
    assert_eq!(first.title, "title of u1");
    assert_eq!(first.last_read, "a");
}

#[test]
fn lists_follow_their_order() {
    let mut s = state(vec![story("u0", &["a"], 0), story("u1", &["x", "y"], 1)]);
    s.manager.read_later = vec![1, 0];
    s.manager.finished = vec![1];
    let later: Vec<(usize, String)> = s.get_read_later().into_iter().map(|r| (r.index, r.last_read)).collect();
    assert_eq!(later, vec![(1, "y".to_string()), (0, "a".to_string())]);
    assert_eq!(s.get_finished().len(), 1);
    let all: Vec<usize> = s.get_stories().iter().map(|r| r.index).collect();
    assert_eq!(all, vec![0, 1]);
}

#[test]
fn continue_reading_moves_to_the_next_chapter_until_the_last() {
    let mut s = state(vec![story("u0", &["a", "b"], 0)]);
    s.set_read_page_continue(0);
    assert_eq!(s.manager.stories[0].progress, 1);
    assert_eq!((s.read_page.story_index, s.read_page.chapter_index), (0, 1));
    s.set_read_page_continue(0);
    assert_eq!(s.manager.stories[0].progress, 1);
    assert_eq!(s.read_page.chapter_index, 1);
}

#[test]
fn story_info_reports_the_lists() {
    let mut s = state(vec![story("u0", &["a"], 0), story("u1", &["a"], 0)]);
    s.manager.follows = vec![1];
    s.manager.finished = vec![0, 1];
    s.set_story_page(1);
    let info = s.get_story_info();
    assert_eq!(info.index, 1);
    assert_eq!(info.title, "title of u1");
    assert!(info.followed && info.finished && !info.read_later);
}

#[test]
fn progress_and_table_of_contents() {
    let mut s = state(vec![story("u0", &["a", "b", "c"], 0)]);
    s.set_story_progress(0, 2);
    assert_eq!(s.get_story_progress(0), 2);
    let last = s.get_last_read_chapter(0);
    assert_eq!((last.title.as_str(), last.index), ("c", 2));
    let toc: Vec<(String, usize)> = s.get_chapters(0).into_iter().map(|c| (c.title, c.index)).collect();
    assert_eq!(toc, vec![("a".to_string(), 0), ("b".to_string(), 1), ("c".to_string(), 2)]);
    s.set_read_page(0, 1);
    assert_eq!((s.read_page.story_index, s.read_page.chapter_index), (0, 1));
}

#[test]
fn chapter_is_shown_once_loaded() {
    let mut s = state(vec![story("u0", &["a", "b"], 0)]);
    assert!(s.get_chapter(0, 0).is_none());
    s.manager.stories[0].chapters[1].content = Some(ChapterContent {
        start_note: Some("hi".to_string()),
        chapter_content: "text".to_string(),
        end_note: None,
    });
    let c = s.get_chapter(0, 1).unwrap();
    assert_eq!(c.content, "text");
    assert_eq!(c.start_note, "hi");
    assert_eq!(c.end_note, "");
    assert_eq!(c.title, "b");
    assert_eq!(c.author, "A");
    assert!(c.before_exists && !c.after_exists);
    s.delete_start_note(0, 1);
    assert_eq!(s.get_chapter(0, 1).unwrap().start_note, "");
    s.manager.stories[0].chapters[1].content.as_mut().unwrap().end_note = Some("bye".to_string());
    s.delete_end_note(0, 1);
    assert!(s.manager.stories[0].chapters[1].content.as_ref().unwrap().end_note.is_none());
}

#[test]
fn update_follows_visits_followed_stories() {
    let mut s = state(vec![story("u0", &["a"], 0), story("u1", &["b"], 0)]);
    s.manager.follows = vec![1, 7];
    match s.update_follows(None) {
        FetchStep::Fetch { cursor, url } => {
            assert_eq!(cursor, 0);
            assert_eq!(url, "u1");
        }
        _ => panic!("expected a fetch"),
    }
    assert!(matches!(s.update_follows(Some((0, "<html></html>"))), FetchStep::Failed { cursor: 1 }));
}

#[test]
fn update_story_details_reports_the_new_details() {
    let mut s = state(vec![story("u0", &["a"], 0)]);
    let r = s.update_story_details(0, PAGE).unwrap();
    assert_eq!((r.title.as_str(), r.description.as_str()), ("T", "D"));
    assert_eq!(s.manager.stories[0].title, "T");
    assert!(s.update_story_details(0, "<html></html>").is_none());
}
