use crate::number::{parse_u32, spec_parse_u32};
use crate::pattern::{regex_captures, regex_compiles, Pattern};
use vstd::prelude::*;
use vstd::string::StringExecFns;

verus! {

/// The address that chapter paths found on a story page are relative to.
pub const SITE_ROOT: &'static str = "https://www.royalroad.com";

/// The title of a story, in its page's metadata.
pub const TITLE_PATTERN: &'static str = r#"<meta name="twitter:title" content="(.*?)">"#;

/// The numeric id of a story, in its page's address.
pub const STORY_ID_PATTERN: &'static str = r#"https://www\.royalroad\.com/fiction/([0-9]*?)/.*?"#;

/// The description of a story, on its page.
pub const DESCRIPTION_PATTERN: &'static str = r#"<div class="description">[\s\S]*?<div class="hidden-content">[\t\n ]*([\s\S]*?)[\t\n ]*<\/div>[\s\S]*?<\/div>"#;

/// The author of a story, in its page's metadata.
pub const AUTHOR_PATTERN: &'static str = r#"<meta property="books:author" content="(.*?)"\/>"#;

/// One row of the chapter table of a story page: group 1 is the chapter's
/// path, group 2 its name.
pub const CHAPTER_ROW_PATTERN: &'static str = r#"<tr style="cursor: pointer" data-url="(.*?)" data-volume-id=".*?" class="chapter-row">[\t\n ]*<td>[\t\n ]*<a href=".*?">[\t\n ]*(.*?)[\t\n ]*<\/a>[\t\n ]*<\/td>[\t\n ]*<td data-content="[0-9]*?" class="text-right">[\t\n ]*<a href=".*?" data-content=".*?">[\t\n ]*<time unixtime="[0-9]*" title=".*?" datetime=".*?" format="agoshort">.*?<\/time> ago[\t\n ]*<\/a>[\t\n ]*<\/td>[\t\n ]*<\/tr>"#;

/// One row of the chapter table, as read when a story is brought up to date:
/// group 1 is the chapter's path, group 2 its name, group 3 its position.
pub const CHAPTER_UPDATE_ROW_PATTERN: &'static str = r#"<tr style="cursor: pointer" data-url="(.*?)" data-volume-id=".*?" class="chapter-row">[\t\n ]*<td>[\t\n ]*<a href=".*?">[\t\n ]*(.*?)[\t\n ]*<\/a>[\t\n ]*<\/td>[\t\n ]*<td data-content="([0-9]*?)" class="text-right">[\t\n ]*<a href=".*?" data-content=".*?">[\t\n ]*<time unixtime="[0-9]*" title=".*?" datetime=".*?" format="agoshort">.*?<\/time> ago[\t\n ]*<\/a>[\t\n ]*<\/td>[\t\n ]*<\/tr>"#;

/// The numeric id of a chapter, in its path.
pub const CHAPTER_ID_PATTERN: &'static str = r#"fiction/[0-9]*/[^/]*/chapter/([0-9]*)/[^/]*"#;

/// The body of a chapter page: group 1 is the author's note before the
/// chapter, group 2 the chapter's text, group 3 the author's note after it.
pub const CONTENT_PATTERN: &'static str = r#"(?:<div class="portlet solid author-note-portlet">[\t\n ]*<div class="portlet-title">[\t\n ]*<div class="caption">[\t\n ]*<i class="fa fa-sticky-note"><\/i>[\t\n ]*<span class="caption-subject bold uppercase">.*?<\/span>[\t\n ]*<\/div>[\t\n ]*<\/div>[\t\n ]*<div class="portlet-body author-note">([\w\W]*?)<\/div>[\t\n ]*<\/div>[\t\n ]*)?(?:<div class="margin-bottom-20 portlet light t-center-3" style="padding-top: 5px !important;position: relative"><div class="bold uppercase">Advertisement<\/div>[\w\W]*?)?<div class="chapter-inner chapter-content">([\s\S]*?)<\/div>[\t\n ]*<div class="portlet light t-center-3" style="padding-top: 5px !important;position: relative">[\s\S]*?(?:<div class="portlet solid author-note-portlet">[\t\n ]*<div class="portlet-title">[\t\n ]*<div class="caption">[\t\n ]*<i class="fa fa-sticky-note"><\/i>[\t\n ]*<span class="caption-subject bold uppercase">.*?<\/span>[\t\n ]*<\/div>[\t\n ]*<\/div>[\t\n ]*<div class="portlet-body author-note">([\w\W]*?)<\/div>[\t\n ]*<\/div>)?[\t\n ]*<hr \/>"#;

/// The style rule that hides the paragraphs of one class on a chapter page:
/// group 1 is the class.
pub const HIDDEN_CLASS_PATTERN: &'static str = r#"<style>[\t\n ]*\.(.*?)\{[\t\n ]*display: none;[\t\n ]*speak: never;[\t\n ]*\}[\t\n ]*<\/style>"#;

/// What comes before the class in the pattern of a hidden paragraph.
pub const HIDDEN_PARAGRAPH_OPEN: &'static str = r#"<p class=""#;

/// What comes after the class in the pattern of a hidden paragraph.
pub const HIDDEN_PARAGRAPH_CLOSE: &'static str = r#""[\w\W]*?<\/p>"#;

/// Group `i` of `groups`, when there is such a group and it took part in the match.
pub open spec fn group_text(groups: Seq<Option<Seq<char>>>, i: int) -> Option<Seq<char>> {
    if 0 <= i < groups.len() {
        groups[i]
    } else {
        None
    }
}

/// The groups of the first match of `pattern` in `text`; `None` when the
/// pattern does not compile or does not match.
pub open spec fn first_match(pattern: Seq<char>, text: Seq<char>) -> Option<Seq<Option<Seq<char>>>> {
    if regex_compiles(pattern) {
        regex_captures(pattern, text)
    } else {
        None
    }
}

/// Group `i` of the first match of `pattern` in `text`.
pub open spec fn first_group(pattern: Seq<char>, text: Seq<char>, i: int) -> Option<Seq<char>> {
    match first_match(pattern, text) {
        Some(groups) => group_text(groups, i),
        None => None,
    }
}

/// The pattern of the paragraphs of class `class`.
pub open spec fn hidden_paragraph_pattern(class: Seq<char>) -> Seq<char> {
    HIDDEN_PARAGRAPH_OPEN@ + class + HIDDEN_PARAGRAPH_CLOSE@
}

/// The id of the chapter at `path`.
pub open spec fn spec_chapter_id(path: Seq<char>) -> Option<u32> {
    match first_group(CHAPTER_ID_PATTERN@, path, 1) {
        Some(digits) => spec_parse_u32(digits),
        None => None,
    }
}

/// Group `i` of `groups`, copied.
pub fn group_of(groups: &Vec<Option<String>>, i: usize) -> (r: Option<String>)
    ensures
        r.deep_view() == group_text(groups.deep_view(), i as int),
{
    if i < groups.len() {
        match &groups[i] {
            Some(s) => Some(s.clone()),
            None => None,
        }
    } else {
        None
    }
}

/// The groups of the first match of `pattern` in `text`.
pub fn find_first(pattern: &str, text: &str) -> (r: Option<Vec<Option<String>>>)
    ensures
        r.deep_view() == first_match(pattern@, text@),
{
    match Pattern::new(pattern) {
        Some(p) => p.captures(text),
        None => None,
    }
}

/// Group `i` of the first match of `pattern` in `text`.
pub fn find_group(pattern: &str, text: &str, i: usize) -> (r: Option<String>)
    ensures
        r.deep_view() == first_group(pattern@, text@, i as int),
{
    match find_first(pattern, text) {
        Some(groups) => group_of(&groups, i),
        None => None,
    }
}

/// The pattern that matches a paragraph of class `class`, from its opening
/// tag to the first closing tag after it.
pub fn hidden_paragraph_pattern_for(class: &str) -> (r: String)
    ensures
        r@ == hidden_paragraph_pattern(class@),
{
    String::from_str(HIDDEN_PARAGRAPH_OPEN).concat(class).concat(HIDDEN_PARAGRAPH_CLOSE)
}

/// The id of the chapter at `path`: the digits after `chapter/`, read as a `u32`.
pub fn chapter_id(path: &str) -> (r: Option<u32>)
    ensures
        r == spec_chapter_id(path@),
{
    match find_group(CHAPTER_ID_PATTERN, path, 1) {
        Some(digits) => parse_u32(digits.as_str()),
        None => None,
    }
}

} // verus!
