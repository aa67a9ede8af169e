use royalroad::number::parse_u32;
use royalroad::pattern::Pattern;
use royalroad::site::{chapter_id, find_group, hidden_paragraph_pattern_for, STORY_ID_PATTERN};

#[test]
fn parse_u32_reads_plain_digits() {
    assert_eq!(parse_u32("123"), Some(123));
    assert_eq!(parse_u32("0"), Some(0));
    assert_eq!(parse_u32("007"), Some(7));
}

#[test]
fn parse_u32_accepts_a_leading_plus() {
    assert_eq!(parse_u32("+42"), Some(42));
    assert_eq!(parse_u32("+"), None);
}

#[test]
fn parse_u32_refuses_what_from_str_refuses() {
    assert_eq!(parse_u32(""), None);
    assert_eq!(parse_u32("-1"), None);
    assert_eq!(parse_u32("12a"), None);
    assert_eq!(parse_u32(" 12"), None);
    assert_eq!(parse_u32("++1"), None);
}

#[test]
fn parse_u32_bounds() {
    assert_eq!(parse_u32("4294967295"), Some(u32::MAX));
    assert_eq!(parse_u32("4294967296"), None);
    assert_eq!(parse_u32("99999999999999999999"), None);
}

#[test]
fn parse_u32_agrees_with_from_str() {
    for s in ["1", "+1", "", "-0", "00000000004294967295", "4294967295", "42949672950", "1_0", "٣"] {
        assert_eq!(parse_u32(s), s.parse::<u32>().ok(), "on {:?}", s);
    }
}

#[test]
fn pattern_refuses_invalid_source() {
    assert!(Pattern::new("foo(bar").is_none());
    assert!(Pattern::new("foo(bar)").is_some());
}

#[test]
fn pattern_captures_groups() {
    let p = Pattern::new(r"(\d+)-(x)?(\w+)").unwrap();
    let groups = p.captures("id: 12-abc").unwrap();
    assert_eq!(
        groups,
        vec![Some("12-abc".to_string()), Some("12".to_string()), None, Some("abc".to_string())]
    );
    assert_eq!(p.captures("nothing here"), None);
}

#[test]
fn pattern_captures_every_match() {
    let p = Pattern::new(r"<(\w)>").unwrap();
    let all = p.captures_all("<a> and <b>, <c>");
    assert_eq!(all.len(), 3);
    assert_eq!(all[1], vec![Some("<b>".to_string()), Some("b".to_string())]);
    assert!(p.captures_all("none").is_empty());
}

#[test]
fn pattern_replaces_every_match() {
    let p = Pattern::new(r"<p class=x>.*?</p>").unwrap();
    assert_eq!(p.replace_all("a<p class=x>1</p>b<p class=x>2</p>c", ""), "abc");
    assert_eq!(p.replace_all("unchanged", "-"), "unchanged");
}

#[test]
fn hidden_paragraph_pattern_matches_the_class() {
    let source = hidden_paragraph_pattern_for("cjQwM");
    assert_eq!(source, r#"<p class="cjQwM"[\w\W]*?<\/p>"#);
    let p = Pattern::new(&source).unwrap();
    assert_eq!(
        p.replace_all(r#"<p>keep</p><p class="cjQwM" style="x">drop</p><p>also</p>"#, ""),
        "<p>keep</p><p>also</p>"
    );
}

#[test]
fn story_id_is_read_from_the_address() {
    assert_eq!(
        find_group(STORY_ID_PATTERN, "https://www.royalroad.com/fiction/15935/there-is-no-epic-loot-here-only-puns", 1),
        Some("15935".to_string())
    );
    assert_eq!(find_group(STORY_ID_PATTERN, "https://example.com/fiction/1/x", 1), None);
}

#[test]
fn chapter_id_is_read_from_the_path() {
    assert_eq!(chapter_id("/fiction/15935/story-name/chapter/123456/first-chapter"), Some(123456));
    assert_eq!(chapter_id("/fiction/15935/story-name/chapter//first-chapter"), None);
    assert_eq!(chapter_id("/somewhere/else"), None);
}
