use stellux::repositories::search::SearchRepository;

#[test]
fn fuzzy_pattern_escapes_like_wildcards() {
    assert_eq!(
        SearchRepository::fuzzy_pattern(r"100%_done\ok"),
        r"%100\%\_done\\ok%"
    );
}

#[test]
fn generate_excerpt_handles_chinese_content() {
    let content = "前言内容。这里介绍 Rust 异步运行时和 MCP 工具上传文件的实现细节。结尾内容。";
    let excerpt = SearchRepository::generate_excerpt(content, "上传文件", 20)
        .expect("excerpt should be generated");

    assert!(excerpt.contains("上传文件"));
}

#[test]
fn generate_excerpt_does_not_panic_when_chinese_content_is_truncated() {
    let content = "这是一个没有命中词的中文段落，用来验证按照字符截断不会在 UTF-8 边界上崩溃。";
    let excerpt = SearchRepository::generate_excerpt(content, "不存在", 7)
        .expect("excerpt should be generated");

    assert!(excerpt.chars().count() <= 10);
}

#[test]
fn escape_like_leaves_plain_text() {
    assert_eq!(SearchRepository::escape_like("plain text"), "plain text");
    assert_eq!(SearchRepository::escape_like("a_b%c\\"), "a\\_b\\%c\\\\");
}

#[test]
fn strip_html_tags_collapses_white_space() {
    assert_eq!(SearchRepository::strip_html_tags("<p>Hello <b>world</b></p>\n\n<i>again</i>"), "Hello world again");
    assert_eq!(SearchRepository::strip_html_tags("   "), "");
}

#[test]
fn empty_content_has_no_excerpt() {
    assert_eq!(SearchRepository::generate_excerpt("", "x", 10), None);
    assert_eq!(SearchRepository::checked_excerpt("", "x", 10), Some(None));
}

#[test]
fn excerpt_of_short_text_is_whole_text() {
    assert_eq!(SearchRepository::generate_excerpt("<p>short</p>", "none", 200), Some("short".to_string()));
}

#[test]
fn search_plan_trims_and_pages() {
    assert!(SearchRepository::search_plan("   ", 1, 10, true).is_none());
    let p = SearchRepository::search_plan("  rust_1 ", 3, 10, false).unwrap();
    assert_eq!(p.keyword, "rust_1");
    assert_eq!(p.pattern, "%rust\\_1%");
    assert_eq!(p.limit, 10);
    assert_eq!(p.offset, 20);
    assert!(!p.published_only);
}

#[test]
fn blank_keyword_finds_nothing_on_any_page() {
    assert!(SearchRepository::search_plan("", i64::MAX, i64::MAX, true).is_none());
    assert!(SearchRepository::search_plan(" \t\n", i64::MIN, 50, false).is_none());
    assert!(SearchRepository::search_plan("  ", 0, -3, true).is_none());
}

#[test]
fn stripped_html_is_stable_and_single_spaced() {
    let html = "<p>Hello   <b>world</b></p>\n<div> again </div>";
    let once = SearchRepository::strip_html_tags(html);
    assert_eq!(once, "Hello world again");
    assert_eq!(SearchRepository::strip_html_tags(&once), once);
    assert!(!once.contains('<') && !once.contains('>'));
    assert_eq!(once, once.split_whitespace().collect::<Vec<_>>().join(" "));
}
