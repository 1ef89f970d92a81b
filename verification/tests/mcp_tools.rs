use stellux::mcp::tools::{
    decode_base64_content, file_type_of, image_content_type, image_markdown,
    normalize_tag_ids, normalize_upload_filename, require_text, stored_filename,
    upload_content_type, validate_slug, ListBlogsArgs, ListDocumentsArgs, SearchBlogsArgs,
    category_unused, friend_link_status_known, name_taken, required_name,
};

#[test]
fn tag_ids_keep_positive_first_occurrences() {
    assert_eq!(normalize_tag_ids(vec![3, -1, 0, 3, 7, 2, 7]), vec![3, 7, 2]);
    assert_eq!(normalize_tag_ids(vec![]), Vec::<i64>::new());
    let once = normalize_tag_ids(vec![5, 5, 4, -2, 4, 1]);
    assert_eq!(normalize_tag_ids(once.clone()), once);
}

#[test]
fn slug_must_not_be_blank() {
    assert!(validate_slug(None).is_ok());
    assert!(validate_slug(Some("my-post")).is_ok());
    assert_eq!(validate_slug(Some("   ")), Err("slug 不能为空".to_string()));
    assert_eq!(require_text(" ", "title"), Err("title 不能为空".to_string()));
    assert!(require_text(" x ", "title").is_ok());
}

#[test]
fn upload_filename_rules() {
    assert_eq!(normalize_upload_filename("  photo.png "), Ok("photo.png".to_string()));
    assert_eq!(normalize_upload_filename("   "), Err("filename 不能为空".to_string()));
    assert_eq!(normalize_upload_filename("a/b.png"), Err("filename 不能包含路径分隔符".to_string()));
    assert_eq!(normalize_upload_filename("a\\b.png"), Err("filename 不能包含路径分隔符".to_string()));
    let long = "文".repeat(167); // 501 bytes
    assert_eq!(normalize_upload_filename(&long), Err("filename 不能超过 500 字节".to_string()));
    let fits = "文".repeat(166); // 498 bytes
    assert!(normalize_upload_filename(&fits).is_ok());
    assert!(normalize_upload_filename(&"a".repeat(500)).is_ok());
    assert!(normalize_upload_filename(&"a".repeat(501)).is_err());
}

#[test]
fn base64_contents() {
    assert_eq!(decode_base64_content("aGVsbG8="), Ok(b"hello".to_vec()));
    assert_eq!(decode_base64_content("data:text/plain;base64,aGVs\nbG8="), Ok(b"hello".to_vec()));
    assert_eq!(decode_base64_content(" \n "), Err("content_base64 不能为空".to_string()));
    assert_eq!(decode_base64_content("data:,"), Err("content_base64 不能为空".to_string()));
    let bad = decode_base64_content("@@@").unwrap_err();
    assert!(bad.starts_with("content_base64 不是有效 base64: "));
}

#[test]
fn content_types() {
    assert_eq!(upload_content_type(None, "application/octet-stream"), "application/octet-stream");
    assert_eq!(upload_content_type(Some("  "), "application/octet-stream"), "application/octet-stream");
    assert_eq!(upload_content_type(Some(" text/plain "), "x"), "text/plain");
    assert_eq!(image_content_type(None), Ok("image/png".to_string()));
    assert_eq!(image_content_type(Some("image/jpeg")), Ok("image/jpeg".to_string()));
    assert_eq!(image_content_type(Some("text/plain")), Err("content_type 必须是 image/*".to_string()));
}

#[test]
fn stored_file_names_and_types() {
    assert_eq!(file_type_of("image/png"), "image");
    assert_eq!(file_type_of("plain"), "plain");
    assert_eq!(stored_filename("uploads/2024/01/abc.png"), "abc.png");
    assert_eq!(stored_filename("abc.png"), "abc.png");
    assert_eq!(stored_filename("dir/"), "");
    assert_eq!(image_markdown("a.png", "http://x/a.png"), "![a.png](http://x/a.png)");
}

#[test]
fn tool_paging_defaults() {
    let s = SearchBlogsArgs { keyword: "k".to_string(), page: None, page_size: None, published_only: None };
    assert_eq!((s.page(), s.page_size(), s.published_only()), (1, 10, true));
    let s2 = SearchBlogsArgs { keyword: "k".to_string(), page: Some(-3), page_size: Some(1000), published_only: Some(false) };
    assert_eq!((s2.page(), s2.page_size(), s2.published_only()), (1, 100, false));
    let l = ListBlogsArgs { page: Some(4), page_size: None, published_only: None };
    assert_eq!((l.page(), l.page_size(), l.published_only()), (4, 20, Some(true)));
    let l2 = ListBlogsArgs { page: None, page_size: Some(0), published_only: Some(false) };
    assert_eq!((l2.page_size(), l2.published_only()), (1, Some(false)));
    let d = ListDocumentsArgs { keyword: None, directory_id: None, limit: None };
    assert_eq!(d.limit(), 20);
    let d2 = ListDocumentsArgs { keyword: None, directory_id: None, limit: Some(250) };
    assert_eq!(d2.limit(), 100);
}

use stellux::mcp::tools::{
    document_query, friend_link_query, global_summary, mcp_custom_prompt, missing_record,
    new_global_summary, text_access, text_matches, DocumentQuery, FriendLinkQuery, TextAccess,
};

#[test]
fn lookups_and_listings() {
    assert_eq!(missing_record("博客", 12), "博客 12 不存在");
    assert_eq!(mcp_custom_prompt(Some("  ".into())), None);
    assert_eq!(mcp_custom_prompt(Some(" p ".into())), Some(" p ".to_string()));
    assert_eq!(global_summary(None), (String::new(), false));
    assert_eq!(global_summary(Some(" \n".into())), (" \n".to_string(), false));
    assert_eq!(new_global_summary("  hi  "), ("hi".to_string(), true));
    assert!(matches!(friend_link_query(Some(1)), FriendLinkQuery::Approved));
    assert!(matches!(friend_link_query(Some(2)), FriendLinkQuery::WithStatus(2)));
    assert!(matches!(friend_link_query(None), FriendLinkQuery::All));
    let a = ListDocumentsArgs { keyword: Some("  rust ".into()), directory_id: Some(3), limit: Some(5) };
    assert!(matches!(document_query(&a), Ok(DocumentQuery::Search(ref k, 5)) if k == "rust"));
    let b = ListDocumentsArgs { keyword: Some(" ".into()), directory_id: None, limit: None };
    assert!(matches!(document_query(&b), Err(ref m) if m == "keyword 不能为空"));
    let c = ListDocumentsArgs { keyword: None, directory_id: Some(3), limit: None };
    assert!(matches!(document_query(&c), Ok(DocumentQuery::InDirectory(3))));
    let d = ListDocumentsArgs { keyword: None, directory_id: None, limit: None };
    assert!(matches!(document_query(&d), Ok(DocumentQuery::All)));
}

#[test]
fn texts_and_their_access() {
    assert!(matches!(text_access(None, None), TextAccess::Show));
    assert!(matches!(text_access(Some(false), Some("x".into())), TextAccess::Show));
    assert!(matches!(text_access(Some(true), None), TextAccess::PasswordRequired));
    assert!(matches!(text_access(Some(true), Some("pw".into())), TextAccess::CheckPassword(ref p) if p == "pw"));
    assert!(text_matches("Rust Notes", None, Some("RUST")));
    assert!(text_matches("n", Some("About Verus"), Some("verus")));
    assert!(!text_matches("n", None, Some("verus")));
    assert!(text_matches("n", None, None));
}

#[test]
fn category_and_tag_names() {
    assert_eq!(required_name("  Rust \n"), Ok("Rust".to_string()));
    assert_eq!(required_name(" \t "), Err("name 不能为空".to_string()));
    assert_eq!(name_taken("分类", "Rust"), "分类 'Rust' 已存在");
    assert_eq!(name_taken("标签", "web"), "标签 'web' 已存在");
    assert_eq!(category_unused("Rust", 0), Ok(()));
    assert_eq!(category_unused("Rust", 2), Err("无法删除分类 'Rust'：仍有 2 篇博客使用该分类".to_string()));
}

#[test]
fn friend_link_status_must_be_known() {
    assert_eq!(friend_link_status_known(None), Ok(()));
    assert_eq!(friend_link_status_known(Some(0)), Ok(()));
    assert_eq!(friend_link_status_known(Some(2)), Ok(()));
    assert_eq!(friend_link_status_known(Some(3)), Err("status 只能是 0、1、2".to_string()));
    assert_eq!(friend_link_status_known(Some(-1)), Err("status 只能是 0、1、2".to_string()));
}
