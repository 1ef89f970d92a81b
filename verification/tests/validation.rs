use stellux::error::ApiError;
use stellux::handlers::validation::{
    already_exists, not_found, slug_to_check, tag_name, validate_create_blog,
    validate_create_friend_link, validate_create_text, validate_friend_link_status,
    validate_login, validate_refresh, validate_search_keyword, validate_setup_admin,
    validate_update_blog, validate_update_document, validate_update_friend_link,
    validate_update_text, validate_update_category, ensure_category_unused,
};
use stellux::models::blog::{CreateBlogRequest, UpdateBlogRequest};
use stellux::models::category::UpdateCategoryRequest;
use stellux::models::document::UpdateDocumentRequest;
use stellux::models::friend_link::{CreateFriendLinkRequest, UpdateFriendLinkRequest};

fn msg(r: Result<(), ApiError>) -> String {
    match r {
        Ok(()) => "ok".to_string(),
        Err(ApiError::ValidationError(m)) => m,
        Err(e) => format!("other: {}", e.message()),
    }
}

fn create_blog(title: &str, content: &str) -> CreateBlogRequest {
    CreateBlogRequest {
        title: title.into(),
        slug: None,
        author: None,
        content: content.into(),
        summary: None,
        thumbnail: None,
        category_id: None,
        tag_ids: None,
        is_published: None,
        references: None,
    }
}

#[test]
fn blog_requests() {
    assert_eq!(msg(validate_create_blog(&create_blog(" ", "c"))), "Blog title is required");
    assert_eq!(msg(validate_create_blog(&create_blog("t", "\n"))), "Blog content is required");
    assert_eq!(msg(validate_create_blog(&create_blog("t", "c"))), "ok");
    let mut u = UpdateBlogRequest {
        title: Some("  ".into()),
        slug: None,
        author: None,
        content: None,
        summary: None,
        thumbnail: None,
        category_id: None,
        tag_ids: None,
        is_published: None,
        references: None,
    };
    assert_eq!(msg(validate_update_blog(&u)), "Blog title cannot be empty");
    u.title = None;
    assert_eq!(msg(validate_update_blog(&u)), "ok");
    assert_eq!(slug_to_check(&Some("".into())), None);
    assert_eq!(slug_to_check(&Some("a".into())), Some("a"));
    assert_eq!(slug_to_check(&None), None);
    assert_eq!(msg(Err(already_exists("Blog", "slug", "a"))), "Blog with slug 'a' already exists");
    match not_found("Blog", 42) {
        ApiError::NotFound(m) => assert_eq!(m, "Blog with id 42 not found"),
        _ => panic!(),
    }
}

#[test]
fn friend_link_requests() {
    let mut c = CreateFriendLinkRequest { name: "n".into(), url: "u".into(), logo: None, intro: None, email: None, status: Some(3) };
    assert_eq!(
        msg(validate_create_friend_link(&c)),
        "Invalid status value. Must be 0 (pending), 1 (approved), or 2 (rejected)"
    );
    c.status = Some(2);
    assert_eq!(msg(validate_create_friend_link(&c)), "ok");
    c.url = " ".into();
    assert_eq!(msg(validate_create_friend_link(&c)), "Friend link URL is required");
    c.name = "".into();
    assert_eq!(msg(validate_create_friend_link(&c)), "Friend link name is required");
    let u = UpdateFriendLinkRequest { name: None, url: Some("".into()), logo: None, intro: None, email: None, status: Some(-1) };
    assert_eq!(msg(validate_update_friend_link(&u)), "Friend link URL cannot be empty");
    assert_eq!(msg(validate_friend_link_status(None)), "ok");
    assert_eq!(msg(validate_friend_link_status(Some(0))), "ok");
}

#[test]
fn document_and_text_requests() {
    let d = UpdateDocumentRequest { name: Some("x".into()), filename: None, content: Some(" ".into()), directory_id: None, sort_order: None, references: None };
    assert_eq!(msg(validate_update_document(&d)), "Document content cannot be empty");
    assert_eq!(msg(validate_create_text("n", "c", Some(true), false)), "Password is required for encrypted text");
    assert_eq!(msg(validate_create_text("n", "c", Some(true), true)), "ok");
    assert_eq!(msg(validate_create_text("n", "c", None, false)), "ok");
    assert_eq!(msg(validate_create_text(" ", "c", None, false)), "Text name is required");
    assert_eq!(msg(validate_update_text(&None, &Some("".into()))), "Text content cannot be empty");
    match tag_name("  rust ") {
        Ok(n) => assert_eq!(n, "rust"),
        Err(_) => panic!(),
    }
    assert_eq!(msg(tag_name("   ").map(|_| ())), "Tag name is required");
}

#[test]
fn auth_requests() {
    assert_eq!(msg(validate_login(" ", "p")), "Username is required");
    assert_eq!(msg(validate_login("u", "")), "Password is required");
    assert_eq!(msg(validate_login("u", " ")), "ok");
    assert_eq!(msg(validate_refresh("")), "Refresh token is required");
    assert_eq!(msg(validate_setup_admin(1, "u", "secret1")), "Admin user already exists. Please use login instead.");
    assert_eq!(msg(validate_setup_admin(0, "u", "12345")), "Password must be at least 6 characters");
    assert_eq!(msg(validate_setup_admin(0, "u", "密码")), "ok");
    assert_eq!(msg(validate_setup_admin(0, "", "123456")), "Username is required");
    assert_eq!(msg(validate_search_keyword("")), "Search keyword 'q' is required");
    assert_eq!(msg(validate_search_keyword("k")), "ok");
}

#[test]
fn category_requests_and_deletion() {
    let named = |n: Option<&str>| UpdateCategoryRequest { name: n.map(|x| x.to_string()), intro: None, logo: None };
    assert_eq!(msg(validate_update_category(&named(None))), "ok");
    assert_eq!(msg(validate_update_category(&named(Some("Rust")))), "ok");
    assert_eq!(msg(validate_update_category(&named(Some("  \t")))), "Category name cannot be empty");
    assert!(ensure_category_unused("Rust", 0).is_ok());
    match ensure_category_unused("Rust", 3) {
        Err(ApiError::BadRequest(m)) => {
            assert_eq!(m, "Cannot delete category 'Rust': 3 blog(s) are associated with this category")
        }
        other => panic!("unexpected {:?}", other),
    }
}
