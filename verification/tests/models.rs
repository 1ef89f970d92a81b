use stellux::models::blog::{BlogDetail, BlogQueryParams, BlogResponse};
use stellux::models::category::{Category, CategoryResponse};
use stellux::models::directory::{Directory, DirectoryResponse, DirectoryTreeNode};
use stellux::models::document::{Document, DocumentListItem};
use stellux::models::file::{CreateFileRequest, File, FileQueryParams, FileResponse};
use stellux::models::friend_link::FriendLinkStatus;
use stellux::models::mcp::{enabled_setting_value, UpdateMcpSettingsRequest};
use stellux::models::project::{Project, ProjectResponse};
use stellux::models::search::SearchQueryParams;
use stellux::models::tag::{Tag, TagResponse};
use stellux::models::Timestamp;

#[test]
fn query_params_default_and_clamp() {
    let b = BlogQueryParams { page: None, page_size: None, category_id: None, tag_id: None, is_published: None };
    assert_eq!((b.page(), b.page_size()), (1, 10));
    let b2 = BlogQueryParams { page: Some(0), page_size: Some(101), category_id: None, tag_id: None, is_published: None };
    assert_eq!((b2.page(), b2.page_size()), (1, 100));
    let f = FileQueryParams { page: Some(3), page_size: None, file_type: None };
    assert_eq!((f.page(), f.page_size()), (3, 20));
    let q = SearchQueryParams { q: Some("  rust async \n".into()), page: None, page_size: Some(-4) };
    assert_eq!((q.keyword().as_str(), q.page(), q.page_size()), ("rust async", 1, 1));
    let none = SearchQueryParams { q: None, page: None, page_size: None };
    assert_eq!(none.keyword(), "");
}

#[test]
fn friend_link_status_numbers() {
    for v in -2i16..5 {
        let s = FriendLinkStatus::from(v);
        let expected = match v {
            1 => FriendLinkStatus::Approved,
            2 => FriendLinkStatus::Rejected,
            _ => FriendLinkStatus::Pending,
        };
        assert_eq!(s, expected);
    }
    assert_eq!(i16::from(FriendLinkStatus::Pending), 0);
    assert_eq!(i16::from(FriendLinkStatus::Approved), 1);
    assert_eq!(i16::from(FriendLinkStatus::Rejected), 2);
    for s in [FriendLinkStatus::Pending, FriendLinkStatus::Approved, FriendLinkStatus::Rejected] {
        assert_eq!(FriendLinkStatus::from(i16::from(s)), s);
    }
}

#[test]
fn responses_copy_their_rows() {
    let t = Timestamp { secs: 10, nanos: 5 };
    let c = CategoryResponse::from(Category { id: 1, name: "c".into(), intro: None, logo: Some("l".into()), created_at: Some(t) });
    assert_eq!((c.id, c.name.as_str(), c.logo.as_deref()), (1, "c", Some("l")));
    let tag = TagResponse::from(Tag { id: 2, name: "t".into() });
    assert_eq!((tag.id, tag.name.as_str()), (2, "t"));
    let p = ProjectResponse::from(Project {
        id: 3,
        name: "p".into(),
        description: None,
        logo: None,
        github_url: None,
        preview_url: None,
        download_url: None,
        sort_order: None,
        created_at: None,
    });
    assert_eq!(p.sort_order, 0);
    let d = Directory { id: 4, name: "d".into(), intro: None, parent_id: Some(1), sort_order: 2, created_at: None };
    let node = DirectoryTreeNode::from_directory(Directory { id: 4, name: "d".into(), intro: None, parent_id: Some(1), sort_order: 2, created_at: None });
    assert!(node.children.is_empty() && node.documents.is_empty());
    let r = DirectoryResponse::from(d);
    assert_eq!((r.id, r.parent_id, r.sort_order), (4, Some(1), 2));
    let doc = Document {
        id: 5,
        name: "doc".into(),
        filename: None,
        content: "body".into(),
        directory_id: None,
        sort_order: 0,
        created_at: None,
        updated_at: None,
        references: None,
    };
    let item = DocumentListItem::from(doc);
    assert_eq!((item.id, item.name.as_str()), (5, "doc"));
    let f = FileResponse::from(File {
        id: 6,
        filename: "f".into(),
        original_filename: None,
        file_type: None,
        file_size: Some(9),
        url: "u".into(),
        thumbnail_url: None,
        width: None,
        height: None,
        bucket_name: None,
        object_key: None,
        created_at: None,
    });
    assert_eq!((f.id, f.file_size), (6, Some(9)));
    let detail = BlogDetail {
        id: 7,
        title: "b".into(),
        slug: None,
        author: None,
        content: "c".into(),
        html: None,
        summary: None,
        thumbnail: None,
        category: None,
        tags: vec![],
        view_count: 3,
        is_published: true,
        created_at: None,
        updated_at: None,
        references: None,
    };
    let br = BlogResponse::from(detail);
    assert_eq!((br.id, br.view_count, br.is_published), (7, 3, true));
}

#[test]
fn upload_rows() {
    let r = CreateFileRequest::for_upload("cat.png".into(), "image/png", 12, "http://s/a/b/cat-1.png".into(), "blog".into(), "a/b/cat-1.png".into());
    assert_eq!(r.filename, "cat-1.png");
    assert_eq!(r.file_type.as_deref(), Some("image"));
    assert_eq!(r.original_filename.as_deref(), Some("cat.png"));
    assert_eq!(r.file_size, Some(12));
    assert!(r.thumbnail_url.is_none() && r.width.is_none() && r.height.is_none());
    assert_eq!(r.bucket_name.as_deref(), Some("blog"));
}

#[test]
fn mcp_switch_value() {
    assert_eq!(enabled_setting_value(&UpdateMcpSettingsRequest { enabled: true }), "true");
    assert_eq!(enabled_setting_value(&UpdateMcpSettingsRequest { enabled: false }), "false");
}
