use stellux::handlers::data::{
    blog_tag_label, import_directory_order, item_label, BlogExport, DirectoryExport, ImportResult,
    ImportStats, TextExport,
};

fn dexp(id: i64, parent: Option<i64>) -> DirectoryExport {
    DirectoryExport::from_row(id, format!("d{id}"), None, parent)
}

#[test]
fn directories_without_parent_are_imported_first() {
    let dirs = vec![dexp(5, Some(1)), dexp(3, None), dexp(1, None), dexp(2, Some(3)), dexp(1, None)];
    assert_eq!(import_directory_order(&dirs), vec![2, 4, 1, 3, 0]);
    assert!(import_directory_order(&vec![]).is_empty());
}

#[test]
fn exported_rows_leave_times_out() {
    let d = dexp(1, None);
    assert!(d.created_at.is_none());
    let t = TextExport::from_row(1, "n".into(), None, "c".into(), true, None);
    assert_eq!(t.is_encrypted, Some(true));
    assert!(t.created_at.is_none() && t.updated_at.is_none());
    assert!(t.encrypted_flag());
    let mut t2 = TextExport::from_row(2, "n".into(), None, "c".into(), false, None);
    t2.is_encrypted = None;
    assert!(!t2.encrypted_flag());
}

fn blog(id: i64, slug: Option<&str>) -> BlogExport {
    BlogExport {
        id,
        title: "t".into(),
        slug: slug.map(|s| s.to_string()),
        author: None,
        content: "c".into(),
        html: None,
        thumbnail: None,
        category_id: None,
        view_count: 0,
        is_published: true,
    }
}

#[test]
fn imported_blogs_get_a_slug() {
    assert_eq!(blog(7, Some("hello")).import_slug(), "hello");
    assert_eq!(blog(7, Some("")).import_slug(), "blog-7");
    assert_eq!(blog(-3, None).import_slug(), "blog--3");
}

#[test]
fn stats_count_outcomes() {
    let mut s = ImportStats::for_items(3);
    s.record(&item_label("Category", 1), Ok(()));
    s.record(&item_label("Category", 2), Err("duplicate".to_string()));
    s.record(&blog_tag_label(4, 5), Err("fk".to_string()));
    assert_eq!((s.total, s.success, s.failed), (3, 1, 2));
    assert_eq!(s.errors, vec!["Category 2: duplicate".to_string(), "BlogTag (4, 5): fk".to_string()]);
    let d = ImportStats::default();
    assert_eq!((d.total, d.success, d.failed, d.errors.len()), (0, 0, 0, 0));
    let r = ImportResult::empty();
    assert_eq!(r.texts.total, 0);
}

#[test]
fn reimported_records_keep_exported_values() {
    for flag in [true, false] {
        let t = TextExport::from_row(3, "n".into(), None, "body".into(), flag, None);
        assert_eq!(t.encrypted_flag(), flag);
    }
    assert_eq!(blog(8, Some("my-post")).import_slug(), "my-post");
    assert_eq!(blog(8, Some("")).import_slug(), "blog-8");
}
