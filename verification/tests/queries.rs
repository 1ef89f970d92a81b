use stellux::models::category::Category;
use stellux::models::site_config::SiteConfig;
use stellux::repositories::blog::{page_offset, BlogRepository};
use stellux::repositories::site_config::SiteConfigRepo;
use stellux::handlers::request::{client_ip, effective_accept};

const HEAD: &str = "\n            SELECT DISTINCT\n                b.id,\n                b.title,\n                b.slug,\n                b.author,\n                LEFT(b.content, 200) as excerpt,\n                b.thumbnail,\n                b.view_count,\n                b.is_published,\n                b.created_at,\n                c.id as category_id,\n                c.name as category_name,\n                c.intro as category_intro,\n                c.logo as category_logo,\n                c.created_at as category_created_at\n            FROM blogs b\n            LEFT JOIN categories c ON c.id = b.category_id\n            ";

#[test]
fn unfiltered_list_queries() {
    let q = BlogRepository::filter_queries(1, 10, None, None, None);
    assert_eq!(q.count_sql, "SELECT COUNT(DISTINCT b.id) FROM blogs b");
    assert_eq!(q.data_sql, format!("{HEAD} ORDER BY b.created_at DESC LIMIT 10 OFFSET 0"));
}

#[test]
fn filtered_list_queries() {
    let q = BlogRepository::filter_queries(3, 20, Some(4), Some(-7), Some(false));
    let join = " INNER JOIN blog_tags bt ON bt.blog_id = b.id";
    let cond = " WHERE b.category_id = 4 AND bt.tag_id = -7 AND b.is_published = false";
    assert_eq!(q.count_sql, format!("SELECT COUNT(DISTINCT b.id) FROM blogs b{join}{cond}"));
    assert_eq!(q.data_sql, format!("{HEAD}{join}{cond} ORDER BY b.created_at DESC LIMIT 20 OFFSET 40"));
    let p = BlogRepository::filter_queries(1, 5, None, None, Some(true));
    assert_eq!(p.count_sql, "SELECT COUNT(DISTINCT b.id) FROM blogs b WHERE b.is_published = true");
    assert_eq!(page_offset(1, 100), 0);
    assert_eq!(page_offset(5, 7), 28);
}

#[test]
fn joined_category() {
    assert!(Category::from_join(None, Some("x".into()), None, None, None).is_none());
    let c = Category::from_join(Some(3), None, None, None, None).unwrap();
    assert_eq!((c.id, c.name.as_str()), (3, ""));
}

fn row(key: &str, value: Option<&str>) -> SiteConfig {
    SiteConfig {
        id: 0,
        config_key: key.into(),
        config_value: value.map(|v| v.to_string()),
        config_type: None,
        description: None,
        created_at: None,
        updated_at: None,
    }
}

#[test]
fn site_settings() {
    let rows = vec![row("site_title", Some("Old")), row("site_title", Some("New")), row("owner_bio", None), row("s3_bucket", Some("b"))];
    let p = SiteConfigRepo::public_config(&rows);
    assert_eq!(p.site_title, "New");
    assert_eq!(p.owner_bio, "");
    assert_eq!(p.footer_text, "");
    let s3 = SiteConfigRepo::s3_config(&rows);
    assert_eq!((s3.bucket.as_str(), s3.region.as_str(), s3.endpoint.as_str()), ("b", "us-east-1", ""));
    assert_eq!(SiteConfigRepo::value_of(&rows, "owner_bio"), Some(String::new()));
    assert_eq!(SiteConfigRepo::value_of(&rows, "missing"), None);
}

#[test]
fn client_addresses() {
    let peer = "10.0.0.9".to_string();
    assert_eq!(client_ip(Some(Some(" 1.2.3.4 , 5.6.7.8".into())), None, peer.clone()), "1.2.3.4");
    assert_eq!(client_ip(Some(None), Some(Some("9.9.9.9".into())), peer.clone()), "9.9.9.9");
    assert_eq!(client_ip(None, Some(None), peer.clone()), "10.0.0.9");
    assert_eq!(client_ip(Some(Some("".into())), None, peer.clone()), "");
}

#[test]
fn accept_header_fallback() {
    let post = vec!["application/json", "text/event-stream"];
    let fb = "application/json, text/event-stream";
    assert_eq!(effective_accept(Some("application/json, text/event-stream"), &post, fb), "application/json, text/event-stream");
    assert_eq!(effective_accept(Some("application/json"), &post, fb), fb);
    assert_eq!(effective_accept(None, &post, fb), fb);
    assert_eq!(effective_accept(Some("*/*"), &vec!["text/event-stream"], "text/event-stream"), "text/event-stream");
}

#[test]
fn tag_list_items_are_published_rows() {
    let tags = vec![stellux::models::tag::Tag { id: 4, name: "rust".to_string() }];
    let category = Category::from_join(Some(2), Some("Dev".to_string()), None, None, None);
    let item = stellux::repositories::tag::TagRepository::tag_list_item(
        9,
        "Title".to_string(),
        Some("title".to_string()),
        None,
        Some("text".to_string()),
        None,
        17,
        None,
        category,
        tags,
    );
    assert!(item.is_published);
    assert_eq!((item.id, item.view_count), (9, 17));
    assert_eq!(item.title, "Title");
    assert_eq!(item.slug.as_deref(), Some("title"));
    assert_eq!(item.excerpt.as_deref(), Some("text"));
    assert_eq!(item.category.as_ref().map(|c| (c.id, c.name.clone())), Some((2, "Dev".to_string())));
    assert_eq!(item.tags.len(), 1);
    assert_eq!(page_offset(3, 20), 40);
}
