//! Blogs.

use vstd::prelude::*;
use crate::models::Timestamp;
use crate::models::category::Category;
use crate::models::tag::Tag;
use crate::mcp::tools::{page_spec, page_size_spec, page_or_first, page_size_or};

verus! {

/// A reference cited by a blog.
pub struct BlogReference {
    pub id: String,
    pub title: String,
    pub content: String,
}

/// A blog row.
pub struct Blog {
    pub id: i64,
    pub title: String,
    pub slug: Option<String>,
    pub author: Option<String>,
    pub content: String,
    pub html: Option<String>,
    pub summary: Option<String>,
    pub thumbnail: Option<String>,
    pub category_id: Option<i64>,
    pub view_count: i64,
    pub is_published: bool,
    pub created_at: Option<Timestamp>,
    pub updated_at: Option<Timestamp>,
    pub references: Option<serde_json::Value>,
}

/// A blog as listed, without its full content.
pub struct BlogListItem {
    pub id: i64,
    pub title: String,
    pub slug: Option<String>,
    pub author: Option<String>,
    pub excerpt: Option<String>,
    pub thumbnail: Option<String>,
    pub category: Option<Category>,
    pub tags: Vec<Tag>,
    pub view_count: i64,
    pub is_published: bool,
    pub created_at: Option<Timestamp>,
}

/// A blog with its category and tags.
pub struct BlogDetail {
    pub id: i64,
    pub title: String,
    pub slug: Option<String>,
    pub author: Option<String>,
    pub content: String,
    pub html: Option<String>,
    pub summary: Option<String>,
    pub thumbnail: Option<String>,
    pub category: Option<Category>,
    pub tags: Vec<Tag>,
    pub view_count: i64,
    pub is_published: bool,
    pub created_at: Option<Timestamp>,
    pub updated_at: Option<Timestamp>,
    pub references: Option<serde_json::Value>,
}

/// A request to create a blog.
pub struct CreateBlogRequest {
    pub title: String,
    pub slug: Option<String>,
    pub author: Option<String>,
    pub content: String,
    pub summary: Option<String>,
    pub thumbnail: Option<String>,
    pub category_id: Option<i64>,
    pub tag_ids: Option<Vec<i64>>,
    pub is_published: Option<bool>,
    pub references: Option<serde_json::Value>,
}

/// A request to change a blog; absent fields are left as they are.
pub struct UpdateBlogRequest {
    pub title: Option<String>,
    pub slug: Option<String>,
    pub author: Option<String>,
    pub content: Option<String>,
    pub summary: Option<String>,
    pub thumbnail: Option<String>,
    pub category_id: Option<i64>,
    pub tag_ids: Option<Vec<i64>>,
    pub is_published: Option<bool>,
    pub references: Option<serde_json::Value>,
}

/// The query of the blog list.
pub struct BlogQueryParams {
    pub page: Option<i64>,
    pub page_size: Option<i64>,
    pub category_id: Option<i64>,
    pub tag_id: Option<i64>,
    pub is_published: Option<bool>,
}

impl BlogQueryParams {
    /// The page asked for, at least 1.
    pub fn page(&self) -> (r: i64)
        ensures
            r == page_spec(self.page),
    {
        page_or_first(self.page)
    }

    /// The page size asked for, 10 by default, within `1..=100`.
    pub fn page_size(&self) -> (r: i64)
        ensures
            r == page_size_spec(self.page_size, 10),
    {
        page_size_or(self.page_size, 10)
    }
}

/// A blog as answered to clients.
pub struct BlogResponse {
    pub id: i64,
    pub title: String,
    pub slug: Option<String>,
    pub author: Option<String>,
    pub content: String,
    pub html: Option<String>,
    pub summary: Option<String>,
    pub thumbnail: Option<String>,
    pub category: Option<Category>,
    pub tags: Vec<Tag>,
    pub view_count: i64,
    pub is_published: bool,
    pub created_at: Option<Timestamp>,
    pub updated_at: Option<Timestamp>,
    pub references: Option<serde_json::Value>,
}

impl From<BlogDetail> for BlogResponse {
    fn from(b: BlogDetail) -> (r: Self) {
        BlogResponse {
            id: b.id,
            title: b.title,
            slug: b.slug,
            author: b.author,
            content: b.content,
            html: b.html,
            summary: b.summary,
            thumbnail: b.thumbnail,
            category: b.category,
            tags: b.tags,
            view_count: b.view_count,
            is_published: b.is_published,
            created_at: b.created_at,
            updated_at: b.updated_at,
            references: b.references,
        }
    }
}

impl vstd::std_specs::convert::FromSpecImpl<BlogDetail> for BlogResponse {
    open spec fn obeys_from_spec() -> bool {
        true
    }

    open spec fn from_spec(b: BlogDetail) -> Self {
        BlogResponse {
            id: b.id,
            title: b.title,
            slug: b.slug,
            author: b.author,
            content: b.content,
            html: b.html,
            summary: b.summary,
            thumbnail: b.thumbnail,
            category: b.category,
            tags: b.tags,
            view_count: b.view_count,
            is_published: b.is_published,
            created_at: b.created_at,
            updated_at: b.updated_at,
            references: b.references,
        }
    }
}

} // verus!
