//! Blogs filed under a tag: the list items built from the rows of the
//! tag's blog query, which only returns published blogs.

use vstd::prelude::*;
use crate::models::Timestamp;
use crate::models::blog::BlogListItem;
use crate::models::category::Category;
use crate::models::tag::Tag;

verus! {

/// Tag queries.
pub struct TagRepository;

impl TagRepository {
    /// The list item of a row of a tag's blog list, with the blog's tags.
    /// The query keeps published blogs only, so the item is marked
    /// published; every other field is the row's.
    pub fn tag_list_item(
        id: i64,
        title: String,
        slug: Option<String>,
        author: Option<String>,
        excerpt: Option<String>,
        thumbnail: Option<String>,
        view_count: i64,
        created_at: Option<Timestamp>,
        category: Option<Category>,
        tags: Vec<Tag>,
    ) -> (r: BlogListItem)
        ensures
            r.is_published,
            r.id == id && r.title == title && r.slug == slug && r.author == author,
            r.excerpt == excerpt && r.thumbnail == thumbnail && r.view_count == view_count,
            r.created_at == created_at && r.category == category && r.tags == tags,
    {
        BlogListItem {
            id,
            title,
            slug,
            author,
            excerpt,
            thumbnail,
            category,
            tags,
            view_count,
            is_published: true,
            created_at,
        }
    }
}

} // verus!
