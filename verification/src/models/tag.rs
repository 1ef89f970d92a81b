//! Tags.

use vstd::prelude::*;

verus! {

/// A tag row.
pub struct Tag {
    pub id: i64,
    pub name: String,
}

/// A tag with the number of its blogs.
pub struct TagWithCount {
    pub id: i64,
    pub name: String,
    pub blog_count: i64,
}

/// A request to create a tag.
pub struct CreateTagRequest {
    pub name: String,
}

/// A request to rename a tag.
pub struct UpdateTagRequest {
    pub name: Option<String>,
}

/// A tag as answered to clients.
pub struct TagResponse {
    pub id: i64,
    pub name: String,
}

impl From<Tag> for TagResponse {
    fn from(t: Tag) -> (r: Self) {
        TagResponse { id: t.id, name: t.name }
    }
}

impl vstd::std_specs::convert::FromSpecImpl<Tag> for TagResponse {
    open spec fn obeys_from_spec() -> bool {
        true
    }

    open spec fn from_spec(t: Tag) -> Self {
        TagResponse { id: t.id, name: t.name }
    }
}

} // verus!
