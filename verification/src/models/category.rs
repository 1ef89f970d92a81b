//! Categories.

use vstd::prelude::*;
use crate::models::Timestamp;

verus! {

/// A category row.
pub struct Category {
    pub id: i64,
    pub name: String,
    pub intro: Option<String>,
    pub logo: Option<String>,
    pub created_at: Option<Timestamp>,
}

/// A category with the number of its blogs.
pub struct CategoryWithCount {
    pub id: i64,
    pub name: String,
    pub intro: Option<String>,
    pub logo: Option<String>,
    pub created_at: Option<Timestamp>,
    pub blog_count: i64,
}

/// A request to create a category.
pub struct CreateCategoryRequest {
    pub name: String,
    pub intro: Option<String>,
    pub logo: Option<String>,
}

/// A request to change a category; absent fields are left as they are.
pub struct UpdateCategoryRequest {
    pub name: Option<String>,
    pub intro: Option<String>,
    pub logo: Option<String>,
}

/// A category as answered to clients.
pub struct CategoryResponse {
    pub id: i64,
    pub name: String,
    pub intro: Option<String>,
    pub logo: Option<String>,
    pub created_at: Option<Timestamp>,
}

impl From<Category> for CategoryResponse {
    fn from(c: Category) -> (r: Self) {
        CategoryResponse { id: c.id, name: c.name, intro: c.intro, logo: c.logo, created_at: c.created_at }
    }
}

impl vstd::std_specs::convert::FromSpecImpl<Category> for CategoryResponse {
    open spec fn obeys_from_spec() -> bool {
        true
    }

    open spec fn from_spec(c: Category) -> Self {
        CategoryResponse { id: c.id, name: c.name, intro: c.intro, logo: c.logo, created_at: c.created_at }
    }
}

impl Category {
    /// The category joined to a blog row: present when the row has a
    /// category id, with an empty name when the row carries none.
    pub fn from_join(
        id: Option<i64>,
        name: Option<String>,
        intro: Option<String>,
        logo: Option<String>,
        created_at: Option<Timestamp>,
    ) -> (r: Option<Category>)
        ensures
            match id {
                Some(cid) => r matches Some(c) && c.id == cid && c.name@ == match name {
                    Some(n) => n@,
                    None => Seq::<char>::empty(),
                } && c.intro == intro && c.logo == logo && c.created_at == created_at,
                None => r is None,
            },
    {
        match id {
            Some(cid) => {
                let n = match name {
                    Some(n) => n,
                    None => String::new(),
                };
                Some(Category { id: cid, name: n, intro, logo, created_at })
            },
            None => None,
        }
    }
}

} // verus!
