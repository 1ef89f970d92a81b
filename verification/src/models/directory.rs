//! Directories of documents.

use vstd::prelude::*;
use crate::models::Timestamp;

verus! {

/// A directory row.
pub struct Directory {
    pub id: i64,
    pub name: String,
    pub intro: Option<String>,
    pub parent_id: Option<i64>,
    pub sort_order: i32,
    pub created_at: Option<Timestamp>,
}

/// A document as listed under its directory.
pub struct DirectoryDocument {
    pub id: i64,
    pub name: String,
    pub filename: Option<String>,
    pub sort_order: i32,
}

/// A directory with its sub-directories and documents.
pub struct DirectoryTreeNode {
    pub id: i64,
    pub name: String,
    pub intro: Option<String>,
    pub parent_id: Option<i64>,
    pub sort_order: i32,
    pub created_at: Option<Timestamp>,
    pub children: Vec<DirectoryTreeNode>,
    pub documents: Vec<DirectoryDocument>,
}

/// A request to create a directory.
pub struct CreateDirectoryRequest {
    pub name: String,
    pub intro: Option<String>,
    pub parent_id: Option<i64>,
    pub sort_order: Option<i32>,
}

/// A request to change a directory; absent fields are left as they are.
pub struct UpdateDirectoryRequest {
    pub name: Option<String>,
    pub intro: Option<String>,
    pub parent_id: Option<i64>,
    pub sort_order: Option<i32>,
}

/// A directory as answered to clients.
pub struct DirectoryResponse {
    pub id: i64,
    pub name: String,
    pub intro: Option<String>,
    pub parent_id: Option<i64>,
    pub sort_order: i32,
    pub created_at: Option<Timestamp>,
}

impl From<Directory> for DirectoryResponse {
    fn from(d: Directory) -> (r: Self) {
        DirectoryResponse {
            id: d.id,
            name: d.name,
            intro: d.intro,
            parent_id: d.parent_id,
            sort_order: d.sort_order,
            created_at: d.created_at,
        }
    }
}

impl vstd::std_specs::convert::FromSpecImpl<Directory> for DirectoryResponse {
    open spec fn obeys_from_spec() -> bool {
        true
    }

    open spec fn from_spec(d: Directory) -> Self {
        DirectoryResponse {
            id: d.id,
            name: d.name,
            intro: d.intro,
            parent_id: d.parent_id,
            sort_order: d.sort_order,
            created_at: d.created_at,
        }
    }
}

impl DirectoryTreeNode {
    /// The node of directory `d`, with no sub-directories or documents yet.
    pub fn from_directory(d: Directory) -> (r: Self)
        ensures
            r.id == d.id,
            r.name == d.name,
            r.intro == d.intro,
            r.parent_id == d.parent_id,
            r.sort_order == d.sort_order,
            r.created_at == d.created_at,
            r.children@.len() == 0,
            r.documents@.len() == 0,
    {
        DirectoryTreeNode {
            id: d.id,
            name: d.name,
            intro: d.intro,
            parent_id: d.parent_id,
            sort_order: d.sort_order,
            created_at: d.created_at,
            children: Vec::new(),
            documents: Vec::new(),
        }
    }
}

} // verus!
