//! Documents.

use vstd::prelude::*;
use crate::models::Timestamp;

verus! {

/// A reference cited by a document.
pub struct DocumentReference {
    pub id: String,
    pub title: String,
    pub content: String,
}

/// A document row.
pub struct Document {
    pub id: i64,
    pub name: String,
    pub filename: Option<String>,
    pub content: String,
    pub directory_id: Option<i64>,
    pub sort_order: i32,
    pub created_at: Option<Timestamp>,
    pub updated_at: Option<Timestamp>,
    pub references: Option<serde_json::Value>,
}

/// A document as listed, without its content.
pub struct DocumentListItem {
    pub id: i64,
    pub name: String,
    pub filename: Option<String>,
    pub directory_id: Option<i64>,
    pub sort_order: i32,
    pub created_at: Option<Timestamp>,
}

/// A request to create a document.
pub struct CreateDocumentRequest {
    pub name: String,
    pub filename: Option<String>,
    pub content: String,
    pub directory_id: Option<i64>,
    pub sort_order: Option<i32>,
    pub references: Option<serde_json::Value>,
}

/// A request to change a document; absent fields are left as they are.
pub struct UpdateDocumentRequest {
    pub name: Option<String>,
    pub filename: Option<String>,
    pub content: Option<String>,
    pub directory_id: Option<i64>,
    pub sort_order: Option<i32>,
    pub references: Option<serde_json::Value>,
}

/// A document as answered to clients, with its rendered HTML.
pub struct DocumentResponse {
    pub id: i64,
    pub name: String,
    pub filename: Option<String>,
    pub content: String,
    pub html: Option<String>,
    pub directory_id: Option<i64>,
    pub sort_order: i32,
    pub created_at: Option<Timestamp>,
    pub updated_at: Option<Timestamp>,
    pub references: Option<serde_json::Value>,
}

impl Document {
    /// The response for this document with the given rendered HTML.
    pub fn to_response(self, html: Option<String>) -> (r: DocumentResponse)
        ensures
            r.id == self.id,
            r.name == self.name,
            r.filename == self.filename,
            r.content == self.content,
            r.html == html,
            r.directory_id == self.directory_id,
            r.sort_order == self.sort_order,
            r.created_at == self.created_at,
            r.updated_at == self.updated_at,
            r.references == self.references,
    {
        DocumentResponse {
            id: self.id,
            name: self.name,
            filename: self.filename,
            content: self.content,
            html,
            directory_id: self.directory_id,
            sort_order: self.sort_order,
            created_at: self.created_at,
            updated_at: self.updated_at,
            references: self.references,
        }
    }
}

impl From<Document> for DocumentListItem {
    fn from(d: Document) -> (r: Self) {
        DocumentListItem {
            id: d.id,
            name: d.name,
            filename: d.filename,
            directory_id: d.directory_id,
            sort_order: d.sort_order,
            created_at: d.created_at,
        }
    }
}

impl vstd::std_specs::convert::FromSpecImpl<Document> for DocumentListItem {
    open spec fn obeys_from_spec() -> bool {
        true
    }

    open spec fn from_spec(d: Document) -> Self {
        DocumentListItem {
            id: d.id,
            name: d.name,
            filename: d.filename,
            directory_id: d.directory_id,
            sort_order: d.sort_order,
            created_at: d.created_at,
        }
    }
}

} // verus!
