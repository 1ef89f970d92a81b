//! The archive: published blogs grouped by year and month.

use vstd::prelude::*;

verus! {

/// One blog in the archive.
pub struct ArchiveBlogItem {
    pub id: i64,
    pub title: String,
    pub slug: Option<String>,
    /// The creation date as ISO text.
    pub created_at: String,
}

/// The blogs of one month.
pub struct ArchiveMonth {
    pub month: i32,
    pub count: i64,
    pub blogs: Vec<ArchiveBlogItem>,
}

/// The months of one year.
pub struct ArchiveYear {
    pub year: i32,
    pub count: i64,
    pub months: Vec<ArchiveMonth>,
}

/// The whole archive.
pub struct ArchiveResponse {
    pub total: i64,
    pub years: Vec<ArchiveYear>,
}

} // verus!
