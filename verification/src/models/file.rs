//! Stored files.

use vstd::prelude::*;
use crate::models::Timestamp;
use crate::mcp::tools::{
    page_spec, page_size_spec, page_or_first, page_size_or, file_type_of, stored_filename,
    before_first_slash, after_last_slash,
};

verus! {

/// A file row.
pub struct File {
    pub id: i64,
    pub filename: String,
    pub original_filename: Option<String>,
    pub file_type: Option<String>,
    pub file_size: Option<i64>,
    pub url: String,
    pub thumbnail_url: Option<String>,
    pub width: Option<i32>,
    pub height: Option<i32>,
    pub bucket_name: Option<String>,
    pub object_key: Option<String>,
    pub created_at: Option<Timestamp>,
}

/// A file as answered to clients.
pub struct FileResponse {
    pub id: i64,
    pub filename: String,
    pub original_filename: Option<String>,
    pub file_type: Option<String>,
    pub file_size: Option<i64>,
    pub url: String,
    pub thumbnail_url: Option<String>,
    pub width: Option<i32>,
    pub height: Option<i32>,
    pub created_at: Option<Timestamp>,
}

impl From<File> for FileResponse {
    fn from(f: File) -> (r: Self) {
        FileResponse {
            id: f.id,
            filename: f.filename,
            original_filename: f.original_filename,
            file_type: f.file_type,
            file_size: f.file_size,
            url: f.url,
            thumbnail_url: f.thumbnail_url,
            width: f.width,
            height: f.height,
            created_at: f.created_at,
        }
    }
}

impl vstd::std_specs::convert::FromSpecImpl<File> for FileResponse {
    open spec fn obeys_from_spec() -> bool {
        true
    }

    open spec fn from_spec(f: File) -> Self {
        FileResponse {
            id: f.id,
            filename: f.filename,
            original_filename: f.original_filename,
            file_type: f.file_type,
            file_size: f.file_size,
            url: f.url,
            thumbnail_url: f.thumbnail_url,
            width: f.width,
            height: f.height,
            created_at: f.created_at,
        }
    }
}

/// The row to write for a stored file.
pub struct CreateFileRequest {
    pub filename: String,
    pub original_filename: Option<String>,
    pub file_type: Option<String>,
    pub file_size: Option<i64>,
    pub url: String,
    pub thumbnail_url: Option<String>,
    pub width: Option<i32>,
    pub height: Option<i32>,
    pub bucket_name: Option<String>,
    pub object_key: Option<String>,
}

impl CreateFileRequest {
    /// The row of an upload stored under `object_key`: named after the
    /// key's last segment, typed by the content type's first segment, with
    /// no thumbnail or dimensions.
    pub fn for_upload(
        original_filename: String,
        content_type: &str,
        file_size: i64,
        url: String,
        bucket: String,
        object_key: String,
    ) -> (r: Self)
        ensures
            r.filename@ == after_last_slash(object_key@),
            r.original_filename == Some(original_filename),
            r.file_type matches Some(t) && t@ == before_first_slash(content_type@),
            r.file_size == Some(file_size),
            r.url == url,
            r.thumbnail_url is None,
            r.width is None,
            r.height is None,
            r.bucket_name == Some(bucket),
            r.object_key == Some(object_key),
    {
        let filename = stored_filename(object_key.as_str());
        let file_type = file_type_of(content_type);
        CreateFileRequest {
            filename,
            original_filename: Some(original_filename),
            file_type: Some(file_type),
            file_size: Some(file_size),
            url,
            thumbnail_url: None,
            width: None,
            height: None,
            bucket_name: Some(bucket),
            object_key: Some(object_key),
        }
    }
}

/// The query of the file list.
pub struct FileQueryParams {
    pub page: Option<i64>,
    pub page_size: Option<i64>,
    pub file_type: Option<String>,
}

impl FileQueryParams {
    /// The page asked for, at least 1.
    pub fn page(&self) -> (r: i64)
        ensures
            r == page_spec(self.page),
    {
        page_or_first(self.page)
    }

    /// The page size asked for, 20 by default, within `1..=100`.
    pub fn page_size(&self) -> (r: i64)
        ensures
            r == page_size_spec(self.page_size, 20),
    {
        page_size_or(self.page_size, 20)
    }
}

} // verus!
