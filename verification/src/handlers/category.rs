//! Paging of the blogs of a category.

use vstd::prelude::*;
use crate::mcp::tools::{page_spec, page_size_spec, page_or_first, page_size_or};

verus! {

broadcast use vstd::string::group_string_axioms;

/// Paging of the blogs of a category.
pub struct PaginationParams {
    pub page: Option<i64>,
    pub page_size: Option<i64>,
}

impl PaginationParams {
    /// The page asked for, at least 1.
    pub fn page(&self) -> (r: i64)
        ensures
            r == page_spec(self.page),
    {
        page_or_first(self.page)
    }

    /// The page size asked for, 10 by default, within `1..=100`.
    pub fn page_size(&self) -> (r: i64)
        ensures
            r == page_size_spec(self.page_size, 10),
    {
        page_size_or(self.page_size, 10)
    }
}

} // verus!
