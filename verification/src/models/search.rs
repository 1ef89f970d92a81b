//! The query of a search.

use vstd::prelude::*;
use crate::mcp::tools::{page_spec, page_size_spec, page_or_first, page_size_or};
use crate::text::{trim_spec, trim_str};

verus! {

/// The query of the search endpoint.
pub struct SearchQueryParams {
    /// The keyword text.
    pub q: Option<String>,
    /// The page, 1 by default.
    pub page: Option<i64>,
    /// The page size, 10 by default, at most 100.
    pub page_size: Option<i64>,
}

impl SearchQueryParams {
    /// The page asked for, at least 1.
    pub fn page(&self) -> (r: i64)
        ensures
            r == page_spec(self.page),
    {
        page_or_first(self.page)
    }

    /// The page size asked for, 10 by default, within `1..=100`.
    pub fn page_size(&self) -> (r: i64)
        ensures
            r == page_size_spec(self.page_size, 10),
    {
        page_size_or(self.page_size, 10)
    }

    /// The keyword, trimmed; empty when absent.
    pub fn keyword(&self) -> (r: String)
        ensures
            r@ == match self.q {
                Some(q) => trim_spec(q@),
                None => Seq::<char>::empty(),
            },
    {
        match &self.q {
            Some(q) => trim_str(q.as_str()),
            None => String::new(),
        }
    }
}

} // verus!
