//! Paging of the blogs of a tag.

use vstd::prelude::*;

verus! {

broadcast use vstd::string::group_string_axioms;

/// Paging of the blogs of a tag; taken as given, with defaults for absent
/// values.
pub struct PaginationParams {
    pub page: i64,
    pub page_size: i64,
}

/// The page of a tag list when none is given.
pub fn default_page() -> (r: i64)
    ensures
        r == 1,
{
    1
}

/// The page size of a tag list when none is given.
pub fn default_page_size() -> (r: i64)
    ensures
        r == 10,
{
    10
}

} // verus!
