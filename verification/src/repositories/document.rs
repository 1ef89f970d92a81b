//! Document search.

use vstd::prelude::*;

verus! {

broadcast use vstd::string::group_string_axioms;

/// Document queries.
pub struct DocumentRepository;

impl DocumentRepository {
    /// The `ILIKE` pattern of a document search: the query between `%`s,
    /// with its own `%` and `_` left to act as wildcards.
    pub fn search_pattern(query: &str) -> (r: String)
        ensures
            r@ == "%"@ + query@ + "%"@,
    {
        String::from_str("%").concat(query).concat("%")
    }
}

} // verus!
