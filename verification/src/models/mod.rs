//! The records of the site and the requests that change them.

use vstd::prelude::*;

pub mod archive;
pub mod blog;
pub mod category;
pub mod directory;
pub mod document;
pub mod file;
pub mod friend_link;
pub mod mcp;
pub mod project;
pub mod search;
pub mod site_config;
pub mod tag;

verus! {

/// A point in time, as seconds and nanoseconds since the Unix epoch (UTC).
#[derive(Clone, Copy, PartialEq, Eq, Debug)]
pub struct Timestamp {
    pub secs: i64,
    pub nanos: u32,
}

/// A JSON document, carried through without being read.
#[verifier::external_type_specification]
#[verifier::external_body]
pub struct ExJsonValue(serde_json::Value);

/// A copy of an optional string.
pub fn clone_opt_string(o: &Option<String>) -> (r: Option<String>)
    ensures
        r == *o,
{
    match o {
        Some(s) => Some(s.clone()),
        None => None,
    }
}

/// The characters of an optional string.
pub open spec fn opt_view(o: Option<String>) -> Option<Seq<char>> {
    match o {
        Some(s) => Some(s@),
        None => None,
    }
}

} // verus!
