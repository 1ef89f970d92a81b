//! What the repositories compute around their queries: the queries' text
//! and paging, and the shaping of the rows they return.

pub mod search;
pub mod directory;
pub mod blog;
pub mod site_config;
pub mod user;
pub mod document;
pub mod tag;
