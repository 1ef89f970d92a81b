//! The decisions of the HTTP handlers, apart from the requests and the
//! database calls around them.

pub mod data;
pub mod sql_import;
pub mod ai;
pub mod validation;
pub mod request;
pub mod auth;
pub mod blog;
pub mod category;
pub mod stats;
pub mod tag;
