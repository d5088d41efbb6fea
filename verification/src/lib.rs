//! Verified core of a video-sharing backend: the error taxonomy, the startup
//! configuration, credentials and bearer tokens, the user, video and reaction
//! tables, the object store, relevance ordering of search results and the
//! upload pipeline.
//!
//! Every executable function carries a contract that Verus proves. Calls into
//! other crates are confined to small wrappers whose contracts are assumed;
//! each of them says so in its documentation.

pub mod auth;
pub mod config;
pub mod errors;
pub mod ingest;
pub mod likes;
pub mod models;
pub mod objects;
pub mod password;
pub mod schema;
pub mod search;
pub mod storage;
pub mod token;
pub mod users;
pub mod videos;
