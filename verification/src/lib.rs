//! The logic of a lakehouse connector: a client opens connections to a DuckDB session, runs
//! statements, and browses an Iceberg REST catalog or the tables of the session.
//!
//! No function here does input or output. What takes several requests or statements is a step
//! function: it takes what came back and says what comes next, and its contract says so for every
//! event. A program around this library performs the steps.
//!
//! - `driver` tells the calls of a client apart, and opens and closes connections; `session`,
//!   `query` and `metadata` say what the session of a connection is told and asked.
//! - `catalog`, `catalog_http`, `listing`, `schema` and `sync` deal with an Iceberg REST catalog.
//! - `request`, `redaction`, `sql`, `url`, `document`, `connections` and `reply` are what these are
//!   made of.
//! - `json`, `json_text` and `text` are the values that all of it works on.
//!
//! The modules whose names end in `_laws` hold what is promised of these: each law is stated on what
//! goes in and what comes out, and `operation_laws` ties them to the functions that a program calls.
pub mod catalog;
pub mod catalog_http;
pub mod catalog_http_laws;
pub mod catalog_laws;
pub mod connections;
pub mod document;
pub mod driver;
pub mod driver_laws;
pub mod json;
pub mod json_laws;
pub mod json_text;
pub mod listing;
pub mod listing_laws;
pub mod metadata;
pub mod metadata_laws;
pub mod operation_laws;
pub mod query;
pub mod query_laws;
pub mod redaction;
pub mod reply;
pub mod request;
pub mod request_laws;
pub mod schema;
pub mod schema_laws;
pub mod session;
pub mod session_laws;
pub mod sql;
pub mod sql_laws;
pub mod sync;
pub mod sync_laws;
pub mod text;
pub mod text_laws;
pub mod url;
pub mod url_laws;
