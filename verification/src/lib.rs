//! A schema-driven client core for image-board style content APIs.
//!
//! Each supported site is described by a declarative schema: URL templates,
//! query-parameter names, JSON field paths, tag encoding variants and rating
//! alias tables.  One interpreter builds request URLs from a schema and maps
//! arbitrary JSON payloads into typed records, so no site needs a parser of
//! its own.

pub mod data;
pub mod e621;
pub mod envelope;
pub mod error;
pub mod json;
pub mod mapper;
pub mod schema;
pub mod search_builder;
pub mod source;
pub mod text;
pub mod url;
