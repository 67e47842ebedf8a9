//! Change fragments: small files with a typed header and a free-text body,
//! checked against a schema and grouped by release version.
//!
//! The library holds the rules; it reads no file, starts no program and asks
//! no user. Where a command needs any of that, the library says what is to
//! be done and judges what came back.
//!
//! - `fragment`, `header`, `schema`: the typed values of a header, the types
//!   and descriptions of its fields, and fragments themselves.
//! - `document`, `format`, `codec`: the frame of a fragment file and the two
//!   encodings of its header.
//! - `validate`: a header held against the schema.
//! - `command::new_command`, `crawler`, `interactive`: the header of a new
//!   fragment, built field by field.
//! - `selector`, `path`, `version`: which fragments a query is about.
//! - `command::release_command`: fragments grouped by version, in order.

pub mod cli;
pub mod codec;
pub mod command;
pub mod config;
pub mod crawler;
pub mod document;
pub mod error;
pub mod format;
pub mod fragment;
pub mod header;
pub mod interactive;
pub mod path;
pub mod schema;
pub mod selector;
pub mod template;
pub mod text;
pub mod util;
pub mod validate;
pub mod version;
