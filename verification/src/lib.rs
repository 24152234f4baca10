//! Tags for files below one root directory, kept in an SQLite store.
//!
//! - [`store`] opens the store and creates tags, attaches them to files and
//!   takes them off again, and reads everything out in one piece.
//! - [`model`] holds what was read out and answers queries over it.
//! - [`path`] says what lies below the root and turns absolute paths into
//!   root-relative ones and back.
//! - [`rows`] reads the lists of tag ids that the database hands out.
//! - [`args`] parts command-line arguments into paths and tags.
//! - [`error`] names what can go wrong.
//!
//! The file system is the caller's business: paths come in canonical form,
//! as bytes.

pub mod args;
pub mod error;
pub mod model;
pub mod path;
pub mod rows;
mod sqlite;
pub mod store;
pub mod text;

pub use args::parse_args;
pub use error::StoreError;
pub use model::{MatchMode, MediaTags, Medium, Tag};
pub use store::MediaTag;
