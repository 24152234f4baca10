//! What can go wrong in the store.

use vstd::prelude::*;
use vstd::string::*;
use crate::sqlite::error_text;
use crate::text::{display_text, lossy_text};

verus! {

/// A failed operation, with what it failed on.
#[derive(Debug)]
pub enum StoreError {
    /// The database refused or failed a statement.
    SqliteError(rusqlite::Error),
    /// A tag of this name is already there.
    TagAlreadyExists(String),
    /// No tag has this name.
    TagDoesNotExist(String),
    /// No medium is recorded under this root-relative path.
    FileDoesNotExist(String),
    /// The store's location names no file in any directory.
    CouldNotDetermineMediaTagPath,
    /// The path does not lie below the root.
    StripPrefixError,
    /// The root-relative path, given here, is not UTF-8.
    InvalidPathEncoding(Vec<u8>),
}

impl StoreError {
    /// The words of the message. For a database failure they are the words
    /// that stand before the database's own.
    pub open spec fn wording(self) -> Seq<char> {
        match self {
            StoreError::SqliteError(_) => "Database error: "@,
            StoreError::TagAlreadyExists(t) => "Tag \""@ + t@ + "\" already exists"@,
            StoreError::TagDoesNotExist(t) => "Tag \""@ + t@ + "\" does not exist"@,
            StoreError::FileDoesNotExist(p) => "File not found in database: "@ + p@,
            StoreError::CouldNotDetermineMediaTagPath => "Failed to determine library root path"@,
            StoreError::StripPrefixError => "Path is not inside library root: prefix not found"@,
            StoreError::InvalidPathEncoding(p) => "Path contains invalid UTF-8 characters: "@
                + lossy_text(p@),
        }
    }

    /// A line of text that describes the error. A database failure is
    /// announced and then described in the database's own words.
    pub fn message(&self) -> (text: String)
        ensures
            self is SqliteError ==> self.wording().is_prefix_of(text@),
            !(self is SqliteError) ==> text@ == self.wording(),
    {
        match self {
            StoreError::SqliteError(e) => {
                let mut text = String::from_str("Database error: ");
                let detail = error_text(e);
                text.append(detail.as_str());
                text
            },
            StoreError::TagAlreadyExists(t) => {
                let mut text = String::from_str("Tag \"");
                text.append(t.as_str());
                text.append("\" already exists");
                text
            },
            StoreError::TagDoesNotExist(t) => {
                let mut text = String::from_str("Tag \"");
                text.append(t.as_str());
                text.append("\" does not exist");
                text
            },
            StoreError::FileDoesNotExist(p) => {
                let mut text = String::from_str("File not found in database: ");
                text.append(p.as_str());
                text
            },
            StoreError::CouldNotDetermineMediaTagPath => String::from_str(
                "Failed to determine library root path",
            ),
            StoreError::StripPrefixError => String::from_str(
                "Path is not inside library root: prefix not found",
            ),
            StoreError::InvalidPathEncoding(p) => {
                let mut text = String::from_str("Path contains invalid UTF-8 characters: ");
                let shown = display_text(p.as_slice());
                text.append(shown.as_str());
                text
            },
        }
    }
}

} // verus!
