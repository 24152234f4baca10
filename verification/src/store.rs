//! The store: tags, media and the links between them, kept in an SQLite
//! database next to the files they describe.
//!
//! The database does the storing, and what it answers depends on what it
//! holds. What is proved here is what a path alone decides of an operation,
//! and what the store makes of each answer of the database.

use std::collections::HashMap;
use vstd::prelude::*;
use vstd::string::StringSliceAdditionalSpecFns;
use vstd::utf8::{encode_utf8, valid_utf8};
use crate::error::StoreError;
use crate::model::{MediaTags, Medium, Tag};
use crate::path::{
    lies_under, parent, parent_directory, rejoin, rejoined, relative_part, resolve,
};
use crate::rows::{parse_tag_ids, tag_ids};
use crate::sqlite::{
    id_for_text, id_text_list_rows, id_text_rows, open, optional_id, run, run_batch, run_with_ids,
    run_with_text,
};

verus! {

broadcast use vstd::std_specs::hash::group_hash_axioms;

/// Creates the three tables, unless they are there: tags with unique names,
/// media with unique paths, and the links between the two, each at most once.
pub const CREATE_TABLES: &'static str = "CREATE TABLE IF NOT EXISTS tags (
    id INTEGER PRIMARY KEY,
    name TEXT NOT NULL UNIQUE
);
CREATE TABLE IF NOT EXISTS media (
    id INTEGER PRIMARY KEY,
    path TEXT NOT NULL UNIQUE
);
CREATE TABLE IF NOT EXISTS media_tags (
    media_id INTEGER NOT NULL REFERENCES media(id),
    tag_id INTEGER NOT NULL REFERENCES tags(id),
    UNIQUE (media_id, tag_id)
);";

/// Makes the database refuse links to tags or media that do not exist.
pub const ENFORCE_REFERENCES: &'static str = "PRAGMA foreign_keys = ON;";

/// Adds a tag, unless one has the name.
pub const INSERT_TAG: &'static str = "INSERT OR IGNORE INTO tags (name) VALUES (?1)";

/// All tags.
pub const SELECT_TAGS: &'static str = "SELECT id, name FROM tags";

/// The id of the medium at a path, which is added if it is not there.
pub const UPSERT_MEDIUM: &'static str = "INSERT INTO media (path) VALUES (?1)
             ON CONFLICT(path) DO UPDATE SET path=excluded.path
             RETURNING id";

/// The id of the tag of a name.
pub const SELECT_TAG_ID: &'static str = "SELECT id FROM tags WHERE name = ?1";

/// The id of the medium at a path.
pub const SELECT_MEDIUM_ID: &'static str = "SELECT id FROM media WHERE path = ?1";

/// Links a medium and a tag, unless they are linked.
pub const INSERT_LINK: &'static str = "INSERT OR IGNORE INTO media_tags(media_id, tag_id) VALUES (?1, ?2)";

/// Removes the link between a medium and a tag.
pub const DELETE_LINK: &'static str = "DELETE FROM media_tags WHERE media_id = ?1 AND tag_id = ?2";

/// All media, each with the ids of its tags in one comma-separated text.
pub const SELECT_MEDIA: &'static str = "SELECT m.id, m.path, GROUP_CONCAT(t.id, ',')
             FROM media m
             LEFT JOIN media_tags mt ON m.id = mt.media_id
             LEFT JOIN tags t ON mt.tag_id = t.id
             GROUP BY m.id";

/// What a request to add the tag `name` came to, given the number of rows
/// that the insertion changed: none means that the name was taken.
pub fn created(name: &str, changed: usize) -> (r: Result<(), StoreError>)
    ensures
        changed != 0 ==> r is Ok,
        changed == 0 ==> (r matches Err(StoreError::TagAlreadyExists(taken)) && taken@ == name@),
{
    if changed == 0 {
        Err(StoreError::TagAlreadyExists(name.to_owned()))
    } else {
        Ok(())
    }
}

/// What a lookup of an id came to: the id where one was found, `missing`
/// where none was, and the database's failure where it failed.
pub fn found_or(found: Result<Option<i64>, rusqlite::Error>, missing: StoreError) -> (r: Result<
    i64,
    StoreError,
>)
    ensures
        found matches Ok(Some(id)) ==> (r matches Ok(got) && got == id),
        found matches Ok(None) ==> (r matches Err(e) && e == missing),
        found matches Err(failure) ==> (r matches Err(StoreError::SqliteError(e)) && e == failure),
{
    match found {
        Ok(Some(id)) => Ok(id),
        Ok(None) => Err(missing),
        Err(e) => Err(StoreError::SqliteError(e)),
    }
}

/// What a statement that only changes rows came to.
pub fn done(changed: Result<usize, rusqlite::Error>) -> (r: Result<(), StoreError>)
    ensures
        changed is Ok ==> r is Ok,
        changed matches Err(failure) ==> (r matches Err(StoreError::SqliteError(e)) && e == failure),
{
    match changed {
        Ok(_) => Ok(()),
        Err(e) => Err(StoreError::SqliteError(e)),
    }
}

/// The tags that rows of id and name stand for, in the order of the rows.
pub open spec fn tags_from(rows: Seq<(i64, String)>) -> Seq<Tag> {
    rows.map_values(|row: (i64, String)| Tag { id: row.0, name: row.1 })
}

/// Reads rows of id and name as tags.
pub fn tags_of_rows(rows: &Vec<(i64, String)>) -> (tags: Vec<Tag>)
    ensures
        tags@ == tags_from(rows@),
{
    let mut tags: Vec<Tag> = Vec::new();
    let mut i: usize = 0;
    while i < rows.len()
        invariant
            0 <= i <= rows.len(),
            tags@ == tags_from(rows@.take(i as int)),
        decreases rows.len() - i,
    {
        tags.push(Tag { id: rows[i].0, name: rows[i].1.clone() });
        assert(rows@.take(i + 1) == rows@.take(i as int).push(rows@[i as int]));
        i += 1;
    }
    assert(rows@.take(i as int) == rows@);
    tags
}

/// The names of the tags by id. Where two tags share an id, the later one
/// gives the name.
pub open spec fn names_by_id(tags: Seq<Tag>) -> Map<i64, String>
    decreases tags.len(),
{
    if tags.len() == 0 {
        Map::empty()
    } else {
        names_by_id(tags.drop_last()).insert(tags.last().id, tags.last().name)
    }
}

/// Maps the id of each tag to its name.
pub fn tag_id_map(tags: &Vec<Tag>) -> (names: HashMap<i64, String>)
    ensures
        names@ == names_by_id(tags@),
{
    let mut names: HashMap<i64, String> = HashMap::new();
    let mut i: usize = 0;
    while i < tags.len()
        invariant
            0 <= i <= tags.len(),
            names@ == names_by_id(tags@.take(i as int)),
        decreases tags.len() - i,
    {
        names.insert(tags[i].id, tags[i].name.clone());
        assert(tags@.take(i + 1).drop_last() == tags@.take(i as int));
        i += 1;
    }
    assert(tags@.take(i as int) == tags@);
    names
}

/// `medium` is what `row` stands for below `root`: the row's id, its path
/// appended to the root, and the ids that its list of tags holds, none where
/// it has no list.
pub open spec fn stands_for(root: Seq<u8>, row: (i64, String, Option<String>), medium: Medium) -> bool {
    &&& medium.id == row.0
    &&& medium.path@ == rejoined(root, encode_utf8(row.1@))
    &&& medium.tags@ == match row.2 {
        Some(list) => tag_ids(encode_utf8(list@)),
        None => Seq::empty(),
    }
}

/// `media` are what `rows` stand for below `root`, one for one.
pub open spec fn read_from(
    root: Seq<u8>,
    rows: Seq<(i64, String, Option<String>)>,
    media: Seq<Medium>,
) -> bool {
    &&& media.len() == rows.len()
    &&& forall|i: int| 0 <= i < rows.len() ==> stands_for(root, #[trigger] rows[i], media[i])
}

/// Reads rows of id, root-relative path and list of tag ids as media.
pub fn media_of_rows(root: &[u8], rows: &Vec<(i64, String, Option<String>)>) -> (media: Vec<Medium>)
    ensures
        read_from(root@, rows@, media@),
{
    let mut media: Vec<Medium> = Vec::new();
    let mut i: usize = 0;
    while i < rows.len()
        invariant
            0 <= i <= rows.len(),
            media.len() == i,
            forall|k: int| 0 <= k < i ==> stands_for(root@, #[trigger] rows[k], media[k]),
        decreases rows.len() - i,
    {
        let path = rejoin(root, rows[i].1.as_str().as_bytes());
        let tags = match &rows[i].2 {
            Some(list) => parse_tag_ids(list.as_str().as_bytes()),
            None => Vec::new(),
        };
        media.push(Medium { id: rows[i].0, path, tags });
        i += 1;
    }
    media
}

/// A store of tags for the files below one root directory.
pub struct MediaTag {
    connection: rusqlite::Connection,
    root: Vec<u8>,
}

/// What a path alone decides of an operation on it: a path that does not
/// lie below the root is refused as such, whatever else was asked, and so is
/// one whose root-relative part is not UTF-8, with that part in the error.
pub open spec fn path_checked(root: Seq<u8>, path: Seq<u8>, r: Result<(), StoreError>) -> bool {
    &&& (r matches Err(StoreError::StripPrefixError)) <==> !lies_under(root, path)
    &&& (r matches Err(StoreError::InvalidPathEncoding(_))) <==> lies_under(root, path)
        && !valid_utf8(relative_part(root, path))
    &&& r matches Err(StoreError::InvalidPathEncoding(rel)) ==> rel@ == relative_part(root, path)
}

impl MediaTag {
    /// The root directory: paths in the store are relative to it.
    pub closed spec fn root(&self) -> Seq<u8> {
        self.root@
    }

    /// Opens the store at `location`, creating it if there is none, for the
    /// files below `root`: the directory that holds the store, in canonical
    /// form. A location that names no file in any directory is refused
    /// before anything is opened.
    pub fn new(location: &str, root: &[u8]) -> (r: Result<MediaTag, StoreError>)
        ensures
            (r matches Err(StoreError::CouldNotDetermineMediaTagPath)) <==> parent(
                encode_utf8(location@),
            ) is None,
            r matches Ok(store) ==> store.root() == root@,
            r matches Err(e) ==> e is SqliteError || e is CouldNotDetermineMediaTagPath,
    {
        match parent_directory(location.as_bytes()) {
            Ok(_) => {},
            Err(e) => {
                return Err(e);
            },
        }
        let connection = match open(location) {
            Ok(connection) => connection,
            Err(e) => {
                return Err(StoreError::SqliteError(e));
            },
        };
        match run_batch(&connection, CREATE_TABLES) {
            Ok(_) => {},
            Err(e) => {
                return Err(StoreError::SqliteError(e));
            },
        }
        match run(&connection, ENFORCE_REFERENCES) {
            Ok(_) => {},
            Err(e) => {
                return Err(StoreError::SqliteError(e));
            },
        }
        let mut held: Vec<u8> = Vec::new();
        crate::path::append_bytes(&mut held, root);
        Ok(MediaTag { connection, root: held })
    }

    /// The root directory.
    pub fn root_path(&self) -> (root: &[u8])
        ensures
            root@ == self.root(),
    {
        self.root.as_slice()
    }

    /// The root-relative form of `path`, as the store records it.
    fn resolve_path_to_db_string(&self, path: &[u8]) -> (r: Result<String, StoreError>)
        ensures
            match r {
                Ok(text) => {
                    &&& lies_under(self.root(), path@)
                    &&& valid_utf8(relative_part(self.root(), path@))
                    &&& encode_utf8(text@) == relative_part(self.root(), path@)
                },
                Err(StoreError::StripPrefixError) => !lies_under(self.root(), path@),
                Err(StoreError::InvalidPathEncoding(rel)) => {
                    &&& lies_under(self.root(), path@)
                    &&& !valid_utf8(relative_part(self.root(), path@))
                    &&& rel@ == relative_part(self.root(), path@)
                },
                Err(_) => false,
            },
    {
        resolve(self.root.as_slice(), path)
    }

    /// Adds a tag called `name`. A name that is taken is an error.
    pub fn create_tag(&self, name: &str) -> (r: Result<(), StoreError>)
        ensures
            r matches Err(e) ==> e is SqliteError || (e matches StoreError::TagAlreadyExists(taken)
                && taken@ == name@),
    {
        match run_with_text(&self.connection, INSERT_TAG, name) {
            Ok(changed) => created(name, changed),
            Err(e) => Err(StoreError::SqliteError(e)),
        }
    }

    /// All tags.
    pub fn get_tags(&self) -> (r: Result<Vec<Tag>, StoreError>)
        ensures
            r matches Err(e) ==> e is SqliteError,
    {
        match id_text_rows(&self.connection, SELECT_TAGS) {
            Ok(rows) => Ok(tags_of_rows(&rows)),
            Err(e) => Err(StoreError::SqliteError(e)),
        }
    }

    /// The names of all tags by id.
    pub fn get_tag_id_map(&self) -> (r: Result<HashMap<i64, String>, StoreError>)
        ensures
            r matches Err(e) ==> e is SqliteError,
    {
        match self.get_tags() {
            Ok(tags) => Ok(tag_id_map(&tags)),
            Err(e) => Err(e),
        }
    }

    /// The id of the medium at the root-relative `path`, which is recorded
    /// if it was not.
    fn get_medium_id_or_insert(&self, path: &str) -> (r: Result<i64, StoreError>)
        ensures
            r matches Err(e) ==> e is SqliteError,
    {
        match id_for_text(&self.connection, UPSERT_MEDIUM, path) {
            Ok(id) => Ok(id),
            Err(e) => Err(StoreError::SqliteError(e)),
        }
    }

    /// Attaches the tag called `tag_name` to the file at `path`, a canonical
    /// path. The tag must exist: it is looked up first, and where there is
    /// none, nothing is recorded. Then the file is recorded as a medium if
    /// it was not, and the two are linked. Attaching a tag that the file
    /// carries changes nothing.
    pub fn add_tag(&self, path: &[u8], tag_name: &str) -> (r: Result<(), StoreError>)
        ensures
            path_checked(self.root(), path@, r),
            r matches Err(StoreError::TagDoesNotExist(missing)) ==> missing@ == tag_name@,
            r matches Err(e) ==> e is StripPrefixError || e is InvalidPathEncoding
                || e is SqliteError || e is TagDoesNotExist,
    {
        let relative = match self.resolve_path_to_db_string(path) {
            Ok(relative) => relative,
            Err(e) => {
                return Err(e);
            },
        };
        let found = optional_id(id_for_text(&self.connection, SELECT_TAG_ID, tag_name));
        let tag_id = match found_or(found, StoreError::TagDoesNotExist(tag_name.to_owned())) {
            Ok(id) => id,
            Err(e) => {
                return Err(e);
            },
        };
        let medium_id = match self.get_medium_id_or_insert(relative.as_str()) {
            Ok(id) => id,
            Err(e) => {
                return Err(e);
            },
        };
        done(run_with_ids(&self.connection, INSERT_LINK, medium_id, tag_id))
    }

    /// Takes the tag called `tag_name` off the file at `path`, a canonical
    /// path. The file must be a medium of the store and the tag must exist;
    /// taking off a tag that the file does not carry changes nothing.
    pub fn remove_tag(&self, path: &[u8], tag_name: &str) -> (r: Result<(), StoreError>)
        ensures
            path_checked(self.root(), path@, r),
            r matches Err(StoreError::FileDoesNotExist(missing)) ==> encode_utf8(missing@)
                == relative_part(self.root(), path@),
            r matches Err(StoreError::TagDoesNotExist(missing)) ==> missing@ == tag_name@,
            r matches Err(e) ==> e is StripPrefixError || e is InvalidPathEncoding
                || e is SqliteError || e is FileDoesNotExist || e is TagDoesNotExist,
    {
        let relative = match self.resolve_path_to_db_string(path) {
            Ok(relative) => relative,
            Err(e) => {
                return Err(e);
            },
        };
        let found = optional_id(id_for_text(&self.connection, SELECT_MEDIUM_ID, relative.as_str()));
        let medium_id = match found_or(found, StoreError::FileDoesNotExist(relative)) {
            Ok(id) => id,
            Err(e) => {
                return Err(e);
            },
        };
        let found = optional_id(id_for_text(&self.connection, SELECT_TAG_ID, tag_name));
        let tag_id = match found_or(found, StoreError::TagDoesNotExist(tag_name.to_owned())) {
            Ok(id) => id,
            Err(e) => {
                return Err(e);
            },
        };
        done(run_with_ids(&self.connection, DELETE_LINK, medium_id, tag_id))
    }

    /// All tags by id, and all media with their absolute paths and the ids
    /// of the tags they carry. Each medium stands for one row of the
    /// database: its path is the root with the recorded path appended.
    pub fn load_media_tag(&self) -> (r: Result<MediaTags, StoreError>)
        ensures
            match r {
                Ok(data) => exists|rows: Seq<(i64, String, Option<String>)>| #[trigger]
                    read_from(self.root(), rows, data.media@),
                Err(e) => e is SqliteError,
            },
    {
        let tags = match self.get_tag_id_map() {
            Ok(tags) => tags,
            Err(e) => {
                return Err(e);
            },
        };
        let rows = match id_text_list_rows(&self.connection, SELECT_MEDIA) {
            Ok(rows) => rows,
            Err(e) => {
                return Err(StoreError::SqliteError(e));
            },
        };
        let media = media_of_rows(self.root.as_slice(), &rows);
        let ghost read = media@;
        let r: Result<MediaTags, StoreError> = Ok(MediaTags { tags, media });
        assert(read_from(self.root(), rows@, r->Ok_0.media@)) by {
            assert(r->Ok_0.media@ == read);
        }
        r
    }
}

} // verus!
