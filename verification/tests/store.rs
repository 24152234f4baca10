use media_tag_lib::store::{created, done, found_or, media_of_rows, tag_id_map, tags_of_rows};
use media_tag_lib::{MediaTag, MediaTags, StoreError, Tag};

fn fresh() -> MediaTag {
    MediaTag::new(":memory:", b"/root").unwrap()
}

fn links(data: &MediaTags) -> Vec<(i64, i64)> {
    let mut all = Vec::new();
    for medium in &data.media {
        for tag in &medium.tags {
            all.push((medium.id, *tag));
        }
    }
    all.sort();
    all
}

fn tag_rows(store: &MediaTag) -> Vec<(i64, String)> {
    let mut rows: Vec<(i64, String)> =
        store.get_tags().unwrap().into_iter().map(|t| (t.id, t.name)).collect();
    rows.sort();
    rows
}

fn media_rows(store: &MediaTag) -> Vec<(i64, Vec<u8>)> {
    let mut rows: Vec<(i64, Vec<u8>)> =
        store.load_media_tag().unwrap().media.into_iter().map(|m| (m.id, m.path)).collect();
    rows.sort();
    rows
}

#[test]
fn a_fresh_store_is_empty() {
    let store = fresh();
    assert!(store.get_tags().unwrap().is_empty());
    assert!(store.get_tag_id_map().unwrap().is_empty());
    let data = store.load_media_tag().unwrap();
    assert!(data.tags.is_empty());
    assert!(data.media.is_empty());
    assert_eq!(store.root_path(), b"/root");
}

#[test]
fn one_tag_on_one_file() {
    let store = fresh();
    store.create_tag("vacation").unwrap();
    store.add_tag(b"/root/img.jpg", "vacation").unwrap();
    let tags = store.get_tags().unwrap();
    assert_eq!(tags.len(), 1);
    assert_eq!(tags[0].name, "vacation");
    let data = store.load_media_tag().unwrap();
    assert_eq!(data.tags.len(), 1);
    assert_eq!(data.media.len(), 1);
    assert_eq!(data.media[0].path, b"/root/img.jpg".to_vec());
    assert_eq!(data.media[0].tags, vec![tags[0].id]);
    assert_eq!(links(&data).len(), 1);
    assert_eq!(data.tag_names(&data.media[0]), vec!["vacation".to_string()]);
}

#[test]
fn attaching_twice_is_attaching_once() {
    let store = fresh();
    store.create_tag("sea").unwrap();
    store.add_tag(b"/root/a.jpg", "sea").unwrap();
    let once = links(&store.load_media_tag().unwrap());
    let media_once = media_rows(&store);
    store.add_tag(b"/root/a.jpg", "sea").unwrap();
    assert_eq!(links(&store.load_media_tag().unwrap()), once);
    assert_eq!(media_rows(&store), media_once);
    assert_eq!(once.len(), 1);
}

#[test]
fn detaching_what_is_not_attached_changes_nothing() {
    let store = fresh();
    store.create_tag("sea").unwrap();
    store.create_tag("sun").unwrap();
    store.add_tag(b"/root/a.jpg", "sea").unwrap();
    let before = links(&store.load_media_tag().unwrap());
    store.remove_tag(b"/root/a.jpg", "sun").unwrap();
    assert_eq!(links(&store.load_media_tag().unwrap()), before);
    assert_eq!(before.len(), 1);
}

#[test]
fn detaching_removes_only_the_link() {
    let store = fresh();
    store.create_tag("sea").unwrap();
    store.create_tag("sun").unwrap();
    store.add_tag(b"/root/a.jpg", "sea").unwrap();
    store.add_tag(b"/root/a.jpg", "sun").unwrap();
    store.add_tag(b"/root/b.jpg", "sea").unwrap();
    store.remove_tag(b"/root/a.jpg", "sea").unwrap();
    let data = store.load_media_tag().unwrap();
    assert_eq!(data.media.len(), 2);
    assert_eq!(data.tags.len(), 2);
    let a = data.media.iter().find(|m| m.path == b"/root/a.jpg".to_vec()).unwrap();
    let b = data.media.iter().find(|m| m.path == b"/root/b.jpg".to_vec()).unwrap();
    assert_eq!(data.tag_names(a), vec!["sun".to_string()]);
    assert_eq!(data.tag_names(b), vec!["sea".to_string()]);
    store.remove_tag(b"/root/a.jpg", "sea").unwrap();
    assert_eq!(links(&store.load_media_tag().unwrap()).len(), 2);
}

#[test]
fn a_taken_name_is_refused_and_nothing_changes() {
    let store = fresh();
    store.create_tag("sea").unwrap();
    let before = tag_rows(&store);
    match store.create_tag("sea") {
        Err(StoreError::TagAlreadyExists(name)) => assert_eq!(name, "sea"),
        other => panic!("unexpected {:?}", other),
    }
    assert_eq!(tag_rows(&store), before);
    assert_eq!(before.len(), 1);
}

#[test]
fn names_differ_by_every_character() {
    let store = fresh();
    store.create_tag("").unwrap();
    store.create_tag(" ").unwrap();
    store.create_tag("sea").unwrap();
    store.create_tag("Sea").unwrap();
    store.create_tag("sea ").unwrap();
    assert_eq!(store.get_tags().unwrap().len(), 5);
    assert!(matches!(store.create_tag(""), Err(StoreError::TagAlreadyExists(_))));
}

#[test]
fn tags_get_ids_of_their_own() {
    let store = fresh();
    store.create_tag("a").unwrap();
    store.create_tag("b").unwrap();
    let rows = tag_rows(&store);
    assert_eq!(rows.len(), 2);
    assert_ne!(rows[0].0, rows[1].0);
    let by_id = store.get_tag_id_map().unwrap();
    assert_eq!(by_id.len(), 2);
    for (id, name) in rows {
        assert_eq!(by_id.get(&id), Some(&name));
    }
}

#[test]
fn detaching_an_unknown_tag_is_refused_and_records_nothing() {
    let store = fresh();
    store.create_tag("sea").unwrap();
    store.add_tag(b"/root/a.jpg", "sea").unwrap();
    let media_before = media_rows(&store);
    let links_before = links(&store.load_media_tag().unwrap());
    match store.remove_tag(b"/root/a.jpg", "nope") {
        Err(StoreError::TagDoesNotExist(name)) => assert_eq!(name, "nope"),
        other => panic!("unexpected {:?}", other),
    }
    assert_eq!(media_rows(&store), media_before);
    assert_eq!(links(&store.load_media_tag().unwrap()), links_before);
    assert_eq!(tag_rows(&store).len(), 1);
}

#[test]
fn attaching_an_unknown_tag_is_refused_and_links_nothing() {
    let store = fresh();
    store.create_tag("sea").unwrap();
    store.add_tag(b"/root/a.jpg", "sea").unwrap();
    let media_before = media_rows(&store);
    let links_before = links(&store.load_media_tag().unwrap());
    match store.add_tag(b"/root/a.jpg", "nope") {
        Err(StoreError::TagDoesNotExist(name)) => assert_eq!(name, "nope"),
        other => panic!("unexpected {:?}", other),
    }
    assert_eq!(media_rows(&store), media_before);
    assert_eq!(links(&store.load_media_tag().unwrap()), links_before);
    assert_eq!(tag_rows(&store).len(), 1);
}

#[test]
fn attaching_an_unknown_tag_to_a_new_file_records_nothing() {
    let store = fresh();
    match store.add_tag(b"/root/new.jpg", "nope") {
        Err(StoreError::TagDoesNotExist(name)) => assert_eq!(name, "nope"),
        other => panic!("unexpected {:?}", other),
    }
    let data = store.load_media_tag().unwrap();
    assert!(data.media.is_empty());
    assert!(data.tags.is_empty());
    store.create_tag("sea").unwrap();
    assert!(matches!(store.add_tag(b"/root/new.jpg", "nope"), Err(StoreError::TagDoesNotExist(_))));
    assert!(store.load_media_tag().unwrap().media.is_empty());
    store.add_tag(b"/root/new.jpg", "sea").unwrap();
    assert_eq!(media_rows(&store).len(), 1);
}

#[test]
fn detaching_from_an_unknown_file_is_refused_and_records_nothing() {
    let store = fresh();
    store.create_tag("sea").unwrap();
    match store.remove_tag(b"/root/sub/never.jpg", "sea") {
        Err(StoreError::FileDoesNotExist(path)) => assert_eq!(path, "sub/never.jpg"),
        other => panic!("unexpected {:?}", other),
    }
    assert!(store.load_media_tag().unwrap().media.is_empty());
}

#[test]
fn an_unknown_file_is_reported_before_an_unknown_tag() {
    let store = fresh();
    assert!(matches!(
        store.remove_tag(b"/root/never.jpg", "nope"),
        Err(StoreError::FileDoesNotExist(_))
    ));
}

#[test]
fn a_path_outside_the_root_is_refused_whatever_the_tag() {
    let store = fresh();
    store.create_tag("sea").unwrap();
    for tag in ["sea", "nope", ""] {
        assert!(matches!(store.add_tag(b"/elsewhere/a.jpg", tag), Err(StoreError::StripPrefixError)));
        assert!(matches!(
            store.remove_tag(b"/elsewhere/a.jpg", tag),
            Err(StoreError::StripPrefixError)
        ));
        assert!(matches!(store.add_tag(b"/rootling/a.jpg", tag), Err(StoreError::StripPrefixError)));
        assert!(matches!(store.add_tag(b"relative/a.jpg", tag), Err(StoreError::StripPrefixError)));
    }
    assert!(store.load_media_tag().unwrap().media.is_empty());
}

#[test]
fn a_path_that_is_not_utf8_is_refused() {
    let store = fresh();
    store.create_tag("sea").unwrap();
    match store.add_tag(b"/root/\xff.jpg", "sea") {
        Err(StoreError::InvalidPathEncoding(rel)) => assert_eq!(rel, b"\xff.jpg".to_vec()),
        other => panic!("unexpected {:?}", other),
    }
    assert!(matches!(
        store.remove_tag(b"/root/\xff.jpg", "sea"),
        Err(StoreError::InvalidPathEncoding(_))
    ));
    assert!(store.load_media_tag().unwrap().media.is_empty());
}

#[test]
fn stored_paths_come_back_below_the_root() {
    let store = MediaTag::new(":memory:", b"/home/user/pictures").unwrap();
    store.create_tag("sea").unwrap();
    let paths: Vec<&[u8]> = vec![
        b"/home/user/pictures/a.jpg",
        b"/home/user/pictures/2024/b.jpg",
        "/home/user/pictures/caf\u{e9}/c d.jpg".as_bytes(),
    ];
    for path in &paths {
        store.add_tag(path, "sea").unwrap();
    }
    let mut stored: Vec<Vec<u8>> =
        store.load_media_tag().unwrap().media.into_iter().map(|m| m.path).collect();
    stored.sort();
    let mut given: Vec<Vec<u8>> = paths.iter().map(|p| p.to_vec()).collect();
    given.sort();
    assert_eq!(stored, given);
}

#[test]
fn many_tags_on_many_files() {
    let store = fresh();
    for name in ["x", "y"] {
        store.create_tag(name).unwrap();
    }
    store.add_tag(b"/root/A", "x").unwrap();
    store.add_tag(b"/root/A", "y").unwrap();
    store.add_tag(b"/root/B", "y").unwrap();
    store.add_tag(b"/root/C", "x").unwrap();
    store.remove_tag(b"/root/C", "x").unwrap();
    let data = store.load_media_tag().unwrap();
    assert_eq!(data.media.len(), 3);
    let by_path = |p: &[u8]| data.media.iter().find(|m| m.path == p.to_vec()).unwrap();
    let mut a = data.tag_names(by_path(b"/root/A"));
    a.sort();
    assert_eq!(a, vec!["x".to_string(), "y".to_string()]);
    assert_eq!(data.tag_names(by_path(b"/root/B")), vec!["y".to_string()]);
    assert_eq!(data.tag_names(by_path(b"/root/C")), Vec::<String>::new());
    let found: Vec<Vec<u8>> = data
        .search(&vec!["x".to_string(), "y".to_string()], &Vec::new(), media_tag_lib::MatchMode::All)
        .iter()
        .map(|m| m.path.clone())
        .collect();
    assert_eq!(found, vec![b"/root/A".to_vec()]);
}

#[test]
fn a_location_without_a_file_name_is_refused() {
    assert!(matches!(MediaTag::new("", b"/root"), Err(StoreError::CouldNotDetermineMediaTagPath)));
    assert!(matches!(MediaTag::new("/", b"/root"), Err(StoreError::CouldNotDetermineMediaTagPath)));
}

#[test]
fn a_location_that_cannot_be_opened_is_a_database_error() {
    match MediaTag::new("/no/such/directory/anywhere/.media_tag.db", b"/no/such/directory/anywhere") {
        Err(StoreError::SqliteError(_)) => {},
        Err(other) => panic!("unexpected {:?}", other),
        Ok(_) => panic!("opened"),
    }
}

#[test]
fn created_tells_a_new_tag_from_a_taken_name() {
    assert!(created("sea", 1).is_ok());
    assert!(created("sea", 2).is_ok());
    match created("sea", 0) {
        Err(StoreError::TagAlreadyExists(name)) => assert_eq!(name, "sea"),
        other => panic!("unexpected {:?}", other),
    }
}

#[test]
fn found_or_tells_the_three_answers_apart() {
    assert_eq!(found_or(Ok(Some(7)), StoreError::StripPrefixError).unwrap(), 7);
    match found_or(Ok(None), StoreError::TagDoesNotExist("sea".to_string())) {
        Err(StoreError::TagDoesNotExist(name)) => assert_eq!(name, "sea"),
        other => panic!("unexpected {:?}", other),
    }
    match found_or(Err(rusqlite::Error::InvalidQuery), StoreError::StripPrefixError) {
        Err(StoreError::SqliteError(e)) => assert_eq!(e, rusqlite::Error::InvalidQuery),
        other => panic!("unexpected {:?}", other),
    }
}

#[test]
fn done_keeps_the_failure() {
    assert!(done(Ok(0)).is_ok());
    assert!(done(Ok(3)).is_ok());
    match done(Err(rusqlite::Error::InvalidQuery)) {
        Err(StoreError::SqliteError(e)) => assert_eq!(e, rusqlite::Error::InvalidQuery),
        other => panic!("unexpected {:?}", other),
    }
}

#[test]
fn tags_of_rows_keeps_order_and_contents() {
    let rows = vec![(2, "b".to_string()), (1, "a".to_string())];
    let tags = tags_of_rows(&rows);
    assert_eq!(tags.len(), 2);
    assert_eq!((tags[0].id, tags[0].name.as_str()), (2, "b"));
    assert_eq!((tags[1].id, tags[1].name.as_str()), (1, "a"));
    assert!(tags_of_rows(&Vec::new()).is_empty());
}

#[test]
fn tag_id_map_lets_the_later_tag_win() {
    let tags = vec![
        Tag { id: 1, name: "a".to_string() },
        Tag { id: 2, name: "b".to_string() },
        Tag { id: 1, name: "c".to_string() },
    ];
    let names = tag_id_map(&tags);
    assert_eq!(names.len(), 2);
    assert_eq!(names.get(&1), Some(&"c".to_string()));
    assert_eq!(names.get(&2), Some(&"b".to_string()));
    assert!(tag_id_map(&Vec::new()).is_empty());
}

#[test]
fn media_of_rows_joins_paths_and_reads_lists() {
    let rows = vec![
        (5, "img.jpg".to_string(), Some("1,2".to_string())),
        (6, "sub/b.png".to_string(), None),
        (7, "".to_string(), Some("".to_string())),
        (8, "/abs".to_string(), Some("x,9".to_string())),
    ];
    let media = media_of_rows(b"/root", &rows);
    assert_eq!(media.len(), 4);
    assert_eq!(media[0].id, 5);
    assert_eq!(media[0].path, b"/root/img.jpg".to_vec());
    assert_eq!(media[0].tags, vec![1, 2]);
    assert_eq!(media[1].id, 6);
    assert_eq!(media[1].path, b"/root/sub/b.png".to_vec());
    assert!(media[1].tags.is_empty());
    assert_eq!(media[2].path, b"/root/".to_vec());
    assert!(media[2].tags.is_empty());
    assert_eq!(media[3].path, b"/abs".to_vec());
    assert_eq!(media[3].tags, vec![9]);
}
