use media_tag_lib::model::same_text;
use media_tag_lib::{parse_args, MatchMode, MediaTags, Medium};
use std::collections::HashMap;

fn names(list: &[&str]) -> Vec<String> {
    list.iter().map(|s| s.to_string()).collect()
}

/// Media `A` with the tags x and y, `B` with y, `C` with none.
fn sample() -> MediaTags {
    let mut tags = HashMap::new();
    tags.insert(1, "x".to_string());
    tags.insert(2, "y".to_string());
    MediaTags {
        tags,
        media: vec![
            Medium { id: 10, path: b"/root/A".to_vec(), tags: vec![1, 2] },
            Medium { id: 11, path: b"/root/B".to_vec(), tags: vec![2] },
            Medium { id: 12, path: b"/root/C".to_vec(), tags: vec![] },
        ],
    }
}

fn found_ids(data: &MediaTags, required: &[&str], excluded: &[&str], mode: MatchMode) -> Vec<i64> {
    data.search(&names(required), &names(excluded), mode).iter().map(|m| m.id).collect()
}

#[test]
fn all_of_x_and_y_finds_a() {
    assert_eq!(found_ids(&sample(), &["x", "y"], &[], MatchMode::All), vec![10]);
}

#[test]
fn any_of_x_finds_a() {
    assert_eq!(found_ids(&sample(), &["x"], &[], MatchMode::Any), vec![10]);
}

#[test]
fn all_of_nothing_without_y_finds_c() {
    assert_eq!(found_ids(&sample(), &[], &["y"], MatchMode::All), vec![12]);
}

#[test]
fn any_of_nothing_finds_everything() {
    assert_eq!(found_ids(&sample(), &[], &[], MatchMode::Any), vec![10, 11, 12]);
}

#[test]
fn all_of_nothing_finds_everything() {
    assert_eq!(found_ids(&sample(), &[], &[], MatchMode::All), vec![10, 11, 12]);
}

#[test]
fn any_of_x_or_y_finds_a_and_b_in_order() {
    assert_eq!(found_ids(&sample(), &["x", "y"], &[], MatchMode::Any), vec![10, 11]);
    assert_eq!(found_ids(&sample(), &["y", "x"], &[], MatchMode::Any), vec![10, 11]);
}

#[test]
fn exclusion_wins_over_a_match() {
    assert_eq!(found_ids(&sample(), &["y"], &["x"], MatchMode::All), vec![11]);
    assert_eq!(found_ids(&sample(), &["y"], &["x"], MatchMode::Any), vec![11]);
    assert_eq!(found_ids(&sample(), &["x"], &["x"], MatchMode::Any), Vec::<i64>::new());
}

#[test]
fn an_unknown_name_matches_nothing() {
    assert_eq!(found_ids(&sample(), &["z"], &[], MatchMode::All), Vec::<i64>::new());
    assert_eq!(found_ids(&sample(), &["z"], &[], MatchMode::Any), Vec::<i64>::new());
    assert_eq!(found_ids(&sample(), &[], &["z"], MatchMode::All), vec![10, 11, 12]);
}

#[test]
fn an_id_without_a_name_matches_nothing() {
    let mut data = sample();
    data.media.push(Medium { id: 13, path: b"/root/D".to_vec(), tags: vec![99] });
    assert_eq!(found_ids(&data, &["x"], &[], MatchMode::Any), vec![10]);
    assert_eq!(found_ids(&data, &[], &["x"], MatchMode::Any), vec![11, 12, 13]);
    assert!(!data.has_tag(&data.media[3], ""));
    assert_eq!(data.tag_names(&data.media[3]), Vec::<String>::new());
}

#[test]
fn search_hands_out_the_media_themselves() {
    let data = sample();
    let found = data.search(&names(&["y"]), &names(&[]), MatchMode::All);
    assert_eq!(found.len(), 2);
    assert_eq!(found[0].path, b"/root/A".to_vec());
    assert_eq!(found[0].tags, vec![1, 2]);
    assert_eq!(found[1].path, b"/root/B".to_vec());
}

#[test]
fn has_tag_has_any_has_all() {
    let data = sample();
    let a = &data.media[0];
    let b = &data.media[1];
    assert!(data.has_tag(a, "x"));
    assert!(!data.has_tag(b, "x"));
    assert!(data.has_any(b, &names(&["x", "y"])));
    assert!(!data.has_all(b, &names(&["x", "y"])));
    assert!(data.has_all(a, &names(&["x", "y"])));
    assert!(data.has_all(b, &names(&[])));
    assert!(!data.has_any(b, &names(&[])));
    assert!(data.matches(a, &names(&["x"]), &names(&[]), MatchMode::All));
    assert!(!data.matches(a, &names(&["x"]), &names(&["y"]), MatchMode::All));
}

#[test]
fn tag_names_follow_the_ids() {
    let data = sample();
    assert_eq!(data.tag_names(&data.media[0]), names(&["x", "y"]));
    assert_eq!(data.tag_names(&data.media[1]), names(&["y"]));
    assert_eq!(data.tag_names(&data.media[2]), Vec::<String>::new());
    let mixed = Medium { id: 1, path: Vec::new(), tags: vec![2, 7, 1] };
    assert_eq!(data.tag_names(&mixed), names(&["y", "x"]));
}

#[test]
fn same_text_compares_characters() {
    assert!(same_text("caf\u{e9}", "caf\u{e9}"));
    assert!(!same_text("cafe", "caf\u{e9}"));
    assert!(same_text("", ""));
    assert!(!same_text("a", "a "));
}

#[test]
fn parse_args_parts_paths_from_tags() {
    let given = vec![
        ("a.jpg".to_string(), true),
        ("holiday".to_string(), false),
        ("b.jpg".to_string(), true),
        ("sea".to_string(), false),
    ];
    let (paths, tags) = parse_args(given);
    assert_eq!(paths, names(&["a.jpg", "b.jpg"]));
    assert_eq!(tags, names(&["holiday", "sea"]));
}

#[test]
fn parse_args_of_nothing() {
    let (paths, tags) = parse_args(Vec::new());
    assert!(paths.is_empty());
    assert!(tags.is_empty());
    let (paths, tags) = parse_args(vec![("only".to_string(), false)]);
    assert!(paths.is_empty());
    assert_eq!(tags, names(&["only"]));
}
