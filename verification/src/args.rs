//! Arguments that name files and tags in one list.

use vstd::prelude::*;

verus! {

/// Keeps the name of an argument that is marked as a file when `files` is
/// true, or as none when it is false.
pub open spec fn named(files: bool) -> spec_fn((String, bool)) -> Option<String> {
    |parameter: (String, bool)|
        if parameter.1 == files {
            Some(parameter.0)
        } else {
            None
        }
}

/// The arguments that are marked as files when `files` is true, and those
/// that are not when it is false, in the order in which they were given.
pub open spec fn chosen(parameters: Seq<(String, bool)>, files: bool) -> Seq<String> {
    parameters.filter_map(named(files))
}

/// Parts a list of arguments into paths and tags. Each argument comes with
/// the answer to the question whether a file of that name exists: those with
/// a file are paths, the others are tags. Both lists keep the order of the
/// arguments.
pub fn parse_args(parameters: Vec<(String, bool)>) -> (parted: (Vec<String>, Vec<String>))
    ensures
        parted.0@ == chosen(parameters@, true),
        parted.1@ == chosen(parameters@, false),
{
    let ghost is_path = named(true);
    let ghost is_tag = named(false);
    let mut paths: Vec<String> = Vec::new();
    let mut tags: Vec<String> = Vec::new();
    let mut i: usize = 0;
    assert(parameters@.take(0).filter_map(is_path) == Seq::<String>::empty());
    assert(parameters@.take(0).filter_map(is_tag) == Seq::<String>::empty());
    while i < parameters.len()
        invariant
            0 <= i <= parameters.len(),
            is_path == named(true),
            is_tag == named(false),
            paths@ == parameters@.take(i as int).filter_map(is_path),
            tags@ == parameters@.take(i as int).filter_map(is_tag),
        decreases parameters.len() - i,
    {
        proof {
            parameters@.lemma_filter_map_take_succ(is_path, i as int);
            parameters@.lemma_filter_map_take_succ(is_tag, i as int);
        }
        if parameters[i].1 {
            paths.push(parameters[i].0.clone());
        } else {
            tags.push(parameters[i].0.clone());
        }
        i += 1;
    }
    assert(parameters@.take(i as int) == parameters@);
    (paths, tags)
}

} // verus!
