//! What a store holds, read out in one piece, and the queries over it.

use std::collections::HashMap;
use vstd::prelude::*;
use vstd::string::StringSliceAdditionalSpecFns;
use vstd::utf8::encode_utf8_decode_utf8;
use crate::path::same_bytes;

verus! {

broadcast use vstd::std_specs::hash::group_hash_axioms;

/// A named label that can be attached to any number of media.
#[derive(Debug)]
pub struct Tag {
    pub id: i64,
    pub name: String,
}

/// A tracked file: its id, its absolute path, and the ids of its tags.
#[derive(Clone, Debug)]
pub struct Medium {
    pub id: i64,
    pub path: Vec<u8>,
    pub tags: Vec<i64>,
}

/// All tags by id, and all media with the tags they carry.
#[derive(Debug)]
pub struct MediaTags {
    pub tags: HashMap<i64, String>,
    pub media: Vec<Medium>,
}

/// How the wanted tags of a query combine.
#[derive(Clone, Copy, Debug, PartialEq, Eq, Structural)]
pub enum MatchMode {
    /// A medium must carry every wanted tag.
    All,
    /// A medium must carry one wanted tag at least; with nothing wanted,
    /// every medium will do.
    Any,
}

/// A medium with tags `ids` carries the tag called `name`: one of its ids
/// has that name. An id without a name carries nothing.
pub open spec fn carries(names: Map<i64, String>, ids: Seq<i64>, name: Seq<char>) -> bool {
    exists|i: int| 0 <= i < ids.len() && #[trigger] names.contains_key(ids[i]) && names[ids[i]]@ == name
}

/// The medium carries every tag in `wanted`.
pub open spec fn carries_all(names: Map<i64, String>, ids: Seq<i64>, wanted: Seq<String>) -> bool {
    forall|j: int| 0 <= j < wanted.len() ==> carries(names, ids, #[trigger] wanted[j]@)
}

/// The medium carries some tag in `wanted`.
pub open spec fn carries_any(names: Map<i64, String>, ids: Seq<i64>, wanted: Seq<String>) -> bool {
    exists|j: int| 0 <= j < wanted.len() && carries(names, ids, #[trigger] wanted[j]@)
}

/// The medium answers the query: it carries what is wanted in the way that
/// `mode` asks, and nothing that is excluded.
pub open spec fn selected(
    names: Map<i64, String>,
    ids: Seq<i64>,
    required: Seq<String>,
    excluded: Seq<String>,
    mode: MatchMode,
) -> bool {
    let wanted = match mode {
        MatchMode::All => carries_all(names, ids, required),
        MatchMode::Any => required.len() == 0 || carries_any(names, ids, required),
    };
    wanted && !carries_any(names, ids, excluded)
}

/// The name of `id`, where it has one.
pub open spec fn name_of(names: Map<i64, String>, id: i64) -> Option<String> {
    if names.contains_key(id) {
        Some(names[id])
    } else {
        None
    }
}

/// The names of the tags `ids`, in their order; ids without a name are
/// passed over.
pub open spec fn names_of(names: Map<i64, String>, ids: Seq<i64>) -> Seq<String> {
    ids.filter_map(|id: i64| name_of(names, id))
}

/// True when the two texts are the same.
pub fn same_text(a: &str, b: &str) -> (same: bool)
    ensures
        same == (a@ == b@),
{
    proof {
        encode_utf8_decode_utf8(a@);
        encode_utf8_decode_utf8(b@);
    }
    same_bytes(a.as_bytes(), b.as_bytes())
}

/// A query that asks for nothing and excludes nothing is answered by every
/// medium, in either mode.
pub proof fn lemma_empty_query_selects_all(data: MediaTags, mode: MatchMode)
    ensures
        data.selection(Seq::empty(), Seq::empty(), mode) == data.media@,
{
    let none = Seq::<String>::empty();
    let keep = |m: Medium| selected(data.tags@, m.tags@, none, none, mode);
    assert forall|m: Medium| #[trigger] keep(m) by {}
    lemma_filter_keeps_all(data.media@, keep);
}

/// A filter that every member passes changes nothing.
proof fn lemma_filter_keeps_all(media: Seq<Medium>, keep: spec_fn(Medium) -> bool)
    requires
        forall|m: Medium| #[trigger] keep(m),
    ensures
        media.filter(keep) == media,
    decreases media.len(),
{
    reveal(Seq::filter);
    if media.len() > 0 {
        lemma_filter_keeps_all(media.drop_last(), keep);
        assert(media.drop_last().push(media.last()) == media);
    }
}

impl MediaTags {
    /// The media that answer the query, in the order in which they are held.
    pub open spec fn selection(
        self,
        required: Seq<String>,
        excluded: Seq<String>,
        mode: MatchMode,
    ) -> Seq<Medium> {
        self.media@.filter(|m: Medium| selected(self.tags@, m.tags@, required, excluded, mode))
    }

    /// True when `medium` carries the tag called `name`.
    pub fn has_tag(&self, medium: &Medium, name: &str) -> (found: bool)
        ensures
            found == carries(self.tags@, medium.tags@, name@),
    {
        let mut i: usize = 0;
        while i < medium.tags.len()
            invariant
                0 <= i <= medium.tags.len(),
                forall|k: int|
                    0 <= k < i ==> !(#[trigger] self.tags@.contains_key(medium.tags@[k])
                        && self.tags@[medium.tags@[k]]@ == name@),
            decreases medium.tags.len() - i,
        {
            match self.tags.get(&medium.tags[i]) {
                Some(stored) => {
                    if same_text(stored.as_str(), name) {
                        assert(self.tags@.contains_key(medium.tags@[i as int]));
                        return true;
                    }
                },
                None => {},
            }
            i += 1;
        }
        false
    }

    /// True when `medium` carries one of the tags in `wanted`.
    pub fn has_any(&self, medium: &Medium, wanted: &Vec<String>) -> (found: bool)
        ensures
            found == carries_any(self.tags@, medium.tags@, wanted@),
    {
        let mut j: usize = 0;
        while j < wanted.len()
            invariant
                0 <= j <= wanted.len(),
                forall|k: int|
                    0 <= k < j ==> !carries(self.tags@, medium.tags@, #[trigger] wanted@[k]@),
            decreases wanted.len() - j,
        {
            if self.has_tag(medium, wanted[j].as_str()) {
                return true;
            }
            j += 1;
        }
        false
    }

    /// True when `medium` carries all of the tags in `wanted`.
    pub fn has_all(&self, medium: &Medium, wanted: &Vec<String>) -> (found: bool)
        ensures
            found == carries_all(self.tags@, medium.tags@, wanted@),
    {
        let mut j: usize = 0;
        while j < wanted.len()
            invariant
                0 <= j <= wanted.len(),
                forall|k: int|
                    0 <= k < j ==> carries(self.tags@, medium.tags@, #[trigger] wanted@[k]@),
            decreases wanted.len() - j,
        {
            if !self.has_tag(medium, wanted[j].as_str()) {
                return false;
            }
            j += 1;
        }
        true
    }

    /// True when `medium` answers the query.
    pub fn matches(
        &self,
        medium: &Medium,
        required: &Vec<String>,
        excluded: &Vec<String>,
        mode: MatchMode,
    ) -> (found: bool)
        ensures
            found == selected(self.tags@, medium.tags@, required@, excluded@, mode),
    {
        let wanted = match mode {
            MatchMode::All => self.has_all(medium, required),
            MatchMode::Any => required.len() == 0 || self.has_any(medium, required),
        };
        wanted && !self.has_any(medium, excluded)
    }

    /// The media that answer the query, in the order in which they are held.
    pub fn search(&self, required: &Vec<String>, excluded: &Vec<String>, mode: MatchMode) -> (found:
        Vec<&Medium>)
        ensures
            found@.map_values(|m: &Medium| *m) == self.selection(required@, excluded@, mode),
    {
        let ghost keep = |m: Medium| selected(self.tags@, m.tags@, required@, excluded@, mode);
        let ghost held = |m: &Medium| *m;
        let mut found: Vec<&Medium> = Vec::new();
        let mut i: usize = 0;
        proof {
            reveal(Seq::filter);
            assert(self.media@.take(0) == Seq::<Medium>::empty());
            assert(found@.map_values(held) == Seq::<Medium>::empty());
        }
        while i < self.media.len()
            invariant
                0 <= i <= self.media.len(),
                keep == |m: Medium| selected(self.tags@, m.tags@, required@, excluded@, mode),
                held == |m: &Medium| *m,
                found@.map_values(held) == self.media@.take(i as int).filter(keep),
            decreases self.media.len() - i,
        {
            let medium = &self.media[i];
            proof {
                assert(self.media@.take(i + 1) == self.media@.take(i as int).push(*medium));
                self.media@.take(i as int).lemma_filter_push(*medium, keep);
            }
            if self.matches(medium, required, excluded, mode) {
                let ghost before = found@;
                found.push(medium);
                assert(found@.map_values(held) == before.map_values(held).push(*medium));
            }
            i += 1;
        }
        assert(self.media@.take(i as int) == self.media@);
        found
    }

    /// The names of the tags that `medium` carries.
    pub fn tag_names(&self, medium: &Medium) -> (out: Vec<String>)
        ensures
            out@ == names_of(self.tags@, medium.tags@),
    {
        let ghost name = |id: i64| name_of(self.tags@, id);
        let mut out: Vec<String> = Vec::new();
        let mut i: usize = 0;
        assert(medium.tags@.take(0).filter_map(name) == Seq::<String>::empty());
        while i < medium.tags.len()
            invariant
                0 <= i <= medium.tags.len(),
                name == |id: i64| name_of(self.tags@, id),
                out@ == medium.tags@.take(i as int).filter_map(name),
            decreases medium.tags.len() - i,
        {
            proof {
                medium.tags@.lemma_filter_map_take_succ(name, i as int);
            }
            match self.tags.get(&medium.tags[i]) {
                Some(stored) => {
                    out.push(stored.clone());
                },
                None => {},
            }
            i += 1;
        }
        assert(medium.tags@.take(i as int) == medium.tags@);
        out
    }
}

} // verus!
