//! Paths as byte strings: what lies below the root, the part of a path that
//! is relative to the root, and the way back.
//!
//! A path is a sequence of bytes in which `/` separates components. A
//! component is a maximal run of bytes that holds no separator; empty runs do
//! not count, so `/a//b/` has the components `a` and `b`. Callers hand in
//! paths that the file system has already made canonical.

use vstd::prelude::*;
use vstd::string::StringSliceAdditionalSpecFns;
use vstd::utf8::{encode_utf8, valid_utf8};
use crate::error::StoreError;
use crate::text::utf8_text;

verus! {

/// The byte that separates the components of a path.
pub const SEPARATOR: u8 = 47;

/// A path is absolute when it starts with a separator.
pub open spec fn is_absolute(p: Seq<u8>) -> bool {
    p.len() > 0 && p[0] == SEPARATOR
}

/// True when `p` ends in the middle of a component.
pub open spec fn ends_in_name(p: Seq<u8>) -> bool {
    p.len() > 0 && p.last() != SEPARATOR
}

/// The components of `p`, first to last. Read from the left, a separator ends
/// the component before it, any other byte extends the component it follows
/// or starts a new one.
pub open spec fn components(p: Seq<u8>) -> Seq<Seq<u8>>
    decreases p.len(),
{
    if p.len() == 0 {
        Seq::empty()
    } else {
        let before = components(p.drop_last());
        if p.last() == SEPARATOR {
            before
        } else if ends_in_name(p.drop_last()) {
            before.drop_last().push(before.last().push(p.last()))
        } else {
            before.push(seq![p.last()])
        }
    }
}

/// A component is a non-empty run of bytes without a separator.
pub open spec fn is_name(c: Seq<u8>) -> bool {
    c.len() > 0 && forall|i: int| 0 <= i < c.len() ==> c[i] != SEPARATOR
}

/// Every member of `cs` is a component.
pub open spec fn all_names(cs: Seq<Seq<u8>>) -> bool {
    forall|i: int| 0 <= i < cs.len() ==> is_name(#[trigger] cs[i])
}

/// The components written out with one separator between neighbours.
pub open spec fn joined(cs: Seq<Seq<u8>>) -> Seq<u8>
    decreases cs.len(),
{
    if cs.len() == 0 {
        Seq::empty()
    } else if cs.len() == 1 {
        cs[0]
    } else {
        joined(cs.drop_last()) + seq![SEPARATOR] + cs.last()
    }
}

/// Two paths name the same place when both are absolute or both are not and
/// their components agree.
pub open spec fn same_path(a: Seq<u8>, b: Seq<u8>) -> bool {
    is_absolute(a) == is_absolute(b) && components(a) == components(b)
}

/// `p` lies below `root` (or is `root`) when the components of `root` are the
/// first components of `p`.
pub open spec fn lies_under(root: Seq<u8>, p: Seq<u8>) -> bool {
    is_absolute(root) == is_absolute(p) && components(root).is_prefix_of(components(p))
}

/// The path that leads from `root` to `p`: the components of `p` that follow
/// those of `root`.
pub open spec fn relative_part(root: Seq<u8>, p: Seq<u8>) -> Seq<u8> {
    joined(components(p).skip(components(root).len() as int))
}

/// `rel` appended to `root`. An absolute `rel` stands for itself; otherwise a
/// separator is put between the two unless `root` is empty or ends with one.
pub open spec fn rejoined(root: Seq<u8>, rel: Seq<u8>) -> Seq<u8> {
    if is_absolute(rel) {
        rel
    } else if root.len() == 0 || root.last() == SEPARATOR {
        root + rel
    } else {
        root + seq![SEPARATOR] + rel
    }
}

/// The views of the vectors in `v`.
pub open spec fn views(v: Seq<Vec<u8>>) -> Seq<Seq<u8>> {
    Seq::new(v.len(), |i: int| v[i]@)
}

/// What `components` yields is made of components.
pub proof fn lemma_components_are_names(p: Seq<u8>)
    ensures
        all_names(components(p)),
        ends_in_name(p) ==> components(p).len() > 0,
    decreases p.len(),
{
    if p.len() > 0 {
        lemma_components_are_names(p.drop_last());
        let before = components(p.drop_last());
        if p.last() != SEPARATOR && ends_in_name(p.drop_last()) {
            let grown = before.last().push(p.last());
            assert(is_name(before.last()));
            assert(is_name(grown));
            let cs = before.drop_last().push(grown);
            assert forall|i: int| 0 <= i < cs.len() implies is_name(#[trigger] cs[i]) by {
                if i < cs.len() - 1 {
                    assert(cs[i] == before[i]);
                }
            }
        } else if p.last() != SEPARATOR {
            let cs = before.push(seq![p.last()]);
            assert(is_name(seq![p.last()]));
            assert forall|i: int| 0 <= i < cs.len() implies is_name(#[trigger] cs[i]) by {
                if i < cs.len() - 1 {
                    assert(cs[i] == before[i]);
                }
            }
        }
    }
}

/// Splits a path into its components.
pub fn split(p: &[u8]) -> (cs: Vec<Vec<u8>>)
    ensures
        views(cs@) == components(p@),
{
    let mut done: Vec<Vec<u8>> = Vec::new();
    let mut name: Vec<u8> = Vec::new();
    let mut i: usize = 0;
    while i < p.len()
        invariant
            0 <= i <= p.len(),
            name@.len() > 0 <==> ends_in_name(p@.take(i as int)),
            name@.len() == 0 ==> views(done@) == components(p@.take(i as int)),
            name@.len() > 0 ==> views(done@).push(name@) == components(p@.take(i as int)),
        decreases p.len() - i,
    {
        let b = p[i];
        proof {
            assert(p@.take(i + 1).drop_last() == p@.take(i as int));
            assert(p@.take(i + 1).last() == b);
        }
        if b == SEPARATOR {
            if name.len() > 0 {
                let ghost old_done = done@;
                done.push(name);
                name = Vec::new();
                assert(views(done@) == views(old_done).push(done@.last()@));
            }
        } else {
            let ghost old_name = name@;
            name.push(b);
            proof {
                let before = components(p@.take(i as int));
                if old_name.len() > 0 {
                    assert(before.last() == old_name);
                    assert(before.drop_last() =~= views(done@));
                    assert(name@ =~= old_name.push(b));
                } else {
                    assert(name@ =~= seq![b]);
                }
            }
        }
        i += 1;
    }
    assert(p@.take(i as int) == p@);
    if name.len() > 0 {
        let ghost old_done = done@;
        done.push(name);
        assert(views(done@) == views(old_done).push(done@.last()@));
    }
    done
}

/// A separator at the end of a path adds no component.
pub proof fn lemma_components_push_separator(p: Seq<u8>)
    ensures
        components(p.push(SEPARATOR)) == components(p),
{
    assert(p.push(SEPARATOR).drop_last() == p);
}

/// A name written after a path that does not end in one is its last
/// component.
pub proof fn lemma_components_append_name(p: Seq<u8>, n: Seq<u8>)
    requires
        !ends_in_name(p),
        is_name(n),
    ensures
        components(p + n) == components(p).push(n),
        ends_in_name(p + n),
    decreases n.len(),
{
    let m = n.drop_last();
    let b = n.last();
    assert((p + n).drop_last() == p + m);
    assert((p + n).last() == b);
    if m.len() == 0 {
        assert(p + m == p);
        assert(n == seq![b]);
    } else {
        assert(is_name(m)) by {
            assert forall|i: int| 0 <= i < m.len() implies m[i] != SEPARATOR by {
                assert(m[i] == n[i]);
            }
        }
        lemma_components_append_name(p, m);
        assert(components(p).push(m).drop_last() == components(p));
        assert(m.push(b) == n);
    }
}

/// Joining components and splitting the result gives them back; the joined
/// path is relative and ends in a name, unless there was nothing to join.
pub proof fn lemma_components_of_joined(cs: Seq<Seq<u8>>)
    requires
        all_names(cs),
    ensures
        components(joined(cs)) == cs,
        cs.len() > 0 ==> ends_in_name(joined(cs)) && !is_absolute(joined(cs)),
        cs.len() == 0 ==> joined(cs).len() == 0,
    decreases cs.len(),
{
    if cs.len() == 1 {
        assert(is_name(cs[0]));
        lemma_components_append_name(Seq::empty(), cs[0]);
        assert(Seq::<u8>::empty() + cs[0] == cs[0]);
        assert(Seq::<Seq<u8>>::empty().push(cs[0]) == cs);
    } else if cs.len() > 1 {
        let front = cs.drop_last();
        assert(all_names(front)) by {
            assert forall|i: int| 0 <= i < front.len() implies is_name(#[trigger] front[i]) by {
                assert(front[i] == cs[i]);
            }
        }
        lemma_components_of_joined(front);
        let head = joined(front);
        lemma_components_push_separator(head);
        assert(head.push(SEPARATOR) == head + seq![SEPARATOR]);
        assert(is_name(cs.last()));
        lemma_components_append_name(head + seq![SEPARATOR], cs.last());
        assert(front.push(cs.last()) == cs);
        assert(joined(cs)[0] == head[0]);
    }
}

/// Where one path ends at a component boundary, or the next starts at one,
/// the components of the two written together are those of the first and
/// then those of the second.
pub proof fn lemma_components_concat(a: Seq<u8>, b: Seq<u8>)
    requires
        !ends_in_name(a) || b.len() == 0 || b[0] == SEPARATOR,
    ensures
        components(a + b) == components(a) + components(b),
    decreases b.len(),
{
    if b.len() == 0 {
        assert(a + b == a);
        assert(components(a) + components(b) == components(a));
    } else {
        let c = b.drop_last();
        let x = b.last();
        assert((a + b).drop_last() == a + c);
        assert((a + b).last() == x);
        if c.len() > 0 {
            assert(c[0] == b[0]);
            assert((a + c).last() == c.last());
        } else {
            assert(a + c == a);
        }
        lemma_components_concat(a, c);
        lemma_components_are_names(c);
        let ca = components(a);
        let cc = components(c);
        if x == SEPARATOR {
        } else if ends_in_name(a + c) {
            assert(c.len() > 0);
            assert((ca + cc).drop_last() == ca + cc.drop_last());
            assert((ca + cc.drop_last()).push(cc.last().push(x)) == ca + cc.drop_last().push(
                cc.last().push(x),
            ));
        } else {
            assert((ca + cc).push(seq![x]) == ca + cc.push(seq![x]));
        }
    }
}

/// The relative part of a path below the root is a relative path made of the
/// components that the root does not have, and joined to the root again it
/// names the same place as the path it came from.
pub proof fn lemma_round_trip(root: Seq<u8>, p: Seq<u8>)
    requires
        lies_under(root, p),
    ensures
        !is_absolute(relative_part(root, p)),
        components(relative_part(root, p)) == components(p).skip(components(root).len() as int),
        same_path(rejoined(root, relative_part(root, p)), p),
{
    let r = components(root);
    let all = components(p);
    let rest = all.skip(r.len() as int);
    let rel = relative_part(root, p);
    lemma_components_are_names(p);
    assert(all_names(rest)) by {
        assert forall|i: int| 0 <= i < rest.len() implies is_name(#[trigger] rest[i]) by {
            assert(rest[i] == all[i + r.len()]);
        }
    }
    lemma_components_of_joined(rest);
    assert(r + rest == all);
    if root.len() == 0 || root.last() == SEPARATOR {
        lemma_components_concat(root, rel);
        if root.len() > 0 {
            assert((root + rel)[0] == root[0]);
        } else {
            assert(root + rel == rel);
        }
    } else {
        let stem = root + seq![SEPARATOR];
        lemma_components_push_separator(root);
        assert(root.push(SEPARATOR) == stem);
        lemma_components_concat(stem, rel);
        assert((stem + rel)[0] == root[0]);
    }
}

/// A relative path appended to the root lies below the root, and its
/// relative part is the path again, written with one separator between its
/// components.
pub proof fn lemma_rejoin_then_resolve(root: Seq<u8>, rel: Seq<u8>)
    requires
        !is_absolute(rel),
    ensures
        lies_under(root, rejoined(root, rel)),
        relative_part(root, rejoined(root, rel)) == joined(components(rel)),
{
    let r = components(root);
    let c = components(rel);
    let whole = rejoined(root, rel);
    if root.len() == 0 || root.last() == SEPARATOR {
        lemma_components_concat(root, rel);
        if root.len() > 0 {
            assert(whole[0] == root[0]);
        } else {
            assert(whole == rel);
        }
    } else {
        let stem = root + seq![SEPARATOR];
        lemma_components_push_separator(root);
        assert(root.push(SEPARATOR) == stem);
        lemma_components_concat(stem, rel);
        assert(whole[0] == root[0]);
    }
    assert(components(whole) == r + c);
    assert((r + c).subrange(0, r.len() as int) == r);
    assert((r + c).skip(r.len() as int) == c);
}

/// The path under which a medium is recorded is found again from the
/// absolute path that the store hands out for it.
pub proof fn lemma_recorded_path_is_stable(root: Seq<u8>, p: Seq<u8>)
    requires
        lies_under(root, p),
    ensures
        lies_under(root, rejoined(root, relative_part(root, p))),
        relative_part(root, rejoined(root, relative_part(root, p))) == relative_part(root, p),
{
    let rel = relative_part(root, p);
    lemma_round_trip(root, p);
    lemma_rejoin_then_resolve(root, rel);
}

/// True when the two slices hold the same bytes.
pub fn same_bytes(a: &[u8], b: &[u8]) -> (same: bool)
    ensures
        same == (a@ == b@),
{
    if a.len() != b.len() {
        return false;
    }
    let mut i: usize = 0;
    while i < a.len()
        invariant
            a.len() == b.len(),
            0 <= i <= a.len(),
            forall|j: int| 0 <= j < i ==> a@[j] == b@[j],
        decreases a.len() - i,
    {
        if a[i] != b[i] {
            return false;
        }
        i += 1;
    }
    assert(a@ =~= b@);
    true
}

/// Writes the bytes of `src` after those of `out`.
pub fn append_bytes(out: &mut Vec<u8>, src: &[u8])
    ensures
        final(out)@ == old(out)@ + src@,
{
    let mut i: usize = 0;
    while i < src.len()
        invariant
            0 <= i <= src.len(),
            out@ == old(out)@ + src@.take(i as int),
        decreases src.len() - i,
    {
        out.push(src[i]);
        assert(src@.take(i + 1) == src@.take(i as int).push(src@[i as int]));
        i += 1;
    }
    assert(src@.take(i as int) == src@);
}

/// Writes out the components with one separator between neighbours.
pub fn join(cs: &[Vec<u8>]) -> (out: Vec<u8>)
    ensures
        out@ == joined(views(cs@)),
{
    let mut out: Vec<u8> = Vec::new();
    let mut i: usize = 0;
    while i < cs.len()
        invariant
            0 <= i <= cs.len(),
            out@ == joined(views(cs@).take(i as int)),
        decreases cs.len() - i,
    {
        let ghost before = views(cs@).take(i as int);
        let ghost after = views(cs@).take(i + 1);
        assert(after.drop_last() == before);
        assert(after.last() == cs@[i as int]@);
        if i > 0 {
            out.push(SEPARATOR);
        }
        append_bytes(&mut out, cs[i].as_slice());
        i += 1;
    }
    assert(views(cs@).take(i as int) == views(cs@));
    out
}

/// Appends a relative path to the root; an absolute one is returned as it is.
pub fn rejoin(root: &[u8], rel: &[u8]) -> (out: Vec<u8>)
    ensures
        out@ == rejoined(root@, rel@),
{
    let mut out: Vec<u8> = Vec::new();
    if rel.len() > 0 && rel[0] == SEPARATOR {
        append_bytes(&mut out, rel);
    } else {
        append_bytes(&mut out, root);
        if root.len() > 0 && root[root.len() - 1] != SEPARATOR {
            out.push(SEPARATOR);
        }
        append_bytes(&mut out, rel);
    }
    out
}

/// True when the components of `root` are the first components of `p`.
fn has_prefix(root: &Vec<Vec<u8>>, p: &Vec<Vec<u8>>) -> (found: bool)
    ensures
        found == views(root@).is_prefix_of(views(p@)),
{
    if root.len() > p.len() {
        return false;
    }
    let mut i: usize = 0;
    while i < root.len()
        invariant
            root.len() <= p.len(),
            0 <= i <= root.len(),
            forall|j: int| 0 <= j < i ==> root@[j]@ == p@[j]@,
        decreases root.len() - i,
    {
        if !same_bytes(root[i].as_slice(), p[i].as_slice()) {
            assert(views(root@)[i as int] != views(p@).subrange(0, root.len() as int)[i as int]);
            return false;
        }
        i += 1;
    }
    assert(views(root@) =~= views(p@).subrange(0, root.len() as int));
    true
}

/// The root-relative form of `path`, as text.
///
/// A path that does not lie below `root` is refused; so is one whose
/// relative part is not UTF-8, and that part is handed back in the error.
pub fn resolve(root: &[u8], path: &[u8]) -> (r: Result<String, StoreError>)
    ensures
        match r {
            Ok(text) => {
                &&& lies_under(root@, path@)
                &&& valid_utf8(relative_part(root@, path@))
                &&& encode_utf8(text@) == relative_part(root@, path@)
            },
            Err(StoreError::StripPrefixError) => !lies_under(root@, path@),
            Err(StoreError::InvalidPathEncoding(rel)) => {
                &&& lies_under(root@, path@)
                &&& !valid_utf8(relative_part(root@, path@))
                &&& rel@ == relative_part(root@, path@)
            },
            Err(_) => false,
        },
{
    let root_absolute = root.len() > 0 && root[0] == SEPARATOR;
    let path_absolute = path.len() > 0 && path[0] == SEPARATOR;
    let root_parts = split(root);
    let path_parts = split(path);
    if root_absolute != path_absolute || !has_prefix(&root_parts, &path_parts) {
        return Err(StoreError::StripPrefixError);
    }
    let rest = vstd::slice::slice_subrange(
        path_parts.as_slice(),
        root_parts.len(),
        path_parts.len(),
    );
    assert(views(rest@) == views(path_parts@).skip(root_parts.len() as int));
    let rel = join(rest);
    match utf8_text(rel.as_slice()) {
        Some(text) => Ok(text.to_owned()),
        None => Err(StoreError::InvalidPathEncoding(rel)),
    }
}

/// The byte that names the current directory.
pub const DOT: u8 = 46;

/// The length of `p` without the separators at its end.
pub open spec fn trimmed_len(p: Seq<u8>) -> nat
    decreases p.len(),
{
    if p.len() > 0 && p.last() == SEPARATOR {
        trimmed_len(p.drop_last())
    } else {
        p.len()
    }
}

/// The length of `p` without the bytes of the name at its end.
pub open spec fn stem_len(p: Seq<u8>) -> nat
    decreases p.len(),
{
    if p.len() > 0 && p.last() != SEPARATOR {
        stem_len(p.drop_last())
    } else {
        p.len()
    }
}

/// The directory that holds the file at `p`: what stands before the last
/// component of `p`, without the separators at its end. A path of one
/// component lies in the root directory if it is absolute and in the current
/// directory if it is not. A path without a component lies in none.
pub open spec fn parent(p: Seq<u8>) -> Option<Seq<u8>> {
    let named = p.take(trimmed_len(p) as int);
    let stem = named.take(stem_len(named) as int);
    if named.len() == 0 {
        None
    } else if stem.len() == 0 {
        Some(seq![DOT])
    } else if trimmed_len(stem) == 0 {
        Some(seq![SEPARATOR])
    } else {
        Some(stem.take(trimmed_len(stem) as int))
    }
}

/// Separators at the end of a path add no component. What is left when they
/// are taken off ends in a name and starts as the path does, unless nothing
/// is left: then the path is empty or starts with a separator.
pub proof fn lemma_trimmed(p: Seq<u8>)
    ensures
        trimmed_len(p) <= p.len(),
        components(p.take(trimmed_len(p) as int)) == components(p),
        trimmed_len(p) > 0 ==> ends_in_name(p.take(trimmed_len(p) as int)),
        trimmed_len(p) > 0 ==> is_absolute(p.take(trimmed_len(p) as int)) == is_absolute(p),
        trimmed_len(p) == 0 && p.len() > 0 ==> is_absolute(p),
    decreases p.len(),
{
    if p.len() > 0 && p.last() == SEPARATOR {
        let front = p.drop_last();
        lemma_trimmed(front);
        assert(front.take(trimmed_len(front) as int) == p.take(trimmed_len(front) as int));
        if front.len() > 0 {
            assert(front[0] == p[0]);
        }
    } else {
        assert(p.take(p.len() as int) == p);
    }
}

/// A path that ends in a name is made of what stands before the name, which
/// does not end in one, and the name.
pub proof fn lemma_stem(p: Seq<u8>)
    requires
        ends_in_name(p),
    ensures
        stem_len(p) < p.len(),
        !ends_in_name(p.take(stem_len(p) as int)),
        is_name(p.skip(stem_len(p) as int)),
    decreases p.len(),
{
    let front = p.drop_last();
    if ends_in_name(front) {
        lemma_stem(front);
        let s = stem_len(front) as int;
        assert(front.take(s) == p.take(s));
        assert(p.skip(s) == front.skip(s).push(p.last()));
    } else {
        assert(stem_len(front) == front.len());
        assert(p.take(front.len() as int) == front);
        assert(p.skip(front.len() as int) == seq![p.last()]);
    }
}

/// A path has a parent when it has a component. The parent of a relative
/// path of one component is the current directory; any other parent has the
/// components of the path but the last, and is absolute when the path is.
pub proof fn lemma_parent_components(p: Seq<u8>)
    ensures
        parent(p) is None <==> components(p).len() == 0,
        parent(p) matches Some(directory) ==> if components(p).len() == 1 && !is_absolute(p) {
            directory == seq![DOT]
        } else {
            is_absolute(directory) == is_absolute(p) && components(directory) == components(
                p,
            ).drop_last()
        },
{
    lemma_trimmed(p);
    let named = p.take(trimmed_len(p) as int);
    if named.len() > 0 {
        lemma_stem(named);
        let stem = named.take(stem_len(named) as int);
        let name = named.skip(stem_len(named) as int);
        assert(named == stem + name);
        lemma_components_append_name(stem, name);
        assert(components(stem).push(name).drop_last() == components(stem));
        if stem.len() > 0 {
            assert(stem[0] == named[0]);
            lemma_trimmed(stem);
            lemma_components_are_names(stem.take(trimmed_len(stem) as int));
            if trimmed_len(stem) == 0 {
                assert(stem.take(0) == Seq::<u8>::empty());
                assert(seq![SEPARATOR].drop_last() == Seq::<u8>::empty());
            }
        } else {
            assert(named[0] == name[0]);
        }
    }
}

/// The number of bytes of `p` that are left when the separators at its end
/// are taken off.
fn trim_separators(p: &[u8], len: usize) -> (n: usize)
    requires
        len <= p.len(),
    ensures
        n == trimmed_len(p@.take(len as int)),
        n <= len,
{
    let mut n: usize = len;
    while n > 0 && p[n - 1] == SEPARATOR
        invariant
            n <= len <= p.len(),
            trimmed_len(p@.take(n as int)) == trimmed_len(p@.take(len as int)),
        decreases n,
    {
        assert(p@.take(n as int).drop_last() == p@.take(n - 1));
        n -= 1;
    }
    n
}

/// The number of bytes of `p` that are left when the name at its end is
/// taken off.
fn trim_name(p: &[u8], len: usize) -> (n: usize)
    requires
        len <= p.len(),
    ensures
        n == stem_len(p@.take(len as int)),
        n <= len,
{
    let mut n: usize = len;
    while n > 0 && p[n - 1] != SEPARATOR
        invariant
            n <= len <= p.len(),
            stem_len(p@.take(n as int)) == stem_len(p@.take(len as int)),
        decreases n,
    {
        assert(p@.take(n as int).drop_last() == p@.take(n - 1));
        n -= 1;
    }
    n
}

/// The directory that holds the file at `location`, or an error where
/// `location` names no file.
pub fn parent_directory(location: &[u8]) -> (r: Result<Vec<u8>, StoreError>)
    ensures
        match r {
            Ok(directory) => parent(location@) == Some(directory@),
            Err(StoreError::CouldNotDetermineMediaTagPath) => parent(location@) is None,
            Err(_) => false,
        },
{
    assert(location@.take(location.len() as int) == location@);
    let named = trim_separators(location, location.len());
    if named == 0 {
        return Err(StoreError::CouldNotDetermineMediaTagPath);
    }
    let stem = trim_name(location, named);
    let kept = trim_separators(location, stem);
    proof {
        let whole = location@.take(named as int);
        assert(whole.take(stem as int) == location@.take(stem as int));
        assert(whole.take(stem as int).take(kept as int) == location@.take(kept as int));
    }
    let mut directory: Vec<u8> = Vec::new();
    if stem == 0 {
        directory.push(DOT);
    } else if kept == 0 {
        directory.push(SEPARATOR);
    } else {
        append_bytes(&mut directory, vstd::slice::slice_subrange(location, 0, kept));
        assert(location@.subrange(0, kept as int) == location@.take(kept as int));
    }
    Ok(directory)
}

} // verus!
