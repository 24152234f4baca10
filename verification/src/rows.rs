//! The list of tag ids that the store hands out for a medium: decimal
//! integers with commas between them.

use vstd::prelude::*;

verus! {

/// The byte between two items of a list.
pub const COMMA: u8 = 44;

/// The pieces of `list` between its commas, first to last. A list without a
/// comma is one piece, and so is the empty list.
pub open spec fn fields(list: Seq<u8>) -> Seq<Seq<u8>>
    decreases list.len(),
{
    if list.len() == 0 {
        seq![Seq::empty()]
    } else {
        let before = fields(list.drop_last());
        if list.last() == COMMA {
            before.push(Seq::empty())
        } else {
            before.drop_last().push(before.last().push(list.last()))
        }
    }
}

/// True when `d` is one or more decimal digits.
pub open spec fn is_digits(d: Seq<u8>) -> bool {
    d.len() > 0 && forall|i: int| 0 <= i < d.len() ==> 48 <= #[trigger] d[i] <= 57
}

/// The number that a run of decimal digits writes.
pub open spec fn decimal(d: Seq<u8>) -> int
    decreases d.len(),
{
    if d.len() == 0 {
        0
    } else {
        10 * decimal(d.drop_last()) + (d.last() - 48)
    }
}

/// True when `text` starts with a plus or a minus sign.
pub open spec fn has_sign(text: Seq<u8>) -> bool {
    text.len() > 0 && (text[0] == 43 || text[0] == 45)
}

/// The integer that `text` writes: an optional sign, then digits, with a
/// value that fits in 64 bits. Anything else writes none.
pub open spec fn integer(text: Seq<u8>) -> Option<i64> {
    let digits = if has_sign(text) { text.skip(1) } else { text };
    let value = if has_sign(text) && text[0] == 45 { -decimal(digits) } else { decimal(digits) };
    if is_digits(digits) && i64::MIN <= value <= i64::MAX {
        Some(value as i64)
    } else {
        None
    }
}

/// The ids in a comma-separated list; pieces that write no integer are
/// passed over.
pub open spec fn tag_ids(list: Seq<u8>) -> Seq<i64> {
    fields(list).filter_map(|piece: Seq<u8>| integer(piece))
}

/// More digits never make the number smaller.
pub proof fn lemma_decimal_grows(d: Seq<u8>, k: int)
    requires
        is_digits(d),
        0 <= k <= d.len(),
    ensures
        0 <= decimal(d.take(k)) <= decimal(d),
    decreases d.len() - k,
{
    if k == d.len() {
        assert(d.take(k) == d);
        lemma_decimal_not_negative(d);
    } else {
        lemma_decimal_grows(d, k + 1);
        assert(d.take(k + 1).drop_last() == d.take(k));
        lemma_decimal_not_negative(d.take(k));
    }
}

/// The number that digits write is not negative.
pub proof fn lemma_decimal_not_negative(d: Seq<u8>)
    requires
        forall|i: int| 0 <= i < d.len() ==> 48 <= #[trigger] d[i] <= 57,
    ensures
        0 <= decimal(d),
    decreases d.len(),
{
    if d.len() > 0 {
        lemma_decimal_not_negative(d.drop_last());
    }
}

/// Reads a decimal integer.
pub fn parse_integer(text: &[u8]) -> (value: Option<i64>)
    ensures
        value == integer(text@),
{
    if text.len() == 0 {
        return None;
    }
    let negative = text[0] == 45;
    let start: usize = if text[0] == 45 || text[0] == 43 { 1 } else { 0 };
    if start == text.len() {
        return None;
    }
    let ghost digits = text@.skip(start as int);
    assert(text@.skip(0) == text@);
    // The digits read so far, as a number below zero: that side holds one
    // value more than the other.
    let mut below: i64 = 0;
    let mut i: usize = start;
    while i < text.len()
        invariant
            start <= i <= text.len(),
            start < text.len(),
            negative == (text@[0] == 45),
            start == if has_sign(text@) { 1int } else { 0int },
            digits == (if has_sign(text@) { text@.skip(1) } else { text@ }),
            digits == text@.skip(start as int),
            below <= 0,
            forall|j: int| 0 <= j < i - start ==> 48 <= #[trigger] digits[j] <= 57,
            below == -decimal(digits.take(i - start)),
        decreases text.len() - i,
    {
        let b = text[i];
        assert(digits[i - start] == b);
        if b < 48 || b > 57 {
            return None;
        }
        let next: i128 = (below as i128) * 10 - ((b - 48) as i128);
        proof {
            assert(digits.take(i - start + 1).drop_last() == digits.take(i - start));
            assert(next == -decimal(digits.take(i - start + 1)));
        }
        if next < i64::MIN as i128 {
            proof {
                if is_digits(digits) {
                    lemma_decimal_grows(digits, i - start + 1);
                }
            }
            return None;
        }
        below = next as i64;
        i += 1;
    }
    assert(digits.take(i - start) == digits);
    assert(is_digits(digits));
    if negative {
        Some(below)
    } else if below == i64::MIN {
        None
    } else {
        Some(-below)
    }
}

/// Cuts a list at its commas.
pub fn split_fields(list: &[u8]) -> (pieces: Vec<Vec<u8>>)
    ensures
        crate::path::views(pieces@) == fields(list@),
{
    let mut done: Vec<Vec<u8>> = Vec::new();
    let mut piece: Vec<u8> = Vec::new();
    let mut i: usize = 0;
    assert(list@.take(0) == Seq::<u8>::empty());
    assert(crate::path::views(done@).push(piece@) == seq![Seq::<u8>::empty()]);
    while i < list.len()
        invariant
            0 <= i <= list.len(),
            crate::path::views(done@).push(piece@) == fields(list@.take(i as int)),
        decreases list.len() - i,
    {
        let b = list[i];
        proof {
            assert(list@.take(i + 1).drop_last() == list@.take(i as int));
            assert(list@.take(i + 1).last() == b);
        }
        let ghost before = fields(list@.take(i as int));
        if b == COMMA {
            let ghost old_done = done@;
            done.push(piece);
            piece = Vec::new();
            assert(crate::path::views(done@) == before);
        } else {
            let ghost old_piece = piece@;
            piece.push(b);
            assert(before.drop_last() == crate::path::views(done@));
            assert(before.last() == old_piece);
        }
        i += 1;
    }
    assert(list@.take(i as int) == list@);
    let ghost old_done = done@;
    done.push(piece);
    assert(crate::path::views(done@) == crate::path::views(old_done).push(done@.last()@));
    done
}

/// Reads the ids out of a comma-separated list.
pub fn parse_tag_ids(list: &[u8]) -> (ids: Vec<i64>)
    ensures
        ids@ == tag_ids(list@),
{
    let pieces = split_fields(list);
    let ghost all = fields(list@);
    let ghost read = |piece: Seq<u8>| integer(piece);
    let mut ids: Vec<i64> = Vec::new();
    let mut i: usize = 0;
    assert(all.take(0).filter_map(read) == Seq::<i64>::empty());
    while i < pieces.len()
        invariant
            0 <= i <= pieces.len(),
            all == crate::path::views(pieces@),
            all == fields(list@),
            read == |piece: Seq<u8>| integer(piece),
            ids@ == all.take(i as int).filter_map(read),
        decreases pieces.len() - i,
    {
        proof {
            all.lemma_filter_map_take_succ(read, i as int);
            assert(all[i as int] == pieces@[i as int]@);
        }
        match parse_integer(pieces[i].as_slice()) {
            Some(id) => {
                ids.push(id);
            },
            None => {},
        }
        i += 1;
    }
    assert(all.take(i as int) == all);
    ids
}

} // verus!
