//! What the packed encodings share: text and integers at a position of a
//! buffer.

use crate::bytes::{
    decimal, i16_le_at, i24_le_at, i32_le_at, i64_le_at, le_nat, signed, to_decimal,
};
use vstd::prelude::*;
use vstd::slice::{slice_subrange, slice_to_vec};

verus! {

/// The byte sequences of `rows`, in order.
pub open spec fn rows(v: Seq<Vec<u8>>) -> Seq<Seq<u8>> {
    Seq::new(v.len(), |i: int| v[i]@)
}

/// An entry's value and the position after the entry.
pub type Entry = Option<(Seq<u8>, int)>;

/// `n` bytes of text at `at`.
pub open spec fn text_at(s: Seq<u8>, at: int, n: int) -> Entry {
    if at + n > s.len() {
        None
    } else {
        Some((s.subrange(at, at + n), at + n))
    }
}

/// A little-endian signed integer of `w` bytes at `at`, in decimal.
pub open spec fn int_at(s: Seq<u8>, at: int, w: nat) -> Entry {
    if at + w > s.len() {
        None
    } else {
        Some((decimal(signed(le_nat(s, at, w), w)), at + w))
    }
}

/// `r` with its bytes taken as a sequence.
pub open spec fn entry_seen(r: Option<(Vec<u8>, usize)>) -> Entry {
    match r {
        Some((v, next)) => Some((v@, next as int)),
        None => None,
    }
}

/// Copies `n` bytes of text at `at`.
pub fn text(data: &[u8], at: usize, n: u64) -> (r: Option<(Vec<u8>, usize)>)
    requires
        at <= data@.len(),
    ensures
        entry_seen(r) == text_at(data@, at as int, n as int),
{
    if n > (data.len() - at) as u64 {
        return None;
    }
    let end: usize = at + n as usize;
    Some((slice_to_vec(slice_subrange(data, at, end)), end))
}

/// Reads a little-endian signed integer of `w` bytes at `at` and renders it
/// in decimal.
pub fn integer(data: &[u8], at: usize, w: usize) -> (r: Option<(Vec<u8>, usize)>)
    requires
        at <= data@.len(),
        w == 1 || w == 2 || w == 3 || w == 4 || w == 8,
    ensures
        entry_seen(r) == int_at(data@, at as int, w as nat),
{
    if w > data.len() - at {
        return None;
    }
    let v: i64 = if w == 1 {
        let b: u8 = data[at];
        assert(le_nat(data@, at as int, 1) == b as nat) by {
            reveal_with_fuel(le_nat, 2);
        }
        if b < 128 {
            b as i64
        } else {
            b as i64 - 256
        }
    } else if w == 2 {
        i16_le_at(data, at) as i64
    } else if w == 3 {
        i24_le_at(data, at) as i64
    } else if w == 4 {
        i32_le_at(data, at) as i64
    } else {
        i64_le_at(data, at)
    };
    Some((to_decimal(v), at + w))
}

} // verus!
