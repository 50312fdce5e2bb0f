//! The legacy packed encoding of a small hash: length-prefixed names and
//! values up to a terminator.

use crate::bytes::{le_nat, u32_le_at};
use crate::packed::{rows, text, text_at};
use vstd::prelude::*;

verus! {

/// A length at `pos` and the position after it: one byte below 254, or the
/// byte 254 and four bytes, least significant first. The byte 255 is no
/// length.
pub open spec fn size_at(s: Seq<u8>, pos: int) -> Option<(nat, int)> {
    if !(0 <= pos < s.len()) || s[pos] == 255 {
        None
    } else if s[pos] < 254 {
        Some((s[pos] as nat, pos + 1))
    } else if pos + 5 > s.len() {
        None
    } else {
        Some((le_nat(s, pos + 1, 4), pos + 5))
    }
}

/// The pair at `pos` and the position after it: the name's length, the name,
/// the value's length, one byte that counts unused bytes, the value, and the
/// unused bytes.
pub open spec fn pair_at(s: Seq<u8>, pos: int) -> Option<(Seq<u8>, Seq<u8>, int)> {
    match size_at(s, pos) {
        None => None,
        Some((kn, k0)) => match text_at(s, k0, kn as int) {
            None => None,
            Some((name, v)) => match size_at(s, v) {
                None => None,
                Some((vn, f)) => if f >= s.len() {
                    None
                } else {
                    match text_at(s, f + 1, vn as int) {
                        None => None,
                        Some((value, e)) => if e + s[f] > s.len() {
                            None
                        } else {
                            Some((name, value, e + s[f]))
                        },
                    }
                },
            },
        },
    }
}

/// `acc` followed by the name and the value of each pair from `pos` up to the
/// terminator `0xFF`.
pub open spec fn pairs_from(s: Seq<u8>, pos: int, acc: Seq<Seq<u8>>) -> Option<Seq<Seq<u8>>>
    decreases s.len() - pos,
{
    if !(0 <= pos < s.len()) {
        None
    } else if s[pos] == 255 {
        Some(acc)
    } else {
        match pair_at(s, pos) {
            None => None,
            Some((name, value, next)) => if next <= pos {
                None
            } else {
                pairs_from(s, next, acc.push(name).push(value))
            },
        }
    }
}

/// The names and values of a hash, alternating. The first byte declares the
/// number of pairs; it must be the number found, unless it is 254 or more,
/// which stands for "not recorded".
pub open spec fn pairs(s: Seq<u8>) -> Option<Seq<Seq<u8>>> {
    if s.len() < 2 {
        None
    } else {
        match pairs_from(s, 1, Seq::empty()) {
            None => None,
            Some(v) => if s[0] >= 254 || v.len() == 2 * s[0] {
                Some(v)
            } else {
                None
            },
        }
    }
}

fn size(data: &[u8], pos: usize) -> (r: Option<(u32, usize)>)
    ensures
        match r {
            Some((n, next)) => size_at(data@, pos as int) == Some((n as nat, next as int)),
            None => size_at(data@, pos as int) is None,
        },
{
    let total: usize = data.len();
    if pos >= total || data[pos] == 255 {
        None
    } else if data[pos] < 254 {
        Some((data[pos] as u32, pos + 1))
    } else if total - pos < 5 {
        None
    } else {
        Some((u32_le_at(data, pos + 1), pos + 5))
    }
}

fn pair(data: &[u8], pos: usize) -> (r: Option<(Vec<u8>, Vec<u8>, usize)>)
    ensures
        match r {
            Some((name, value, next)) => pair_at(data@, pos as int) == Some(
                (name@, value@, next as int),
            ) && pos < next <= data@.len(),
            None => pair_at(data@, pos as int) is None,
        },
{
    let total: usize = data.len();
    let (kn, k0) = size(data, pos)?;
    let (name, v) = text(data, k0, kn as u64)?;
    let (vn, f) = size(data, v)?;
    if f >= total {
        return None;
    }
    let (value, e) = text(data, f + 1, vn as u64)?;
    let free: usize = data[f] as usize;
    if free > total - e {
        return None;
    }
    Some((name, value, e + free))
}

/// Decodes a packed hash into its names and values, alternating.
pub fn decode_zipmap(data: &[u8]) -> (r: Option<Vec<Vec<u8>>>)
    ensures
        match r {
            Some(v) => pairs(data@) == Some(rows(v@)),
            None => pairs(data@) is None,
        },
{
    let total: usize = data.len();
    if total < 2 {
        return None;
    }
    let declared: u8 = data[0];
    let mut out: Vec<Vec<u8>> = Vec::new();
    let mut pos: usize = 1;
    assert(rows(out@) =~= Seq::empty());
    while pos < total && data[pos] != 255
        invariant
            1 <= pos,
            total == data@.len(),
            pairs_from(data@, pos as int, rows(out@)) == pairs_from(data@, 1, Seq::empty()),
        decreases total - pos,
    {
        let ghost before = rows(out@);
        match pair(data, pos) {
            None => {
                return None;
            },
            Some((name, value, next)) => {
                out.push(name);
                out.push(value);
                assert(rows(out@) =~= before.push(name@).push(value@));
                pos = next;
            },
        }
    }
    if pos >= total {
        return None;
    }
    if declared < 254 && out.len() != 2 * (declared as usize) {
        return None;
    }
    Some(out)
}

} // verus!
