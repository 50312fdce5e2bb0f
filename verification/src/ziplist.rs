//! The packed encoding of a short list: a header, entries, a terminator.

use crate::bytes::{be_nat, decimal, le_nat, to_decimal, u16_le_at, u32_be_at};
use crate::packed::{entry_seen, int_at, integer, rows, text, text_at, Entry};
use vstd::prelude::*;

verus! {

/// Width of the field that holds the previous entry's length: one byte, or
/// five where the first is 254.
pub open spec fn prev_width(s: Seq<u8>, pos: int) -> int {
    if s[pos] < 254 {
        1
    } else {
        5
    }
}

/// The entry at `pos`.
///
/// After the previous entry's length comes the encoding byte. Its top two
/// bits `00`, `01`, `10` announce text with a length of 6 bits, of 14 bits, or
/// of 32 bits (big-endian, in the next four bytes). `0xC0`, `0xD0`, `0xE0`,
/// `0xF0`, `0xFE` announce an integer of 2, 4, 8, 3, 1 bytes; `0xF1` to `0xFD`
/// hold an integer from 0 to 12 in their low four bits, plus one.
pub open spec fn entry_at(s: Seq<u8>, pos: int) -> Entry {
    if !(0 <= pos < s.len()) || pos + prev_width(s, pos) >= s.len() {
        None
    } else {
        let h = pos + prev_width(s, pos);
        let e = s[h];
        if e / 64 == 0 {
            text_at(s, h + 1, (e % 64) as int)
        } else if e / 64 == 1 {
            if h + 2 > s.len() {
                None
            } else {
                text_at(s, h + 2, (e % 64) * 256 + s[h + 1])
            }
        } else if e / 64 == 2 {
            if h + 5 > s.len() {
                None
            } else {
                text_at(s, h + 5, be_nat(s, h + 1, 4) as int)
            }
        } else if e == 0xC0 {
            int_at(s, h + 1, 2)
        } else if e == 0xD0 {
            int_at(s, h + 1, 4)
        } else if e == 0xE0 {
            int_at(s, h + 1, 8)
        } else if e == 0xF0 {
            int_at(s, h + 1, 3)
        } else if e == 0xFE {
            int_at(s, h + 1, 1)
        } else if 0xF1 <= e <= 0xFD {
            Some((decimal(e % 16 - 1), h + 1))
        } else {
            None
        }
    }
}

/// `acc` followed by the values of the entries from `pos` up to the
/// terminator `0xFF`.
pub open spec fn entries_from(s: Seq<u8>, pos: int, acc: Seq<Seq<u8>>) -> Option<Seq<Seq<u8>>>
    decreases s.len() - pos,
{
    if !(0 <= pos < s.len()) {
        None
    } else if s[pos] == 255 {
        Some(acc)
    } else {
        match entry_at(s, pos) {
            None => None,
            Some((v, next)) => if next <= pos {
                None
            } else {
                entries_from(s, next, acc.push(v))
            },
        }
    }
}

/// The values of a list: after ten bytes of header (total size, offset of the
/// last entry, number of entries) the entries up to the terminator. The
/// declared number must be the number found, unless it is 65535, which
/// stands for "not recorded".
pub open spec fn entries(s: Seq<u8>) -> Option<Seq<Seq<u8>>> {
    if s.len() < 11 {
        None
    } else {
        match entries_from(s, 10, Seq::empty()) {
            None => None,
            Some(v) => if le_nat(s, 8, 2) == 65535 || v.len() == le_nat(s, 8, 2) {
                Some(v)
            } else {
                None
            },
        }
    }
}

/// Decodes the entry at `pos`.
pub fn decode_entry(data: &[u8], pos: usize) -> (r: Option<(Vec<u8>, usize)>)
    ensures
        entry_seen(r) == entry_at(data@, pos as int),
        r matches Some((_, next)) ==> pos < next <= data@.len(),
{
    let total: usize = data.len();
    if pos >= total {
        return None;
    }
    let skip: usize = if data[pos] < 254 {
        1
    } else {
        5
    };
    if skip >= total - pos {
        return None;
    }
    let h: usize = pos + skip;
    let e: u8 = data[h];
    if e / 64 == 0 {
        text(data, h + 1, (e % 64) as u64)
    } else if e / 64 == 1 {
        if total - h < 2 {
            return None;
        }
        text(data, h + 2, (e % 64) as u64 * 256 + data[h + 1] as u64)
    } else if e / 64 == 2 {
        if total - h < 5 {
            return None;
        }
        let n: u32 = u32_be_at(data, h + 1);
        text(data, h + 5, n as u64)
    } else if e == 0xC0 {
        integer(data, h + 1, 2)
    } else if e == 0xD0 {
        integer(data, h + 1, 4)
    } else if e == 0xE0 {
        integer(data, h + 1, 8)
    } else if e == 0xF0 {
        integer(data, h + 1, 3)
    } else if e == 0xFE {
        integer(data, h + 1, 1)
    } else if 0xF1 <= e && e <= 0xFD {
        Some((to_decimal((e % 16) as i64 - 1), h + 1))
    } else {
        None
    }
}

/// Decodes a packed list into its values; integers come out in ASCII decimal.
pub fn decode_ziplist(data: &[u8]) -> (r: Option<Vec<Vec<u8>>>)
    ensures
        match r {
            Some(v) => entries(data@) == Some(rows(v@)),
            None => entries(data@) is None,
        },
{
    let total: usize = data.len();
    if total < 11 {
        return None;
    }
    let declared: u16 = u16_le_at(data, 8);
    let mut out: Vec<Vec<u8>> = Vec::new();
    let mut pos: usize = 10;
    assert(rows(out@) =~= Seq::empty());
    while pos < total && data[pos] != 255
        invariant
            10 <= pos,
            total == data@.len(),
            entries_from(data@, pos as int, rows(out@)) == entries_from(
                data@,
                10,
                Seq::empty(),
            ),
        decreases total - pos,
    {
        let ghost before = rows(out@);
        match decode_entry(data, pos) {
            None => {
                return None;
            },
            Some((v, next)) => {
                out.push(v);
                assert(rows(out@) =~= before.push(v@));
                pos = next;
            },
        }
    }
    if pos >= total {
        return None;
    }
    if declared != 65535 && out.len() != declared as usize {
        return None;
    }
    Some(out)
}

} // verus!
