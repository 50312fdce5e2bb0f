//! The packed encoding that replaced the ziplist: a header, entries that each
//! end with their own length, a terminator.

use crate::bytes::{decimal, le_nat, to_decimal, u16_le_at, u32_le_at};
use crate::packed::{entry_seen, int_at, integer, rows, text, text_at, Entry};
use vstd::prelude::*;

verus! {

/// Number of bytes in which an entry of `n` bytes records its own length.
pub open spec fn back_width(n: int) -> int {
    if n <= 127 {
        1
    } else if n < 16383 {
        2
    } else if n < 2097151 {
        3
    } else if n < 268435455 {
        4
    } else {
        5
    }
}

/// A 13-bit number in two's complement.
pub open spec fn signed13(u: int) -> int {
    if u >= 4096 {
        u - 8192
    } else {
        u
    }
}

/// The value at `pos` and the position after it, before the entry's record of
/// its own length.
///
/// The first byte decides: `0xxxxxxx` a 7-bit number; `10xxxxxx` text with a
/// 6-bit length; `110xxxxx` a 13-bit signed number with the next byte;
/// `1110xxxx` text with a 12-bit length; `0xF0` text with a 32-bit length;
/// `0xF1` to `0xF4` a signed integer of 2, 3, 4, 8 bytes. Multi-byte lengths
/// and integers are little-endian but for the 12- and 13-bit forms, whose
/// first byte holds the high bits.
pub open spec fn value_at(s: Seq<u8>, pos: int) -> Entry {
    if !(0 <= pos < s.len()) {
        None
    } else {
        let b = s[pos];
        if b < 128 {
            Some((decimal(b as int), pos + 1))
        } else if b / 64 == 2 {
            text_at(s, pos + 1, (b % 64) as int)
        } else if b / 32 == 6 {
            if pos + 2 > s.len() {
                None
            } else {
                Some((decimal(signed13((b % 32) * 256 + s[pos + 1])), pos + 2))
            }
        } else if b / 16 == 14 {
            if pos + 2 > s.len() {
                None
            } else {
                text_at(s, pos + 2, (b % 16) * 256 + s[pos + 1])
            }
        } else if b == 0xF0 {
            if pos + 5 > s.len() {
                None
            } else {
                text_at(s, pos + 5, le_nat(s, pos + 1, 4) as int)
            }
        } else if b == 0xF1 {
            int_at(s, pos + 1, 2)
        } else if b == 0xF2 {
            int_at(s, pos + 1, 3)
        } else if b == 0xF3 {
            int_at(s, pos + 1, 4)
        } else if b == 0xF4 {
            int_at(s, pos + 1, 8)
        } else {
            None
        }
    }
}

/// The entry at `pos`: its value, and the position after the record of its
/// length.
pub open spec fn entry_at(s: Seq<u8>, pos: int) -> Entry {
    match value_at(s, pos) {
        None => None,
        Some((v, e)) => if e + back_width(e - pos) > s.len() {
            None
        } else {
            Some((v, e + back_width(e - pos)))
        },
    }
}

/// `acc` followed by the values of the entries from `pos` up to the
/// terminator `0xFF`.
pub open spec fn entries_from(s: Seq<u8>, pos: int, acc: Seq<Seq<u8>>) -> Option<Seq<Seq<u8>>>
    decreases s.len() - pos,
{
    if !(0 <= pos < s.len()) {
        None
    } else if s[pos] == 255 {
        Some(acc)
    } else {
        match entry_at(s, pos) {
            None => None,
            Some((v, next)) => if next <= pos {
                None
            } else {
                entries_from(s, next, acc.push(v))
            },
        }
    }
}

/// The values of a listpack: after six bytes of header (total size, number of
/// entries) the entries up to the terminator. The declared number must be the
/// number found, unless it is 65535, which stands for "not recorded".
pub open spec fn entries(s: Seq<u8>) -> Option<Seq<Seq<u8>>> {
    if s.len() < 7 {
        None
    } else {
        match entries_from(s, 6, Seq::empty()) {
            None => None,
            Some(v) => if le_nat(s, 4, 2) == 65535 || v.len() == le_nat(s, 4, 2) {
                Some(v)
            } else {
                None
            },
        }
    }
}

fn value(data: &[u8], pos: usize) -> (r: Option<(Vec<u8>, usize)>)
    ensures
        entry_seen(r) == value_at(data@, pos as int),
        r matches Some((_, next)) ==> pos < next <= data@.len(),
{
    let total: usize = data.len();
    if pos >= total {
        return None;
    }
    let b: u8 = data[pos];
    if b < 128 {
        Some((to_decimal(b as i64), pos + 1))
    } else if b / 64 == 2 {
        text(data, pos + 1, (b % 64) as u64)
    } else if b / 32 == 6 {
        if total - pos < 2 {
            return None;
        }
        let u: i64 = (b % 32) as i64 * 256 + data[pos + 1] as i64;
        let v: i64 = if u >= 4096 {
            u - 8192
        } else {
            u
        };
        Some((to_decimal(v), pos + 2))
    } else if b / 16 == 14 {
        if total - pos < 2 {
            return None;
        }
        text(data, pos + 2, (b % 16) as u64 * 256 + data[pos + 1] as u64)
    } else if b == 0xF0 {
        if total - pos < 5 {
            return None;
        }
        let n: u32 = u32_le_at(data, pos + 1);
        text(data, pos + 5, n as u64)
    } else if b == 0xF1 {
        integer(data, pos + 1, 2)
    } else if b == 0xF2 {
        integer(data, pos + 1, 3)
    } else if b == 0xF3 {
        integer(data, pos + 1, 4)
    } else if b == 0xF4 {
        integer(data, pos + 1, 8)
    } else {
        None
    }
}

/// Decodes the entry at `pos`.
pub fn decode_entry(data: &[u8], pos: usize) -> (r: Option<(Vec<u8>, usize)>)
    ensures
        entry_seen(r) == entry_at(data@, pos as int),
        r matches Some((_, next)) ==> pos < next <= data@.len(),
{
    let total: usize = data.len();
    let (v, e) = value(data, pos)?;
    let n: usize = e - pos;
    let back: usize = if n <= 127 {
        1
    } else if n < 16383 {
        2
    } else if n < 2097151 {
        3
    } else if n < 268435455 {
        4
    } else {
        5
    };
    if back > total - e {
        return None;
    }
    Some((v, e + back))
}

/// Decodes a listpack into its values; integers come out in ASCII decimal.
pub fn decode_listpack(data: &[u8]) -> (r: Option<Vec<Vec<u8>>>)
    ensures
        match r {
            Some(v) => entries(data@) == Some(rows(v@)),
            None => entries(data@) is None,
        },
{
    let total: usize = data.len();
    if total < 7 {
        return None;
    }
    let declared: u16 = u16_le_at(data, 4);
    let mut out: Vec<Vec<u8>> = Vec::new();
    let mut pos: usize = 6;
    assert(rows(out@) =~= Seq::empty());
    while pos < total && data[pos] != 255
        invariant
            6 <= pos,
            total == data@.len(),
            entries_from(data@, pos as int, rows(out@)) == entries_from(
                data@,
                6,
                Seq::empty(),
            ),
        decreases total - pos,
    {
        let ghost before = rows(out@);
        match decode_entry(data, pos) {
            None => {
                return None;
            },
            Some((v, next)) => {
                out.push(v);
                assert(rows(out@) =~= before.push(v@));
                pos = next;
            },
        }
    }
    if pos >= total {
        return None;
    }
    if declared != 65535 && out.len() != declared as usize {
        return None;
    }
    Some(out)
}

} // verus!
