//! The packed encoding of a set of integers.

use crate::bytes::{
    decimal, i16_le_at, i32_le_at, i64_le_at, le_nat, signed, to_decimal, u32_le_at,
};
use crate::packed::rows;
use vstd::prelude::*;

verus! {

/// Width in bytes of the members, from the first four bytes.
pub open spec fn width(s: Seq<u8>) -> nat {
    le_nat(s, 0, 4)
}

/// Number of members, from the next four bytes.
pub open spec fn cardinality(s: Seq<u8>) -> nat {
    le_nat(s, 4, 4)
}

/// Whether `s` is a header followed by as many members as it declares, each
/// of the declared width of 2, 4 or 8 bytes.
pub open spec fn well_formed(s: Seq<u8>) -> bool {
    &&& s.len() >= 8
    &&& (width(s) == 2 || width(s) == 4 || width(s) == 8)
    &&& 8 + cardinality(s) * width(s) <= s.len()
}

/// The `i`-th member: a little-endian signed integer.
pub open spec fn member(s: Seq<u8>, i: int) -> int {
    signed(le_nat(s, 8 + i * width(s), width(s)), width(s))
}

/// The members in decimal, in the order in which they are stored.
pub open spec fn members(s: Seq<u8>) -> Option<Seq<Seq<u8>>> {
    if well_formed(s) {
        Some(Seq::new(cardinality(s), |i: int| decimal(member(s, i))))
    } else {
        None
    }
}

/// Decodes a set of integers into its members, each in ASCII decimal.
pub fn decode_intset(data: &[u8]) -> (r: Option<Vec<Vec<u8>>>)
    ensures
        match r {
            Some(v) => members(data@) == Some(rows(v@)),
            None => members(data@) is None,
        },
{
    let total: usize = data.len();
    if total < 8 {
        return None;
    }
    let w: u32 = u32_le_at(data, 0);
    let n: u32 = u32_le_at(data, 4);
    if w != 2 && w != 4 && w != 8 {
        return None;
    }
    let need: u64 = if w == 2 {
        n as u64 * 2
    } else if w == 4 {
        n as u64 * 4
    } else {
        n as u64 * 8
    };
    if need > (total - 8) as u64 {
        return None;
    }
    let step: usize = w as usize;
    let mut out: Vec<Vec<u8>> = Vec::new();
    let mut i: usize = 0;
    while i < n as usize
        invariant
            i <= n,
            total == data@.len(),
            step == w,
            w == width(data@),
            n == cardinality(data@),
            well_formed(data@),
            rows(out@) == Seq::new(i as nat, |j: int| decimal(member(data@, j))),
        decreases n - i,
    {
        assert(8 + (i + 1) * step <= 8 + n * step) by (nonlinear_arith)
            requires
                i < n,
        ;
        assert(0 <= i * step) by (nonlinear_arith);
        assert((i + 1) * step == i * step + step) by (nonlinear_arith);
        let at: usize = 8 + i * step;
        let v: i64 = if step == 2 {
            i16_le_at(data, at) as i64
        } else if step == 4 {
            i32_le_at(data, at) as i64
        } else {
            i64_le_at(data, at)
        };
        assert(v as int == member(data@, i as int));
        let ghost before = rows(out@);
        out.push(to_decimal(v));
        assert(rows(out@) =~= before.push(decimal(member(data@, i as int))));
        i += 1;
        assert(rows(out@) =~= Seq::new(i as nat, |j: int| decimal(member(data@, j))));
    }
    Some(out)
}

} // verus!
