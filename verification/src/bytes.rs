//! Fixed-width integers as they lie in a byte buffer.

use byteorder::{BigEndian, ByteOrder, LittleEndian};
use vstd::prelude::*;
use vstd::slice::slice_subrange;

verus! {

/// The unsigned number that `n` bytes of `s`, starting at `at`, spell with
/// the least significant byte first.
pub open spec fn le_nat(s: Seq<u8>, at: int, n: nat) -> nat
    decreases n,
{
    if n == 0 {
        0
    } else {
        s[at] as nat + 256 * le_nat(s, at + 1, (n - 1) as nat)
    }
}

/// The unsigned number that `n` bytes of `s`, starting at `at`, spell with
/// the most significant byte first.
pub open spec fn be_nat(s: Seq<u8>, at: int, n: nat) -> nat
    decreases n,
{
    if n == 0 {
        0
    } else {
        256 * be_nat(s, at, (n - 1) as nat) + s[at + n - 1] as nat
    }
}

/// Two to the power `8 * n`, for the widths used here.
pub open spec fn span(n: nat) -> int {
    if n == 1 {
        0x100
    } else if n == 2 {
        0x1_0000
    } else if n == 3 {
        0x100_0000
    } else if n == 4 {
        0x1_0000_0000
    } else {
        0x1_0000_0000_0000_0000
    }
}

/// The two's complement reading of an unsigned `n`-byte number.
pub open spec fn signed(v: nat, n: nat) -> int {
    if 2 * v >= span(n) {
        v - span(n)
    } else {
        v as int
    }
}

/// `byteorder::LittleEndian::read_u16`: the first two bytes of `buf`, least
/// significant first. The call panics on a shorter buffer.
#[verifier::external_body]
pub(crate) fn le_u16(buf: &[u8]) -> (r: u16)
    requires
        buf@.len() >= 2,
    ensures
        r as nat == le_nat(buf@, 0, 2),
{
    LittleEndian::read_u16(buf)
}

/// `byteorder::LittleEndian::read_u32`: the first four bytes of `buf`, least
/// significant first. The call panics on a shorter buffer.
#[verifier::external_body]
pub(crate) fn le_u32(buf: &[u8]) -> (r: u32)
    requires
        buf@.len() >= 4,
    ensures
        r as nat == le_nat(buf@, 0, 4),
{
    LittleEndian::read_u32(buf)
}

/// `byteorder::LittleEndian::read_u64`: the first eight bytes of `buf`, least
/// significant first. The call panics on a shorter buffer.
#[verifier::external_body]
pub(crate) fn le_u64(buf: &[u8]) -> (r: u64)
    requires
        buf@.len() >= 8,
    ensures
        r as nat == le_nat(buf@, 0, 8),
{
    LittleEndian::read_u64(buf)
}

/// `byteorder::LittleEndian::read_i16`: the first two bytes of `buf`, least
/// significant first, in two's complement. The call panics on a shorter
/// buffer.
#[verifier::external_body]
pub(crate) fn le_i16(buf: &[u8]) -> (r: i16)
    requires
        buf@.len() >= 2,
    ensures
        r as int == signed(le_nat(buf@, 0, 2), 2),
{
    LittleEndian::read_i16(buf)
}

/// `byteorder::LittleEndian::read_i24`: the first three bytes of `buf`, least
/// significant first, in two's complement. The call panics on a shorter
/// buffer.
#[verifier::external_body]
pub(crate) fn le_i24(buf: &[u8]) -> (r: i32)
    requires
        buf@.len() >= 3,
    ensures
        r as int == signed(le_nat(buf@, 0, 3), 3),
{
    LittleEndian::read_i24(buf)
}

/// `byteorder::LittleEndian::read_i32`: the first four bytes of `buf`, least
/// significant first, in two's complement. The call panics on a shorter
/// buffer.
#[verifier::external_body]
pub(crate) fn le_i32(buf: &[u8]) -> (r: i32)
    requires
        buf@.len() >= 4,
    ensures
        r as int == signed(le_nat(buf@, 0, 4), 4),
{
    LittleEndian::read_i32(buf)
}

/// `byteorder::LittleEndian::read_i64`: the first eight bytes of `buf`, least
/// significant first, in two's complement. The call panics on a shorter
/// buffer.
#[verifier::external_body]
pub(crate) fn le_i64(buf: &[u8]) -> (r: i64)
    requires
        buf@.len() >= 8,
    ensures
        r as int == signed(le_nat(buf@, 0, 8), 8),
{
    LittleEndian::read_i64(buf)
}

/// `byteorder::BigEndian::read_u32`: the first four bytes of `buf`, most
/// significant first. The call panics on a shorter buffer.
#[verifier::external_body]
pub(crate) fn be_u32(buf: &[u8]) -> (r: u32)
    requires
        buf@.len() >= 4,
    ensures
        r as nat == be_nat(buf@, 0, 4),
{
    BigEndian::read_u32(buf)
}

/// `byteorder::BigEndian::read_u64`: the first eight bytes of `buf`, most
/// significant first. The call panics on a shorter buffer.
#[verifier::external_body]
pub(crate) fn be_u64(buf: &[u8]) -> (r: u64)
    requires
        buf@.len() >= 8,
    ensures
        r as nat == be_nat(buf@, 0, 8),
{
    BigEndian::read_u64(buf)
}

/// `byteorder::BigEndian::read_i16`: the first two bytes of `buf`, most
/// significant first, in two's complement. The call panics on a shorter
/// buffer.
#[verifier::external_body]
pub(crate) fn be_i16(buf: &[u8]) -> (r: i16)
    requires
        buf@.len() >= 2,
    ensures
        r as int == signed(be_nat(buf@, 0, 2), 2),
{
    BigEndian::read_i16(buf)
}

/// `byteorder::BigEndian::read_i32`: the first four bytes of `buf`, most
/// significant first, in two's complement. The call panics on a shorter
/// buffer.
#[verifier::external_body]
pub(crate) fn be_i32(buf: &[u8]) -> (r: i32)
    requires
        buf@.len() >= 4,
    ensures
        r as int == signed(be_nat(buf@, 0, 4), 4),
{
    BigEndian::read_i32(buf)
}

/// `byteorder::BigEndian::read_i64`: the first eight bytes of `buf`, most
/// significant first, in two's complement. The call panics on a shorter
/// buffer.
#[verifier::external_body]
pub(crate) fn be_i64(buf: &[u8]) -> (r: i64)
    requires
        buf@.len() >= 8,
    ensures
        r as int == signed(be_nat(buf@, 0, 8), 8),
{
    BigEndian::read_i64(buf)
}

/// Reading a number out of a window of `s` is reading it out of `s` itself.
pub proof fn lemma_window(s: Seq<u8>, from: int, to: int, at: int, n: nat)
    requires
        0 <= from <= to <= s.len(),
        0 <= at,
        at + n <= to - from,
    ensures
        le_nat(s.subrange(from, to), at, n) == le_nat(s, from + at, n),
        be_nat(s.subrange(from, to), at, n) == be_nat(s, from + at, n),
    decreases n,
{
    if n > 0 {
        lemma_window(s, from, to, at + 1, (n - 1) as nat);
        lemma_window(s, from, to, at, (n - 1) as nat);
    }
}

/// An `n`-byte number is below two to the power `8 * n`.
pub proof fn lemma_bounds(s: Seq<u8>, at: int, n: nat)
    requires
        n == 1 || n == 2 || n == 3 || n == 4 || n == 8,
    ensures
        le_nat(s, at, n) < span(n),
        be_nat(s, at, n) < span(n),
{
    reveal_with_fuel(le_nat, 9);
    reveal_with_fuel(be_nat, 9);
}

/// The little-endian `u16` at `at`.
pub fn u16_le_at(data: &[u8], at: usize) -> (r: u16)
    requires
        at + 2 <= data@.len(),
    ensures
        r as nat == le_nat(data@, at as int, 2),
{
    let _end: usize = data.len();
    proof {
        lemma_window(data@, at as int, at + 2, 0, 2);
    }
    le_u16(slice_subrange(data, at, at + 2))
}

/// The little-endian `u32` at `at`.
pub fn u32_le_at(data: &[u8], at: usize) -> (r: u32)
    requires
        at + 4 <= data@.len(),
    ensures
        r as nat == le_nat(data@, at as int, 4),
{
    let _end: usize = data.len();
    proof {
        lemma_window(data@, at as int, at + 4, 0, 4);
    }
    le_u32(slice_subrange(data, at, at + 4))
}

/// The little-endian `u64` at `at`.
pub fn u64_le_at(data: &[u8], at: usize) -> (r: u64)
    requires
        at + 8 <= data@.len(),
    ensures
        r as nat == le_nat(data@, at as int, 8),
{
    let _end: usize = data.len();
    proof {
        lemma_window(data@, at as int, at + 8, 0, 8);
    }
    le_u64(slice_subrange(data, at, at + 8))
}

/// The little-endian `i16` at `at`.
pub fn i16_le_at(data: &[u8], at: usize) -> (r: i16)
    requires
        at + 2 <= data@.len(),
    ensures
        r as int == signed(le_nat(data@, at as int, 2), 2),
{
    let _end: usize = data.len();
    proof {
        lemma_window(data@, at as int, at + 2, 0, 2);
    }
    le_i16(slice_subrange(data, at, at + 2))
}

/// The little-endian 24-bit signed integer at `at`.
pub fn i24_le_at(data: &[u8], at: usize) -> (r: i32)
    requires
        at + 3 <= data@.len(),
    ensures
        r as int == signed(le_nat(data@, at as int, 3), 3),
{
    let _end: usize = data.len();
    proof {
        lemma_window(data@, at as int, at + 3, 0, 3);
    }
    le_i24(slice_subrange(data, at, at + 3))
}

/// The little-endian `i32` at `at`.
pub fn i32_le_at(data: &[u8], at: usize) -> (r: i32)
    requires
        at + 4 <= data@.len(),
    ensures
        r as int == signed(le_nat(data@, at as int, 4), 4),
{
    let _end: usize = data.len();
    proof {
        lemma_window(data@, at as int, at + 4, 0, 4);
    }
    le_i32(slice_subrange(data, at, at + 4))
}

/// The little-endian `i64` at `at`.
pub fn i64_le_at(data: &[u8], at: usize) -> (r: i64)
    requires
        at + 8 <= data@.len(),
    ensures
        r as int == signed(le_nat(data@, at as int, 8), 8),
{
    let _end: usize = data.len();
    proof {
        lemma_window(data@, at as int, at + 8, 0, 8);
    }
    le_i64(slice_subrange(data, at, at + 8))
}

/// The big-endian `u32` at `at`.
pub fn u32_be_at(data: &[u8], at: usize) -> (r: u32)
    requires
        at + 4 <= data@.len(),
    ensures
        r as nat == be_nat(data@, at as int, 4),
{
    let _end: usize = data.len();
    proof {
        lemma_window(data@, at as int, at + 4, 0, 4);
    }
    be_u32(slice_subrange(data, at, at + 4))
}

/// The big-endian `u64` at `at`.
pub fn u64_be_at(data: &[u8], at: usize) -> (r: u64)
    requires
        at + 8 <= data@.len(),
    ensures
        r as nat == be_nat(data@, at as int, 8),
{
    let _end: usize = data.len();
    proof {
        lemma_window(data@, at as int, at + 8, 0, 8);
    }
    be_u64(slice_subrange(data, at, at + 8))
}

/// The big-endian `i16` at `at`.
pub fn i16_be_at(data: &[u8], at: usize) -> (r: i16)
    requires
        at + 2 <= data@.len(),
    ensures
        r as int == signed(be_nat(data@, at as int, 2), 2),
{
    let _end: usize = data.len();
    proof {
        lemma_window(data@, at as int, at + 2, 0, 2);
    }
    be_i16(slice_subrange(data, at, at + 2))
}

/// The big-endian `i32` at `at`.
pub fn i32_be_at(data: &[u8], at: usize) -> (r: i32)
    requires
        at + 4 <= data@.len(),
    ensures
        r as int == signed(be_nat(data@, at as int, 4), 4),
{
    let _end: usize = data.len();
    proof {
        lemma_window(data@, at as int, at + 4, 0, 4);
    }
    be_i32(slice_subrange(data, at, at + 4))
}

/// The big-endian `i64` at `at`.
pub fn i64_be_at(data: &[u8], at: usize) -> (r: i64)
    requires
        at + 8 <= data@.len(),
    ensures
        r as int == signed(be_nat(data@, at as int, 8), 8),
{
    let _end: usize = data.len();
    proof {
        lemma_window(data@, at as int, at + 8, 0, 8);
    }
    be_i64(slice_subrange(data, at, at + 8))
}

/// The decimal digits of `n`, as ASCII, without leading zeros.
pub open spec fn digits(n: nat) -> Seq<u8>
    decreases n,
{
    if n < 10 {
        seq![(48 + n) as u8]
    } else {
        digits(n / 10).push((48 + n % 10) as u8)
    }
}

/// `v` in ASCII decimal, with a leading minus sign where it is negative.
pub open spec fn decimal(v: int) -> Seq<u8> {
    if v < 0 {
        seq![45u8] + digits((-v) as nat)
    } else {
        digits(v as nat)
    }
}

/// Appends the decimal digits of `n` to `out`.
pub fn push_digits(n: u64, out: &mut Vec<u8>)
    ensures
        final(out)@ == old(out)@ + digits(n as nat),
    decreases n,
{
    if n < 10 {
        out.push(48 + n as u8);
        assert(final(out)@ =~= old(out)@ + digits(n as nat));
    } else {
        push_digits(n / 10, out);
        out.push(48 + (n % 10) as u8);
        assert(final(out)@ =~= old(out)@ + digits(n as nat));
    }
}

/// Appends the bytes of `tail` to `out`.
pub fn push_all(out: &mut Vec<u8>, tail: &[u8])
    ensures
        final(out)@ == old(out)@ + tail@,
{
    let mut i: usize = 0;
    while i < tail.len()
        invariant
            i <= tail@.len(),
            out@ == old(out)@ + tail@.subrange(0, i as int),
        decreases tail.len() - i,
    {
        out.push(tail[i]);
        i += 1;
        assert(out@ =~= old(out)@ + tail@.subrange(0, i as int));
    }
    assert(tail@.subrange(0, tail@.len() as int) =~= tail@);
}

/// Renders `v` in ASCII decimal.
pub fn to_decimal(v: i64) -> (r: Vec<u8>)
    ensures
        r@ == decimal(v as int),
{
    let mut out: Vec<u8> = Vec::new();
    if v < 0 {
        out.push(45);
        let m: u64 = (-(v + 1)) as u64 + 1;
        push_digits(m, &mut out);
    } else {
        push_digits(v as u64, &mut out);
    }
    assert(out@ =~= decimal(v as int));
    out
}

} // verus!
