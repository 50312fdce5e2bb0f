//! A reader over a byte buffer that can count what it hands out, and the
//! length, integer and string encodings of the snapshot format read with it.

use crate::bytes::{
    be_nat, decimal, lemma_bounds, i16_be_at, i16_le_at, i32_be_at, i32_le_at, i64_be_at, i64_le_at, le_nat,
    signed, to_decimal, u32_be_at, u32_le_at, u64_be_at, u64_le_at,
};
use crate::lzf::{decompress, inflate};
use vstd::prelude::*;
use vstd::slice::{slice_subrange, slice_to_vec};

verus! {

/// Why a read failed.
#[derive(Clone, Copy, Debug, PartialEq, Eq, Structural)]
pub enum ReadError {
    /// The source ended before the bytes asked for.
    UnexpectedEof,
    /// `unmark` without a `mark` before it.
    NotMarked,
    /// The bytes read do not form what was expected.
    InvalidData,
}

/// The result of a read at some position, and the position after it.
pub type Step<T> = (Result<T, ReadError>, int);

/// One byte.
pub open spec fn byte_at(s: Seq<u8>, pos: int) -> Step<u8> {
    if 0 <= pos < s.len() {
        (Ok(s[pos]), pos + 1)
    } else {
        (Err(ReadError::UnexpectedEof), pos)
    }
}

/// Exactly `n` bytes, or nothing.
pub open spec fn bytes_at(s: Seq<u8>, pos: int, n: int) -> Step<Seq<u8>> {
    if 0 <= pos && 0 <= n && pos + n <= s.len() {
        (Ok(s.subrange(pos, pos + n)), pos + n)
    } else {
        (Err(ReadError::UnexpectedEof), pos)
    }
}

/// One byte in two's complement.
pub open spec fn i8_at(s: Seq<u8>, pos: int) -> Step<i8> {
    if 0 <= pos < s.len() {
        (Ok(signed(s[pos] as nat, 1) as i8), pos + 1)
    } else {
        (Err(ReadError::UnexpectedEof), pos)
    }
}

/// The signed number that `size` bytes at `pos` spell in the given order.
pub open spec fn number(s: Seq<u8>, pos: int, size: nat, big_endian: bool) -> int {
    if big_endian {
        signed(be_nat(s, pos, size), size)
    } else {
        signed(le_nat(s, pos, size), size)
    }
}

/// Eight bytes as a signed integer.
pub open spec fn i64_at(s: Seq<u8>, pos: int, big_endian: bool) -> Step<i64> {
    if 0 <= pos && pos + 8 <= s.len() {
        (Ok(number(s, pos, 8, big_endian) as i64), pos + 8)
    } else {
        (Err(ReadError::UnexpectedEof), pos)
    }
}

/// Four bytes as an unsigned integer.
pub open spec fn u32_at(s: Seq<u8>, pos: int, big_endian: bool) -> Step<u32> {
    if 0 <= pos && pos + 4 <= s.len() {
        if big_endian {
            (Ok(be_nat(s, pos, 4) as u32), pos + 4)
        } else {
            (Ok(le_nat(s, pos, 4) as u32), pos + 4)
        }
    } else {
        (Err(ReadError::UnexpectedEof), pos)
    }
}

/// Eight bytes as an unsigned integer.
pub open spec fn u64_at(s: Seq<u8>, pos: int, big_endian: bool) -> Step<u64> {
    if 0 <= pos && pos + 8 <= s.len() {
        if big_endian {
            (Ok(be_nat(s, pos, 8) as u64), pos + 8)
        } else {
            (Ok(le_nat(s, pos, 8) as u64), pos + 8)
        }
    } else {
        (Err(ReadError::UnexpectedEof), pos)
    }
}

/// `size` bytes as a signed integer. The bytes are taken first; a size other
/// than 2, 4 or 8 is then refused.
pub open spec fn integer_at(s: Seq<u8>, pos: int, size: int, big_endian: bool) -> Step<i64> {
    if 0 <= pos && 0 <= size && pos + size <= s.len() {
        if size == 2 || size == 4 || size == 8 {
            (Ok(number(s, pos, size as nat, big_endian) as i64), pos + size)
        } else {
            (Err(ReadError::InvalidData), pos + size)
        }
    } else {
        (Err(ReadError::UnexpectedEof), pos)
    }
}

/// A length, or the selector of a special encoding (then the flag is set).
///
/// The top two bits of the first byte choose the form: `00` a 6-bit length,
/// `01` a 14-bit length with one more byte, `10` a 32-bit (`0x80`) or 64-bit
/// (`0x81`) big-endian length after the byte, `11` a special encoding.
pub open spec fn length_at(s: Seq<u8>, pos: int) -> Step<(u64, bool)> {
    if !(0 <= pos < s.len()) {
        (Err(ReadError::UnexpectedEof), pos)
    } else {
        let b = s[pos];
        if b / 64 == 3 {
            (Ok(((b % 64) as u64, true)), pos + 1)
        } else if b / 64 == 0 {
            (Ok(((b % 64) as u64, false)), pos + 1)
        } else if b / 64 == 1 {
            if pos + 2 <= s.len() {
                (Ok((((b % 64) * 256 + s[pos + 1]) as u64, false)), pos + 2)
            } else {
                (Err(ReadError::UnexpectedEof), pos + 1)
            }
        } else if b == 0x80 {
            if pos + 5 <= s.len() {
                (Ok((be_nat(s, pos + 1, 4) as u64, false)), pos + 5)
            } else {
                (Err(ReadError::UnexpectedEof), pos + 1)
            }
        } else if b == 0x81 {
            if pos + 9 <= s.len() {
                (Ok((be_nat(s, pos + 1, 8) as u64, false)), pos + 9)
            } else {
                (Err(ReadError::UnexpectedEof), pos + 1)
            }
        } else {
            (Err(ReadError::InvalidData), pos + 1)
        }
    }
}

/// An LZF block: compressed length, length when inflated, compressed bytes.
pub open spec fn lzf_at(s: Seq<u8>, pos: int) -> Step<Seq<u8>> {
    let (clen, after) = length_at(s, pos);
    match clen {
        Err(e) => (Err(e), after),
        Ok((clen, _)) => {
            let (ulen, next) = length_at(s, after);
            match ulen {
                Err(e) => (Err(e), next),
                Ok((ulen, _)) => {
                    let (packed, end) = bytes_at(s, next, clen as int);
                    match packed {
                        Err(e) => (Err(e), end),
                        Ok(packed) => match inflate(packed, ulen as int) {
                            Some(v) => (Ok(v), end),
                            None => (Err(ReadError::InvalidData), end),
                        },
                    }
                },
            }
        },
    }
}

/// A string: a length and that many bytes, or one of the special encodings:
/// `0`, `1`, `2` an integer of 1, 2, 4 bytes (little-endian) given in decimal,
/// `3` an LZF block.
pub open spec fn string_at(s: Seq<u8>, pos: int) -> Step<Seq<u8>> {
    let (head, after) = length_at(s, pos);
    match head {
        Err(e) => (Err(e), after),
        Ok((n, false)) => bytes_at(s, after, n as int),
        Ok((n, true)) => {
            if n == 0 {
                match i8_at(s, after) {
                    (Ok(v), next) => (Ok(decimal(v as int)), next),
                    (Err(e), next) => (Err(e), next),
                }
            } else if n == 1 || n == 2 {
                match integer_at(s, after, 2 * n, false) {
                    (Ok(v), next) => (Ok(decimal(v as int)), next),
                    (Err(e), next) => (Err(e), next),
                }
            } else if n == 3 {
                lzf_at(s, after)
            } else {
                (Err(ReadError::InvalidData), after)
            }
        },
    }
}

/// The text `-inf`.
pub open spec fn minus_infinity() -> Seq<u8> {
    seq![45u8, 105u8, 110u8, 102u8]
}

/// The text `inf`.
pub open spec fn infinity() -> Seq<u8> {
    seq![105u8, 110u8, 102u8]
}

/// The text `NaN`.
pub open spec fn not_a_number() -> Seq<u8> {
    seq![78u8, 97u8, 78u8]
}

/// A floating point number in its text form: a first byte of 255, 254 or 253
/// stands for `-inf`, `inf` or `NaN`; any other is the number of bytes of text
/// that follow.
pub open spec fn double_at(s: Seq<u8>, pos: int) -> Step<Seq<u8>> {
    if !(0 <= pos < s.len()) {
        (Err(ReadError::UnexpectedEof), pos)
    } else if s[pos] == 255 {
        (Ok(minus_infinity()), pos + 1)
    } else if s[pos] == 254 {
        (Ok(infinity()), pos + 1)
    } else if s[pos] == 253 {
        (Ok(not_a_number()), pos + 1)
    } else {
        bytes_at(s, pos + 1, s[pos] as int)
    }
}

/// `r` with its bytes taken as a sequence.
pub open spec fn seen(r: Result<Vec<u8>, ReadError>) -> Result<Seq<u8>, ReadError> {
    match r {
        Ok(v) => Ok(v@),
        Err(e) => Err(e),
    }
}

/// A byte source with a position, which counts the bytes it hands out while it
/// is marked.
pub struct Reader {
    data: Vec<u8>,
    pos: usize,
    len: u64,
    marked: bool,
    origin: Ghost<int>,
}

impl Reader {
    /// All the bytes of the source.
    pub closed spec fn source(&self) -> Seq<u8> {
        self.data@
    }

    /// How many bytes of the source have been handed out.
    pub closed spec fn position(&self) -> int {
        self.pos as int
    }

    /// Whether the reader is counting.
    pub closed spec fn is_marked(&self) -> bool {
        self.marked
    }

    /// The counter.
    pub closed spec fn counted(&self) -> int {
        self.len as int
    }

    /// The position at which counting began.
    pub closed spec fn origin(&self) -> int {
        self.origin@
    }

    /// The position lies within the source, and the counter holds the bytes
    /// handed out since counting began: nothing while unmarked.
    pub open spec fn wf(&self) -> bool {
        &&& 0 <= self.position() <= self.source().len()
        &&& self.is_marked() ==> 0 <= self.origin() && self.counted() == self.position()
            - self.origin()
        &&& !self.is_marked() ==> self.counted() == 0
    }

    /// `self` is `pre` after some reads: the same source and mark, further on.
    pub open spec fn follows(&self, pre: Reader) -> bool {
        &&& self.wf()
        &&& self.source() == pre.source()
        &&& self.is_marked() == pre.is_marked()
        &&& self.origin() == pre.origin()
        &&& pre.position() <= self.position()
    }

    /// Reads after reads are reads: `follows` is transitive.
    pub proof fn lemma_follows_on(&self, mid: Reader, pre: Reader)
        requires
            self.follows(mid),
            mid.follows(pre),
        ensures
            self.follows(pre),
    {
    }

    /// Whatever was read since the reader `marked` was marked, by whichever
    /// reads in whichever order, the counter holds the number of bytes that
    /// were handed out since then.
    pub proof fn lemma_counts_what_was_read(&self, marked: Reader)
        requires
            marked.wf(),
            marked.is_marked(),
            marked.counted() == 0,
            self.follows(marked),
        ensures
            self.counted() == self.position() - marked.position(),
    {
    }

    /// A reader at the start of `data`, not counting.
    pub fn new(data: Vec<u8>) -> (r: Reader)
        ensures
            r.wf(),
            r.source() == data@,
            r.position() == 0,
            !r.is_marked(),
    {
        Reader { data, pos: 0, len: 0, marked: false, origin: Ghost(0) }
    }

    /// Gives the source back.
    pub fn into_inner(self) -> (r: Vec<u8>)
        ensures
            r@ == self.source(),
    {
        self.data
    }

    /// Number of bytes not yet handed out.
    pub fn remaining(&self) -> (n: usize)
        requires
            self.wf(),
        ensures
            n == self.source().len() - self.position(),
    {
        self.data.len() - self.pos
    }

    /// The position, as a number of bytes from the start of the source.
    pub fn offset(&self) -> (n: usize)
        requires
            self.wf(),
        ensures
            n == self.position(),
    {
        self.pos
    }

    /// A copy of the bytes of the source from `from` up to `to`.
    pub fn copy(&self, from: usize, to: usize) -> (r: Vec<u8>)
        requires
            from <= to <= self.source().len(),
        ensures
            r@ == self.source().subrange(from as int, to as int),
    {
        slice_to_vec(slice_subrange(self.data.as_slice(), from, to))
    }

    fn advance(&mut self, n: usize)
        requires
            old(self).wf(),
            old(self).position() + n <= old(self).source().len(),
        ensures
            final(self).follows(*old(self)),
            final(self).position() == old(self).position() + n,
    {
        let _total: usize = self.data.len();
        self.pos = self.pos + n;
        if self.marked {
            self.len = self.len + n as u64;
        }
    }

    fn take(&mut self, n: u64) -> (r: Result<Vec<u8>, ReadError>)
        requires
            old(self).wf(),
        ensures
            final(self).follows(*old(self)),
            seen(r) == bytes_at(old(self).source(), old(self).position(), n as int).0,
            final(self).position() == bytes_at(
                old(self).source(),
                old(self).position(),
                n as int,
            ).1,
    {
        if n > (self.data.len() - self.pos) as u64 {
            return Err(ReadError::UnexpectedEof);
        }
        let k: usize = n as usize;
        let out = slice_to_vec(slice_subrange(self.data.as_slice(), self.pos, self.pos + k));
        self.advance(k);
        Ok(out)
    }

    /// Passes over exactly `n` bytes, or none where fewer are left.
    pub fn skip(&mut self, n: u64) -> (r: Result<(), ReadError>)
        requires
            old(self).wf(),
        ensures
            final(self).follows(*old(self)),
            match r {
                Ok(_) => final(self).position() == old(self).position() + n,
                Err(e) => e == ReadError::UnexpectedEof && final(self).position() == old(
                    self,
                ).position() && old(self).position() + n > old(self).source().len(),
            },
    {
        if n > (self.data.len() - self.pos) as u64 {
            return Err(ReadError::UnexpectedEof);
        }
        self.advance(n as usize);
        Ok(())
    }

    /// Reads one byte.
    pub fn read_u8(&mut self) -> (r: Result<u8, ReadError>)
        requires
            old(self).wf(),
        ensures
            final(self).follows(*old(self)),
            r == byte_at(old(self).source(), old(self).position()).0,
            final(self).position() == byte_at(old(self).source(), old(self).position()).1,
    {
        if self.pos >= self.data.len() {
            return Err(ReadError::UnexpectedEof);
        }
        let b: u8 = self.data[self.pos];
        self.advance(1);
        Ok(b)
    }

    /// Reads exactly `n` bytes, or none where fewer are left.
    pub fn read_exact(&mut self, n: usize) -> (r: Result<Vec<u8>, ReadError>)
        requires
            old(self).wf(),
        ensures
            final(self).follows(*old(self)),
            seen(r) == bytes_at(old(self).source(), old(self).position(), n as int).0,
            final(self).position() == bytes_at(
                old(self).source(),
                old(self).position(),
                n as int,
            ).1,
    {
        self.take(n as u64)
    }

    /// Reads eight bytes as a signed integer in the given byte order.
    pub fn read_i64(&mut self, big_endian: bool) -> (r: Result<i64, ReadError>)
        requires
            old(self).wf(),
        ensures
            final(self).follows(*old(self)),
            r == i64_at(old(self).source(), old(self).position(), big_endian).0,
            final(self).position() == i64_at(
                old(self).source(),
                old(self).position(),
                big_endian,
            ).1,
    {
        if self.data.len() - self.pos < 8 {
            return Err(ReadError::UnexpectedEof);
        }
        let v: i64 = if big_endian {
            i64_be_at(self.data.as_slice(), self.pos)
        } else {
            i64_le_at(self.data.as_slice(), self.pos)
        };
        self.advance(8);
        Ok(v)
    }

    /// Reads four bytes as an unsigned integer in the given byte order.
    pub fn read_u32(&mut self, big_endian: bool) -> (r: Result<u32, ReadError>)
        requires
            old(self).wf(),
        ensures
            final(self).follows(*old(self)),
            r == u32_at(old(self).source(), old(self).position(), big_endian).0,
            final(self).position() == u32_at(
                old(self).source(),
                old(self).position(),
                big_endian,
            ).1,
    {
        if self.data.len() - self.pos < 4 {
            return Err(ReadError::UnexpectedEof);
        }
        let v: u32 = if big_endian {
            u32_be_at(self.data.as_slice(), self.pos)
        } else {
            u32_le_at(self.data.as_slice(), self.pos)
        };
        self.advance(4);
        Ok(v)
    }

    /// Reads eight bytes as an unsigned integer in the given byte order.
    pub fn read_u64(&mut self, big_endian: bool) -> (r: Result<u64, ReadError>)
        requires
            old(self).wf(),
        ensures
            final(self).follows(*old(self)),
            r == u64_at(old(self).source(), old(self).position(), big_endian).0,
            final(self).position() == u64_at(
                old(self).source(),
                old(self).position(),
                big_endian,
            ).1,
    {
        if self.data.len() - self.pos < 8 {
            return Err(ReadError::UnexpectedEof);
        }
        let v: u64 = if big_endian {
            u64_be_at(self.data.as_slice(), self.pos)
        } else {
            u64_le_at(self.data.as_slice(), self.pos)
        };
        self.advance(8);
        Ok(v)
    }

    /// Reads one byte as a signed integer.
    pub fn read_i8(&mut self) -> (r: Result<i8, ReadError>)
        requires
            old(self).wf(),
        ensures
            final(self).follows(*old(self)),
            r == i8_at(old(self).source(), old(self).position()).0,
            final(self).position() == i8_at(old(self).source(), old(self).position()).1,
    {
        if self.pos >= self.data.len() {
            return Err(ReadError::UnexpectedEof);
        }
        let b: u8 = self.data[self.pos];
        self.advance(1);
        if b < 128 {
            Ok(b as i8)
        } else {
            Ok((b as i16 - 256) as i8)
        }
    }

    /// Starts counting, from zero.
    pub fn mark(&mut self)
        requires
            old(self).wf(),
        ensures
            final(self).wf(),
            final(self).source() == old(self).source(),
            final(self).position() == old(self).position(),
            final(self).is_marked(),
            final(self).origin() == old(self).position(),
            final(self).counted() == 0,
    {
        self.marked = true;
        self.len = 0;
        self.origin = Ghost(self.pos as int);
    }

    /// Stops counting and returns the count: the number of bytes handed out
    /// since `mark`, by whichever reads. Fails where the reader was not marked.
    pub fn unmark(&mut self) -> (r: Result<u64, ReadError>)
        requires
            old(self).wf(),
        ensures
            final(self).wf(),
            final(self).source() == old(self).source(),
            final(self).position() == old(self).position(),
            !final(self).is_marked(),
            match r {
                Ok(n) => old(self).is_marked() && n == old(self).counted() && n == old(
                    self,
                ).position() - old(self).origin(),
                Err(e) => !old(self).is_marked() && e == ReadError::NotMarked,
            },
    {
        if self.marked {
            let len: u64 = self.len;
            self.len = 0;
            self.marked = false;
            return Ok(len);
        }
        Err(ReadError::NotMarked)
    }

    /// Reads a length, or the selector of a special encoding.
    pub fn read_length(&mut self) -> (r: Result<(u64, bool), ReadError>)
        requires
            old(self).wf(),
        ensures
            final(self).follows(*old(self)),
            r == length_at(old(self).source(), old(self).position()).0,
            final(self).position() == length_at(old(self).source(), old(self).position()).1,
    {
        let byte: u8 = self.read_u8()?;
        let kind: u8 = byte / 64;
        if kind == 3 {
            Ok(((byte % 64) as u64, true))
        } else if kind == 0 {
            Ok(((byte % 64) as u64, false))
        } else if kind == 1 {
            let next: u8 = self.read_u8()?;
            Ok((((byte % 64) as u64) * 256 + next as u64, false))
        } else if byte == 0x80 {
            proof {
                lemma_bounds(self.source(), self.position(), 4);
            }
            let v: u32 = self.read_u32(true)?;
            Ok((v as u64, false))
        } else if byte == 0x81 {
            proof {
                lemma_bounds(self.source(), self.position(), 8);
            }
            let v: u64 = self.read_u64(true)?;
            Ok((v, false))
        } else {
            Err(ReadError::InvalidData)
        }
    }

    /// Reads `size` bytes as a signed integer in the given byte order; `size`
    /// is 2, 4 or 8.
    pub fn read_integer(&mut self, size: usize, big_endian: bool) -> (r: Result<i64, ReadError>)
        requires
            old(self).wf(),
        ensures
            final(self).follows(*old(self)),
            r == integer_at(old(self).source(), old(self).position(), size as int, big_endian).0,
            final(self).position() == integer_at(
                old(self).source(),
                old(self).position(),
                size as int,
                big_endian,
            ).1,
    {
        if size > self.data.len() - self.pos {
            return Err(ReadError::UnexpectedEof);
        }
        let at: usize = self.pos;
        self.advance(size);
        let data: &[u8] = self.data.as_slice();
        if size == 2 {
            if big_endian {
                Ok(i16_be_at(data, at) as i64)
            } else {
                Ok(i16_le_at(data, at) as i64)
            }
        } else if size == 4 {
            if big_endian {
                Ok(i32_be_at(data, at) as i64)
            } else {
                Ok(i32_le_at(data, at) as i64)
            }
        } else if size == 8 {
            if big_endian {
                Ok(i64_be_at(data, at))
            } else {
                Ok(i64_le_at(data, at))
            }
        } else {
            Err(ReadError::InvalidData)
        }
    }

    fn read_lzf(&mut self) -> (r: Result<Vec<u8>, ReadError>)
        requires
            old(self).wf(),
        ensures
            final(self).follows(*old(self)),
            seen(r) == lzf_at(old(self).source(), old(self).position()).0,
            final(self).position() == lzf_at(old(self).source(), old(self).position()).1,
    {
        let (packed_len, _) = self.read_length()?;
        let (full_len, _) = self.read_length()?;
        let packed = self.take(packed_len)?;
        match decompress(packed.as_slice(), full_len) {
            Some(v) => Ok(v),
            None => Err(ReadError::InvalidData),
        }
    }

    /// Reads a string in any of its encodings.
    pub fn read_string(&mut self) -> (r: Result<Vec<u8>, ReadError>)
        requires
            old(self).wf(),
        ensures
            final(self).follows(*old(self)),
            seen(r) == string_at(old(self).source(), old(self).position()).0,
            final(self).position() == string_at(old(self).source(), old(self).position()).1,
    {
        let (length, is_encoded) = self.read_length()?;
        if !is_encoded {
            return self.take(length);
        }
        if length == 0 {
            let v: i8 = self.read_i8()?;
            Ok(to_decimal(v as i64))
        } else if length == 1 {
            let v: i64 = self.read_integer(2, false)?;
            Ok(to_decimal(v))
        } else if length == 2 {
            let v: i64 = self.read_integer(4, false)?;
            Ok(to_decimal(v))
        } else if length == 3 {
            self.read_lzf()
        } else {
            Err(ReadError::InvalidData)
        }
    }

    /// Reads a floating point number in its text form.
    pub fn read_double(&mut self) -> (r: Result<Vec<u8>, ReadError>)
        requires
            old(self).wf(),
        ensures
            final(self).follows(*old(self)),
            seen(r) == double_at(old(self).source(), old(self).position()).0,
            final(self).position() == double_at(old(self).source(), old(self).position()).1,
    {
        let len: u8 = self.read_u8()?;
        if len == 255 {
            let v: Vec<u8> = vec![45u8, 105u8, 110u8, 102u8];
            assert(v@ =~= minus_infinity());
            Ok(v)
        } else if len == 254 {
            let v: Vec<u8> = vec![105u8, 110u8, 102u8];
            assert(v@ =~= infinity());
            Ok(v)
        } else if len == 253 {
            let v: Vec<u8> = vec![78u8, 97u8, 78u8];
            assert(v@ =~= not_a_number());
            Ok(v)
        } else {
            self.take(len as u64)
        }
    }
}

} // verus!
