//! Framing of the replies that the master sends.

use crate::bytes::{digits, push_all, push_digits};
use crate::packed::rows;
use crate::reader::{ReadError, Reader};
use vstd::prelude::*;

verus! {

/// A reply as decoded.
#[derive(Debug)]
pub enum Resp {
    /// A line that began with `+`.
    String(Vec<u8>),
    /// A line that began with `:`.
    Int(i64),
    /// A length-prefixed block that began with `$`; `None` for a negative length.
    BulkBytes(Option<Vec<u8>>),
    /// A count-prefixed sequence that began with `*`; `None` for a negative count.
    Array(Option<Vec<Resp>>),
}

/// What a `Resp` stands for.
pub enum Frame {
    Simple(Seq<u8>),
    Int(i64),
    Bulk(Option<Seq<u8>>),
    Array(Option<Seq<Frame>>),
}

/// Why no reply was decoded.
#[derive(Debug)]
pub enum RespError {
    /// The source failed.
    Read(ReadError),
    /// The master answered with an error line; this is its text.
    Server(Vec<u8>),
    /// The bytes are not a reply.
    Malformed,
}

/// What a `RespError` stands for.
pub enum Fault {
    Read(ReadError),
    Server(Seq<u8>),
    Malformed,
}

impl Resp {
    /// The reply as a mathematical value.
    pub open spec fn model(&self) -> Frame
        decreases self,
    {
        match self {
            Resp::String(t) => Frame::Simple(t@),
            Resp::Int(v) => Frame::Int(*v),
            Resp::BulkBytes(None) => Frame::Bulk(None),
            Resp::BulkBytes(Some(b)) => Frame::Bulk(Some(b@)),
            Resp::Array(None) => Frame::Array(None),
            Resp::Array(Some(items)) => Frame::Array(Some(models(items@))),
        }
    }
}

/// The models of `items`, in order.
pub open spec fn models(items: Seq<Resp>) -> Seq<Frame>
    decreases items,
{
    Seq::new(
        items.len(),
        |i: int|
            if 0 <= i < items.len() {
                items[i].model()
            } else {
                Frame::Bulk(None)
            },
    )
}

impl RespError {
    /// The error as a mathematical value.
    pub open spec fn model(&self) -> Fault {
        match self {
            RespError::Read(e) => Fault::Read(*e),
            RespError::Server(t) => Fault::Server(t@),
            RespError::Malformed => Fault::Malformed,
        }
    }
}

/// The result of decoding at some position: the value and the position after
/// it, or the fault.
pub type Parsed<T> = Result<(T, int), Fault>;

/// The value of the decimal digits `t[from..to]`.
pub open spec fn number_value(t: Seq<u8>, from: int, to: int) -> int
    decreases to - from,
{
    if to <= from {
        0
    } else {
        number_value(t, from, to - 1) * 10 + (t[to - 1] - 48)
    }
}

/// Whether `t[from..to]` holds decimal digits only.
pub open spec fn all_digits(t: Seq<u8>, from: int, to: int) -> bool {
    forall|i: int| from <= i < to ==> 48 <= #[trigger] t[i] <= 57
}

/// The integer that `t` spells: an optional minus sign, then one or more
/// decimal digits, with a value that fits 64 bits.
pub open spec fn int_of(t: Seq<u8>) -> Option<i64> {
    let from: int = if t.len() > 0 && t[0] == 45 {
        1
    } else {
        0
    };
    if from >= t.len() || !all_digits(t, from, t.len() as int) {
        None
    } else {
        let m = number_value(t, from, t.len() as int);
        let v = if from == 1 {
            -m
        } else {
            m
        };
        if i64::MIN <= v <= i64::MAX {
            Some(v as i64)
        } else {
            None
        }
    }
}

proof fn lemma_number_grows(t: Seq<u8>, from: int, k: int, to: int)
    requires
        0 <= from <= k <= to <= t.len(),
        all_digits(t, from, to),
    ensures
        0 <= number_value(t, from, k) <= number_value(t, from, to),
    decreases to - from,
{
    if k < to {
        lemma_number_grows(t, from, k, to - 1);
        assert(48 <= t[to - 1] <= 57);
    } else if from < k {
        lemma_number_grows(t, from, k - 1, to - 1);
        assert(48 <= t[to - 1] <= 57);
    }
}

/// Reads a decimal integer out of `line`.
pub fn parse_int(line: &[u8]) -> (r: Option<i64>)
    ensures
        r == int_of(line@),
{
    let n: usize = line.len();
    let from: usize = if n > 0 && line[0] == 45 {
        1
    } else {
        0
    };
    if from >= n {
        return None;
    }
    let mut acc: u128 = 0;
    let mut k: usize = from;
    while k < n
        invariant
            from <= k <= n,
            n == line@.len(),
            from == 1 <==> line@[0] == 45,
            from == 0 || from == 1,
            all_digits(line@, from as int, k as int),
            acc == number_value(line@, from as int, k as int),
            acc <= 0x8000_0000_0000_0000,
        decreases n - k,
    {
        let d: u8 = line[k];
        if d < 48 || d > 57 {
            return None;
        }
        acc = acc * 10 + (d - 48) as u128;
        k += 1;
        if acc > 0x8000_0000_0000_0000 {
            proof {
                if all_digits(line@, from as int, n as int) {
                    lemma_number_grows(line@, from as int, k as int, n as int);
                }
            }
            return None;
        }
    }
    if from == 1 {
        if acc == 0x8000_0000_0000_0000 {
            Some(i64::MIN)
        } else {
            Some(-(acc as i64))
        }
    } else if acc == 0x8000_0000_0000_0000 {
        None
    } else {
        Some(acc as i64)
    }
}

/// The first position from `pos` on that holds a carriage return, or the
/// length of `s` where none does.
pub open spec fn line_end(s: Seq<u8>, pos: int) -> int
    decreases s.len() - pos,
{
    if pos < 0 || pos >= s.len() {
        s.len() as int
    } else if s[pos] == 13 {
        pos
    } else {
        line_end(s, pos + 1)
    }
}

/// The line that starts at `pos`, without its CRLF, and the position after
/// the CRLF.
pub open spec fn line_at(s: Seq<u8>, pos: int) -> Parsed<Seq<u8>> {
    let e = line_end(s, pos);
    if e + 1 >= s.len() {
        Err(Fault::Read(ReadError::UnexpectedEof))
    } else if s[e + 1] != 10 {
        Err(Fault::Malformed)
    } else {
        Ok((s.subrange(pos, e), e + 2))
    }
}

/// The line that starts at `pos`, read as an integer.
pub open spec fn int_line_at(s: Seq<u8>, pos: int) -> Parsed<i64> {
    match line_at(s, pos) {
        Err(e) => Err(e),
        Ok((line, p)) => match int_of(line) {
            None => Err(Fault::Malformed),
            Some(v) => Ok((v, p)),
        },
    }
}

/// The body of a bulk reply of `n` bytes at `pos`, and its CRLF.
pub open spec fn bulk_at(s: Seq<u8>, pos: int, n: int) -> Parsed<Frame> {
    if n < 0 {
        Ok((Frame::Bulk(None), pos))
    } else if pos + n + 2 > s.len() {
        Err(Fault::Read(ReadError::UnexpectedEof))
    } else if s[pos + n] != 13 || s[pos + n + 1] != 10 {
        Err(Fault::Malformed)
    } else {
        Ok((Frame::Bulk(Some(s.subrange(pos, pos + n))), pos + n + 2))
    }
}

/// The reply that starts at `pos`.
///
/// The first byte gives the kind: `+` a line of text, `-` an error line (a
/// fault with that text), `:` an integer line, `$` a length line and that many
/// bytes with a CRLF, `*` a count line and that many replies.
pub open spec fn frame_at(s: Seq<u8>, pos: int) -> Parsed<Frame>
    decreases s.len() - pos, 0nat,
{
    if !(0 <= pos < s.len()) {
        Err(Fault::Read(ReadError::UnexpectedEof))
    } else if s[pos] == 43 {
        match line_at(s, pos + 1) {
            Err(e) => Err(e),
            Ok((line, p)) => Ok((Frame::Simple(line), p)),
        }
    } else if s[pos] == 45 {
        match line_at(s, pos + 1) {
            Err(e) => Err(e),
            Ok((line, p)) => Err(Fault::Server(line)),
        }
    } else if s[pos] == 58 {
        match int_line_at(s, pos + 1) {
            Err(e) => Err(e),
            Ok((v, p)) => Ok((Frame::Int(v), p)),
        }
    } else if s[pos] == 36 {
        match int_line_at(s, pos + 1) {
            Err(e) => Err(e),
            Ok((n, p)) => bulk_at(s, p, n as int),
        }
    } else if s[pos] == 42 {
        match int_line_at(s, pos + 1) {
            Err(e) => Err(e),
            Ok((n, p)) => if n < 0 {
                Ok((Frame::Array(None), p))
            } else if p <= pos || p > s.len() {
                Err(Fault::Malformed)
            } else {
                match frames_at(s, p, n as nat, Seq::empty()) {
                    Err(e) => Err(e),
                    Ok((items, q)) => Ok((Frame::Array(Some(items)), q)),
                }
            },
        }
    } else {
        Err(Fault::Malformed)
    }
}

/// `acc` followed by the `n` replies that start at `pos`.
pub open spec fn frames_at(s: Seq<u8>, pos: int, n: nat, acc: Seq<Frame>) -> Parsed<Seq<Frame>>
    decreases s.len() - pos, n + 1,
{
    if n == 0 {
        Ok((acc, pos))
    } else if pos >= s.len() {
        Err(Fault::Read(ReadError::UnexpectedEof))
    } else {
        match frame_at(s, pos) {
            Err(e) => Err(e),
            Ok((f, p)) => if p <= pos || p > s.len() {
                Err(Fault::Malformed)
            } else {
                frames_at(s, p, (n - 1) as nat, acc.push(f))
            },
        }
    }
}

/// A line ends at or after the place where it starts.
pub proof fn lemma_line_end(s: Seq<u8>, pos: int)
    requires
        0 <= pos <= s.len(),
    ensures
        pos <= line_end(s, pos) <= s.len(),
        line_end(s, pos) < s.len() ==> s[line_end(s, pos)] == 13,
    decreases s.len() - pos,
{
    if pos < s.len() && s[pos] != 13 {
        lemma_line_end(s, pos + 1);
    }
}

/// A reply that was decoded ends after the place where it starts, within the
/// source.
pub proof fn lemma_frame_advances(s: Seq<u8>, pos: int)
    requires
        frame_at(s, pos) is Ok,
    ensures
        pos < frame_at(s, pos)->Ok_0.1 <= s.len(),
    decreases s.len() - pos, 0nat,
{
    lemma_line_end(s, pos + 1);
    if s[pos] == 42 {
        let (n, p) = int_line_at(s, pos + 1)->Ok_0;
        if n >= 0 {
            lemma_frames_advance(s, p, n as nat, Seq::empty());
        }
    }
}

/// Replies that were decoded end at or after the place where they start,
/// within the source.
pub proof fn lemma_frames_advance(s: Seq<u8>, pos: int, n: nat, acc: Seq<Frame>)
    requires
        frames_at(s, pos, n, acc) is Ok,
        0 <= pos <= s.len(),
    ensures
        pos <= frames_at(s, pos, n, acc)->Ok_0.1 <= s.len(),
        frames_at(s, pos, n, acc)->Ok_0.0.len() == acc.len() + n,
    decreases s.len() - pos, n + 1,
{
    if n > 0 {
        lemma_frame_advances(s, pos);
        let (f, p) = frame_at(s, pos)->Ok_0;
        lemma_frames_advance(s, p, (n - 1) as nat, acc.push(f));
    }
}

/// `r` as a mathematical value.
pub open spec fn parsed(r: Result<Resp, RespError>, end: int) -> Parsed<Frame> {
    match r {
        Ok(v) => Ok((v.model(), end)),
        Err(e) => Err(e.model()),
    }
}

fn lift<T>(r: Result<T, ReadError>) -> (out: Result<T, RespError>)
    ensures
        match r {
            Ok(v) => out == Ok::<T, RespError>(v),
            Err(e) => out == Err::<T, RespError>(RespError::Read(e)),
        },
{
    match r {
        Ok(v) => Ok(v),
        Err(e) => Err(RespError::Read(e)),
    }
}

/// Reads a line up to its CRLF.
pub fn decode_line(reader: &mut Reader) -> (r: Result<Vec<u8>, RespError>)
    requires
        old(reader).wf(),
    ensures
        final(reader).follows(*old(reader)),
        match r {
            Ok(line) => line_at(old(reader).source(), old(reader).position()) == Ok::<
                (Seq<u8>, int),
                Fault,
            >((line@, final(reader).position())),
            Err(e) => line_at(old(reader).source(), old(reader).position()) == Err::<
                (Seq<u8>, int),
                Fault,
            >(e.model()),
        },
{
    let ghost s = reader.source();
    let ghost start = reader.position();
    let mut line: Vec<u8> = Vec::new();
    loop
        invariant
            reader.follows(*old(reader)),
            0 <= start <= reader.position() <= s.len(),
            s == old(reader).source(),
            start == old(reader).position(),
            line@ == s.subrange(start, reader.position()),
            line_end(s, start) == line_end(s, reader.position()),
        decreases s.len() - reader.position(),
    {
        let ghost here = reader.position();
        let b: u8 = match reader.read_u8() {
            Ok(b) => b,
            Err(e) => {
                return Err(RespError::Read(e));
            },
        };
        if b == 13 {
            let nl: u8 = match reader.read_u8() {
                Ok(b) => b,
                Err(e) => {
                    return Err(RespError::Read(e));
                },
            };
            if nl != 10 {
                return Err(RespError::Malformed);
            }
            return Ok(line);
        }
        line.push(b);
        assert(line@ =~= s.subrange(start, here + 1));
    }
}

/// Reads a line and the integer on it.
pub fn decode_int(reader: &mut Reader) -> (r: Result<i64, RespError>)
    requires
        old(reader).wf(),
    ensures
        final(reader).follows(*old(reader)),
        match r {
            Ok(v) => int_line_at(old(reader).source(), old(reader).position()) == Ok::<
                (i64, int),
                Fault,
            >((v, final(reader).position())),
            Err(e) => int_line_at(old(reader).source(), old(reader).position()) == Err::<
                (i64, int),
                Fault,
            >(e.model()),
        },
{
    let line = decode_line(reader)?;
    match parse_int(line.as_slice()) {
        Some(v) => Ok(v),
        None => Err(RespError::Malformed),
    }
}

fn decode_bulk(reader: &mut Reader, n: i64) -> (r: Result<Resp, RespError>)
    requires
        old(reader).wf(),
    ensures
        final(reader).follows(*old(reader)),
        parsed(r, final(reader).position()) == bulk_at(
            old(reader).source(),
            old(reader).position(),
            n as int,
        ),
{
    if n < 0 {
        return Ok(Resp::BulkBytes(None));
    }
    if (reader.remaining() as u64) < n as u64 + 2 {
        return Err(RespError::Read(ReadError::UnexpectedEof));
    }
    let body = lift(reader.read_exact(n as usize))?;
    let cr: u8 = lift(reader.read_u8())?;
    let nl: u8 = lift(reader.read_u8())?;
    if cr != 13 || nl != 10 {
        return Err(RespError::Malformed);
    }
    Ok(Resp::BulkBytes(Some(body)))
}

/// Decodes one reply.
///
/// An error line from the master comes back as `RespError::Server` with its
/// text, wherever in the reply it stands.
pub fn decode_resp(reader: &mut Reader) -> (r: Result<Resp, RespError>)
    requires
        old(reader).wf(),
    ensures
        final(reader).follows(*old(reader)),
        parsed(r, final(reader).position()) == frame_at(
            old(reader).source(),
            old(reader).position(),
        ),
    decreases old(reader).source().len() - old(reader).position(),
{
    let ghost s = reader.source();
    let ghost start = reader.position();
    let kind: u8 = lift(reader.read_u8())?;
    proof {
        lemma_line_end(s, start + 1);
    }
    if kind == 43 {
        let line = decode_line(reader)?;
        Ok(Resp::String(line))
    } else if kind == 45 {
        let line = decode_line(reader)?;
        Err(RespError::Server(line))
    } else if kind == 58 {
        let v: i64 = decode_int(reader)?;
        Ok(Resp::Int(v))
    } else if kind == 36 {
        let n: i64 = decode_int(reader)?;
        decode_bulk(reader, n)
    } else if kind == 42 {
        let n: i64 = decode_int(reader)?;
        if n < 0 {
            return Ok(Resp::Array(None));
        }
        let ghost first = reader.position();
        let mut items: Vec<Resp> = Vec::new();
        let mut i: i64 = 0;
        assert(models(items@) =~= Seq::empty());
        while i < n
            invariant
                0 <= i <= n,
                reader.follows(*old(reader)),
                s == old(reader).source(),
                start == old(reader).position(),
                0 <= start < first <= reader.position() <= s.len(),
                s[start] == 42,
                int_line_at(s, start + 1) == Ok::<(i64, int), Fault>((n, first)),
                frames_at(s, reader.position(), (n - i) as nat, models(items@)) == frames_at(
                    s,
                    first,
                    n as nat,
                    Seq::empty(),
                ),
            decreases n - i,
        {
            let ghost here = reader.position();
            let ghost before = models(items@);
            let item = decode_resp(reader)?;
            proof {
                lemma_frame_advances(s, here);
            }
            items.push(item);
            assert(models(items@) =~= before.push(item.model()));
            i += 1;
        }
        Ok(Resp::Array(Some(items)))
    } else {
        Err(RespError::Malformed)
    }
}

/// A carriage return and a line feed.
pub open spec fn crlf() -> Seq<u8> {
    seq![13u8, 10u8]
}

/// `b` as a bulk reply: `$`, its length in decimal, CRLF, the bytes, CRLF.
pub open spec fn bulk_bytes(b: Seq<u8>) -> Seq<u8> {
    seq![36u8] + digits(b.len()) + crlf() + b + crlf()
}

/// The bulk replies of `args`, one after the other.
pub open spec fn bulks(args: Seq<Seq<u8>>) -> Seq<u8>
    decreases args.len(),
{
    if args.len() == 0 {
        Seq::empty()
    } else {
        bulks(args.drop_last()) + bulk_bytes(args.last())
    }
}

/// A command as it is sent: `*`, the number of its words in decimal, CRLF,
/// then the command's name and each argument as a bulk reply.
pub open spec fn command_bytes(name: Seq<u8>, args: Seq<Seq<u8>>) -> Seq<u8> {
    seq![42u8] + digits(args.len() + 1) + crlf() + bulk_bytes(name) + bulks(args)
}

fn push_bulk(out: &mut Vec<u8>, b: &[u8])
    ensures
        final(out)@ == old(out)@ + bulk_bytes(b@),
{
    out.push(36);
    push_digits(b.len() as u64, out);
    out.push(13);
    out.push(10);
    push_all(out, b);
    out.push(13);
    out.push(10);
    assert(out@ =~= old(out)@ + bulk_bytes(b@));
}

/// Frames the command `name` with the arguments `args` for sending.
pub fn encode_command(name: &[u8], args: &Vec<Vec<u8>>) -> (r: Vec<u8>)
    requires
        args@.len() < u64::MAX,
    ensures
        r@ == command_bytes(name@, rows(args@)),
{
    let mut out: Vec<u8> = Vec::new();
    out.push(42);
    push_digits(args.len() as u64 + 1, &mut out);
    out.push(13);
    out.push(10);
    push_bulk(&mut out, name);
    let ghost head = out@;
    assert(head =~= seq![42u8] + digits(args@.len() + 1) + crlf() + bulk_bytes(name@));
    let mut i: usize = 0;
    while i < args.len()
        invariant
            i <= args@.len(),
            out@ == head + bulks(rows(args@).subrange(0, i as int)),
        decreases args.len() - i,
    {
        let ghost before = rows(args@).subrange(0, i as int);
        push_bulk(&mut out, args[i].as_slice());
        i += 1;
        let ghost now = rows(args@).subrange(0, i as int);
        assert(now.drop_last() =~= before);
        assert(now.last() == args@[i - 1]@);
        assert(out@ =~= head + bulks(now));
    }
    assert(rows(args@).subrange(0, args@.len() as int) =~= rows(args@));
    out
}

} // verus!
