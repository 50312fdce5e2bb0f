//! Decoding of a snapshot: a header, records, a trailer.

pub mod object;
pub mod stream;
pub mod value;

use crate::rdb::object::{emitted, Emitted, ExpireType, Meta, Object, Payload, RdbError};
use crate::rdb::value::{
    agrees, count, count_at, decode_value, module_end, raise, skip_module, value_at, Decoded,
};
use crate::reader::{byte_at, i64_at, string_at, u32_at, ReadError, Reader};
use vstd::prelude::*;

verus! {

/// The metadata of a key in database `db` that does not expire.
pub open spec fn fresh(db: u32) -> Meta {
    Meta { db, expired_type: ExpireType::Never, expired_time: None }
}

/// Whether `b` is an ASCII decimal digit.
pub open spec fn is_digit(b: u8) -> bool {
    48 <= b <= 57
}

/// Whether the text `REDIS` stands at `pos`.
pub open spec fn has_magic(s: Seq<u8>, pos: int) -> bool {
    s[pos] == 82 && s[pos + 1] == 69 && s[pos + 2] == 68 && s[pos + 3] == 73 && s[pos + 4] == 83
}

/// The number that the four decimal digits at `pos` spell.
pub open spec fn four_digits(s: Seq<u8>, pos: int) -> int {
    (s[pos] - 48) * 1000 + (s[pos + 1] - 48) * 100 + (s[pos + 2] - 48) * 10 + (s[pos + 3] - 48)
}

/// The format version in the header at `pos`: the text `REDIS` and four
/// decimal digits.
pub open spec fn header_at(s: Seq<u8>, pos: int) -> Decoded<u32> {
    if !(0 <= pos && pos + 9 <= s.len()) {
        Err(RdbError::Read(ReadError::UnexpectedEof))
    } else if !has_magic(s, pos) || !is_digit(s[pos + 5]) || !is_digit(s[pos + 6]) || !is_digit(
        s[pos + 7],
    ) || !is_digit(s[pos + 8]) {
        Err(RdbError::BadMagic)
    } else {
        Ok((four_digits(s, pos + 5) as u32, pos + 9))
    }
}

/// What the control record with opcode `op`, whose body starts at `pos`,
/// makes of the metadata of the next key.
///
/// 254 selects a database; 253 and 252 set the expiry time of the next key,
/// in seconds (four bytes) or milliseconds (eight bytes), least significant
/// byte first; 251 announces table sizes, 250 carries a pair of strings, 249
/// one byte and 248 a length, 247 a module's preamble: these change nothing.
#[verifier::opaque]
pub open spec fn control_at(s: Seq<u8>, pos: int, op: u8, meta: Meta) -> Decoded<Meta> {
    if op == 254 {
        match count_at(s, pos) {
            Err(e) => Err(e),
            Ok((n, p)) => if n > u32::MAX {
                Err(RdbError::Malformed)
            } else {
                Ok(
                    (
                        Meta {
                            db: n as u32,
                            expired_type: meta.expired_type,
                            expired_time: meta.expired_time,
                        },
                        p,
                    ),
                )
            },
        }
    } else if op == 253 {
        match u32_at(s, pos, false) {
            (Err(e), _) => Err(RdbError::Read(e)),
            (Ok(v), p) => Ok(
                (
                    Meta {
                        db: meta.db,
                        expired_type: ExpireType::Seconds,
                        expired_time: Some(v as i64),
                    },
                    p,
                ),
            ),
        }
    } else if op == 252 {
        match i64_at(s, pos, false) {
            (Err(e), _) => Err(RdbError::Read(e)),
            (Ok(v), p) => Ok(
                (
                    Meta {
                        db: meta.db,
                        expired_type: ExpireType::Millisecond,
                        expired_time: Some(v),
                    },
                    p,
                ),
            ),
        }
    } else if op == 251 {
        match count_at(s, pos) {
            Err(e) => Err(e),
            Ok((_, p)) => match count_at(s, p) {
                Err(e) => Err(e),
                Ok((_, q)) => Ok((meta, q)),
            },
        }
    } else if op == 250 {
        match string_at(s, pos) {
            (Err(e), _) => Err(RdbError::Read(e)),
            (Ok(_), p) => match string_at(s, p) {
                (Err(e), _) => Err(RdbError::Read(e)),
                (Ok(_), q) => Ok((meta, q)),
            },
        }
    } else if op == 249 {
        match byte_at(s, pos) {
            (Err(e), _) => Err(RdbError::Read(e)),
            (Ok(_), p) => Ok((meta, p)),
        }
    } else if op == 248 {
        match count_at(s, pos) {
            Err(e) => Err(e),
            Ok((_, p)) => Ok((meta, p)),
        }
    } else {
        match count_at(s, pos) {
            Err(e) => Err(e),
            Ok((_, p)) => match module_end(s, p) {
                Err(e) => Err(e),
                Ok(q) => Ok((meta, q)),
            },
        }
    }
}

/// A string, as a step of decoding.
#[verifier::opaque]
pub open spec fn text_at(s: Seq<u8>, pos: int) -> Decoded<Seq<u8>> {
    match string_at(s, pos) {
        (Err(e), _) => Err(RdbError::Read(e)),
        (Ok(v), p) => Ok((v, p)),
    }
}

/// A key and its value of type `kind`.
pub open spec fn keyed_at(s: Seq<u8>, pos: int, kind: u8) -> Decoded<(Seq<u8>, Payload)> {
    match text_at(s, pos) {
        Err(e) => Err(e),
        Ok((key, p)) => match value_at(s, p, kind) {
            Err(e) => Err(e),
            Ok((payload, q)) => Ok(((key, payload), q)),
        },
    }
}

/// Whether `op` is the opcode of a control record.
pub open spec fn is_control(op: u8) -> bool {
    247 <= op <= 254
}

/// What the record with opcode `op`, whose body starts at `pos`, does to the
/// metadata of the next key, and the event that it gives, if any.
///
/// A control record gives no event. 245 carries a function library. Any
/// other opcode is a value's type code, and a key and a value of that type
/// follow; the key after it starts without an expiry time.
pub open spec fn record_at(s: Seq<u8>, pos: int, op: u8, meta: Meta) -> Decoded<
    (Meta, Option<Emitted>),
> {
    if is_control(op) {
        match control_at(s, pos, op, meta) {
            Err(e) => Err(e),
            Ok((next, p)) => Ok(((next, None), p)),
        }
    } else if op == 245 {
        match text_at(s, pos) {
            Err(e) => Err(e),
            Ok((v, p)) => Ok(((meta, Some(Emitted::Function(v))), p)),
        }
    } else {
        match keyed_at(s, pos, op) {
            Err(e) => Err(e),
            Ok(((key, payload), q)) => Ok(
                ((fresh(meta.db), Some(Emitted::Keyed { key, payload, meta })), q),
            ),
        }
    }
}

/// `acc` with `event` after it, where there is one.
pub open spec fn with(acc: Seq<Emitted>, event: Option<Emitted>) -> Seq<Emitted> {
    match event {
        Some(e) => acc.push(e),
        None => acc,
    }
}

/// `acc` followed by the events of the records from `pos` on, up to the
/// opcode 255, which gives the closing event. From format version 5 on,
/// eight bytes of checksum follow it.
pub open spec fn records_at(s: Seq<u8>, pos: int, version: u32, meta: Meta, acc: Seq<Emitted>)
    -> Decoded<Seq<Emitted>>
    decreases s.len() - pos,
{
    if !(0 <= pos < s.len()) {
        Err(RdbError::Read(ReadError::UnexpectedEof))
    } else if s[pos] == 255 {
        if version < 5 {
            Ok((acc.push(Emitted::End), pos + 1))
        } else if pos + 9 > s.len() {
            Err(RdbError::Read(ReadError::UnexpectedEof))
        } else {
            Ok((acc.push(Emitted::End), pos + 9))
        }
    } else {
        match record_at(s, pos + 1, s[pos], meta) {
            Err(e) => Err(e),
            Ok(((next, event), q)) => if q <= pos || q > s.len() {
                Err(RdbError::Malformed)
            } else {
                records_at(s, q, version, next, with(acc, event))
            },
        }
    }
}

/// The events of the snapshot that starts at `pos`, and the position after
/// its last byte.
pub open spec fn snapshot_at(s: Seq<u8>, pos: int) -> Decoded<Seq<Emitted>> {
    match header_at(s, pos) {
        Err(e) => Err(e),
        Ok((version, p)) => records_at(s, p, version, fresh(0), Seq::empty()),
    }
}

/// Whether `v` ends with the closing event and holds it nowhere else.
pub open spec fn closed_once(v: Seq<Emitted>) -> bool {
    &&& v.len() > 0
    &&& v.last() == Emitted::End
    &&& forall|i: int| 0 <= i < v.len() - 1 ==> #[trigger] v[i] != Emitted::End
}

/// The events of a run of records end with the closing event, which occurs
/// nowhere before, and the run ends within the source.
pub proof fn lemma_records_close(s: Seq<u8>, pos: int, version: u32, meta: Meta, acc: Seq<Emitted>)
    requires
        records_at(s, pos, version, meta, acc) is Ok,
        forall|i: int| 0 <= i < acc.len() ==> #[trigger] acc[i] != Emitted::End,
    ensures
        closed_once(records_at(s, pos, version, meta, acc)->Ok_0.0),
        pos < records_at(s, pos, version, meta, acc)->Ok_0.1 <= s.len(),
    decreases s.len() - pos,
{
    if s[pos] != 255 {
        let ((next, event), q) = record_at(s, pos + 1, s[pos], meta)->Ok_0;
        lemma_records_close(s, q, version, next, with(acc, event));
    }
}

/// The events of a snapshot end with the closing event, which occurs nowhere
/// before, and the snapshot ends within the source.
pub proof fn lemma_snapshot_closes(s: Seq<u8>, pos: int)
    requires
        snapshot_at(s, pos) is Ok,
    ensures
        closed_once(snapshot_at(s, pos)->Ok_0.0),
        pos < snapshot_at(s, pos)->Ok_0.1 <= s.len(),
{
    let (version, p) = header_at(s, pos)->Ok_0;
    lemma_records_close(s, p, version, fresh(0), Seq::empty());
}

/// `r` with its objects taken as events.
pub open spec fn emitted_of(r: Result<Vec<Object>, RdbError>) -> Result<Seq<Emitted>, RdbError> {
    match r {
        Ok(v) => Ok(emitted(v@)),
        Err(e) => Err(e),
    }
}

fn digit(b: u8) -> (r: bool)
    ensures
        r == is_digit(b),
{
    48 <= b && b <= 57
}

/// Reads the header and returns the format version.
pub fn decode_header(reader: &mut Reader) -> (r: Result<u32, RdbError>)
    requires
        old(reader).wf(),
    ensures
        final(reader).follows(*old(reader)),
        agrees(header_at(old(reader).source(), old(reader).position()), r, final(reader).position()),
{
    let head = raise(reader.read_exact(9))?;
    if head[0] != 82 || head[1] != 69 || head[2] != 68 || head[3] != 73 || head[4] != 83 {
        return Err(RdbError::BadMagic);
    }
    if !digit(head[5]) || !digit(head[6]) || !digit(head[7]) || !digit(head[8]) {
        return Err(RdbError::BadMagic);
    }
    let thousands: u32 = (head[5] - 48) as u32 * 1000;
    let hundreds: u32 = (head[6] - 48) as u32 * 100;
    let tens: u32 = (head[7] - 48) as u32 * 10;
    Ok(thousands + hundreds + tens + (head[8] - 48) as u32)
}

/// `r` with its bytes taken as a sequence.
pub open spec fn bytes_of(r: Result<Vec<u8>, RdbError>) -> Result<Seq<u8>, RdbError> {
    match r {
        Ok(v) => Ok(v@),
        Err(e) => Err(e),
    }
}

/// `o` as an event, where there is one.
pub open spec fn event_of(o: Option<Object>) -> Option<Emitted> {
    match o {
        Some(o) => Some(o.model()),
        None => None,
    }
}

/// `r` with its object taken as an event.
pub open spec fn record_of(r: Result<(Meta, Option<Object>), RdbError>) -> Result<
    (Meta, Option<Emitted>),
    RdbError,
> {
    match r {
        Ok((meta, o)) => Ok((meta, event_of(o))),
        Err(e) => Err(e),
    }
}

fn control(reader: &mut Reader, op: u8, meta: Meta) -> (r: Result<Meta, RdbError>)
    requires
        old(reader).wf(),
        is_control(op),
    ensures
        final(reader).follows(*old(reader)),
        agrees(
            control_at(old(reader).source(), old(reader).position(), op, meta),
            r,
            final(reader).position(),
        ),
{
    reveal(control_at);
    if op == 254 {
        let n: u64 = count(reader)?;
        if n > u32::MAX as u64 {
            return Err(RdbError::Malformed);
        }
        Ok(Meta { db: n as u32, expired_type: meta.expired_type, expired_time: meta.expired_time })
    } else if op == 253 {
        let v: u32 = raise(reader.read_u32(false))?;
        Ok(Meta { db: meta.db, expired_type: ExpireType::Seconds, expired_time: Some(v as i64) })
    } else if op == 252 {
        let v: i64 = raise(reader.read_i64(false))?;
        Ok(Meta { db: meta.db, expired_type: ExpireType::Millisecond, expired_time: Some(v) })
    } else if op == 251 {
        let _ = count(reader)?;
        let _ = count(reader)?;
        Ok(meta)
    } else if op == 250 {
        let _ = raise(reader.read_string())?;
        let _ = raise(reader.read_string())?;
        Ok(meta)
    } else if op == 249 {
        let _ = raise(reader.read_u8())?;
        Ok(meta)
    } else if op == 248 {
        let _ = count(reader)?;
        Ok(meta)
    } else {
        let _ = count(reader)?;
        skip_module(reader)?;
        Ok(meta)
    }
}

fn text(reader: &mut Reader) -> (r: Result<Vec<u8>, RdbError>)
    requires
        old(reader).wf(),
    ensures
        final(reader).follows(*old(reader)),
        agrees(
            text_at(old(reader).source(), old(reader).position()),
            bytes_of(r),
            final(reader).position(),
        ),
{
    reveal(text_at);
    raise(reader.read_string())
}

/// Decodes the body of the record with opcode `op`, for a next key with
/// metadata `meta`. Returns the metadata of the key after it and the object
/// found, if any.
pub fn decode_record(reader: &mut Reader, op: u8, meta: Meta) -> (r: Result<
    (Meta, Option<Object>),
    RdbError,
>)
    requires
        old(reader).wf(),
    ensures
        final(reader).follows(*old(reader)),
        agrees(
            record_at(old(reader).source(), old(reader).position(), op, meta),
            record_of(r),
            final(reader).position(),
        ),
{
    if 247 <= op && op <= 254 {
        let next = control(reader, op, meta)?;
        Ok((next, None))
    } else if op == 245 {
        let v = text(reader)?;
        Ok((meta, Some(Object::Function(v))))
    } else {
        let key = text(reader)?;
        let value = decode_value(reader, op)?;
        let next = Meta { db: meta.db, expired_type: ExpireType::Never, expired_time: None };
        Ok((next, Some(Object::keyed(key, value, meta))))
    }
}

/// Decodes a snapshot from its header through its trailer.
pub fn decode_snapshot(reader: &mut Reader) -> (r: Result<Vec<Object>, RdbError>)
    requires
        old(reader).wf(),
    ensures
        final(reader).follows(*old(reader)),
        agrees(
            snapshot_at(old(reader).source(), old(reader).position()),
            emitted_of(r),
            final(reader).position(),
        ),
{
    let ghost s = reader.source();
    let version: u32 = decode_header(reader)?;
    let ghost first = reader.position();
    let mut meta = Meta { db: 0, expired_type: ExpireType::Never, expired_time: None };
    let mut out: Vec<Object> = Vec::new();
    assert(emitted(out@) =~= Seq::empty());
    loop
        invariant
            reader.follows(*old(reader)),
            s == old(reader).source(),
            header_at(s, old(reader).position()) == Ok::<(u32, int), RdbError>((version, first)),
            records_at(s, reader.position(), version, meta, emitted(out@)) == records_at(
                s,
                first,
                version,
                fresh(0),
                Seq::empty(),
            ),
        decreases s.len() - reader.position(),
    {
        let ghost before = emitted(out@);
        let op: u8 = raise(reader.read_u8())?;
        if op == 255 {
            if version >= 5 {
                let _ = raise(reader.read_exact(8))?;
            }
            out.push(Object::EOR);
            assert(emitted(out@) =~= before.push(Emitted::End));
            return Ok(out);
        }
        let (next, found) = decode_record(reader, op, meta)?;
        meta = next;
        match found {
            Some(o) => {
                out.push(o);
                assert(emitted(out@) =~= before.push(o.model()));
            },
            None => {},
        }
    }
}

/// Decodes a snapshot that was announced with `length` bytes.
///
/// Succeeds only where the snapshot ends exactly `length` bytes after the
/// place where it starts. The objects then end with `Object::EOR`, which
/// stands nowhere before.
pub fn parse(reader: &mut Reader, length: u64) -> (r: Result<Vec<Object>, RdbError>)
    requires
        old(reader).wf(),
    ensures
        final(reader).follows(*old(reader)),
        match r {
            Ok(v) => {
                &&& snapshot_at(old(reader).source(), old(reader).position()) == Ok::<
                    (Seq<Emitted>, int),
                    RdbError,
                >((emitted(v@), old(reader).position() + length))
                &&& final(reader).position() == old(reader).position() + length
                &&& closed_once(emitted(v@))
            },
            Err(e) => {
                ||| snapshot_at(old(reader).source(), old(reader).position()) == Err::<
                    (Seq<Emitted>, int),
                    RdbError,
                >(e)
                ||| {
                    &&& e == RdbError::Length
                    &&& snapshot_at(old(reader).source(), old(reader).position()) is Ok
                    &&& snapshot_at(old(reader).source(), old(reader).position())->Ok_0.1 != old(
                        reader,
                    ).position() + length
                }
            },
        },
{
    let from: usize = reader.offset();
    let out = decode_snapshot(reader)?;
    proof {
        lemma_snapshot_closes(old(reader).source(), old(reader).position());
    }
    let to: usize = reader.offset();
    if (to - from) as u64 != length {
        return Err(RdbError::Length);
    }
    Ok(out)
}

} // verus!
