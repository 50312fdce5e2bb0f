//! Decoding of one value of a snapshot, by its type code.

use crate::listpack;
use crate::intset;
use crate::packed::rows;
use crate::rdb::object::{
    field_models, item_models, Field, Grade, Item, Payload, RdbError, Score, Value,
};
use crate::rdb::stream::{skip_stream, stream_end};
use crate::reader::{
    bytes_at, double_at, length_at, string_at, u64_at, ReadError, Reader,
};
use crate::ziplist;
use crate::zipmap;
use vstd::prelude::*;
use vstd::slice::slice_to_vec;

verus! {

/// The value decoded at some position and the position after it, or the
/// reason why there is none.
pub type Decoded<T> = Result<(T, int), RdbError>;

/// A plain length: a special encoding is refused here.
pub open spec fn count_at(s: Seq<u8>, pos: int) -> Decoded<u64> {
    match length_at(s, pos) {
        (Err(e), _) => Err(RdbError::Read(e)),
        (Ok((n, encoded)), p) => if encoded {
            Err(RdbError::Malformed)
        } else {
            Ok((n, p))
        },
    }
}

/// `acc` followed by `n` strings.
pub open spec fn strings_at(s: Seq<u8>, pos: int, n: nat, acc: Seq<Seq<u8>>) -> Decoded<
    Seq<Seq<u8>>,
>
    decreases n,
{
    if n == 0 {
        Ok((acc, pos))
    } else {
        match string_at(s, pos) {
            (Err(e), _) => Err(RdbError::Read(e)),
            (Ok(v), p) => strings_at(s, p, (n - 1) as nat, acc.push(v)),
        }
    }
}

/// `acc` followed by `n` pairs of strings.
pub open spec fn fields_at(s: Seq<u8>, pos: int, n: nat, acc: Seq<(Seq<u8>, Seq<u8>)>) -> Decoded<
    Seq<(Seq<u8>, Seq<u8>)>,
>
    decreases n,
{
    if n == 0 {
        Ok((acc, pos))
    } else {
        match string_at(s, pos) {
            (Err(e), _) => Err(RdbError::Read(e)),
            (Ok(name), p) => match string_at(s, p) {
                (Err(e), _) => Err(RdbError::Read(e)),
                (Ok(value), q) => fields_at(s, q, (n - 1) as nat, acc.push((name, value))),
            },
        }
    }
}

/// `acc` followed by `n` members, each with a score in text form.
pub open spec fn scored_at(s: Seq<u8>, pos: int, n: nat, acc: Seq<(Seq<u8>, Grade)>) -> Decoded<
    Seq<(Seq<u8>, Grade)>,
>
    decreases n,
{
    if n == 0 {
        Ok((acc, pos))
    } else {
        match string_at(s, pos) {
            (Err(e), _) => Err(RdbError::Read(e)),
            (Ok(member), p) => match double_at(s, p) {
                (Err(e), _) => Err(RdbError::Read(e)),
                (Ok(score), q) => scored_at(
                    s,
                    q,
                    (n - 1) as nat,
                    acc.push((member, Grade::Text(score))),
                ),
            },
        }
    }
}

/// `acc` followed by `n` members, each with a score of eight bytes, least
/// significant first.
pub open spec fn ranked_at(s: Seq<u8>, pos: int, n: nat, acc: Seq<(Seq<u8>, Grade)>) -> Decoded<
    Seq<(Seq<u8>, Grade)>,
>
    decreases n,
{
    if n == 0 {
        Ok((acc, pos))
    } else {
        match string_at(s, pos) {
            (Err(e), _) => Err(RdbError::Read(e)),
            (Ok(member), p) => match u64_at(s, p, false) {
                (Err(e), _) => Err(RdbError::Read(e)),
                (Ok(bits), q) => ranked_at(
                    s,
                    q,
                    (n - 1) as nat,
                    acc.push((member, Grade::Bits(bits))),
                ),
            },
        }
    }
}

/// The rows of `flat` taken two by two, as names and values.
pub open spec fn pair_up(flat: Seq<Seq<u8>>) -> Option<Seq<(Seq<u8>, Seq<u8>)>> {
    if flat.len() % 2 != 0 {
        None
    } else {
        Some(Seq::new(flat.len() / 2, |i: int| (flat[2 * i], flat[2 * i + 1])))
    }
}

/// The rows of `flat` taken two by two, as members and scores in text form.
pub open spec fn grade_up(flat: Seq<Seq<u8>>) -> Option<Seq<(Seq<u8>, Grade)>> {
    if flat.len() % 2 != 0 {
        None
    } else {
        Some(Seq::new(flat.len() / 2, |i: int| (flat[2 * i], Grade::Text(flat[2 * i + 1]))))
    }
}

/// The value that the packed buffer `buf` holds under type code `kind`.
pub open spec fn unpacked(kind: u8, buf: Seq<u8>) -> Option<Payload> {
    if kind == 9 {
        match zipmap::pairs(buf) {
            Some(flat) => match pair_up(flat) {
                Some(v) => Some(Payload::Hash(v)),
                None => None,
            },
            None => None,
        }
    } else if kind == 10 {
        match ziplist::entries(buf) {
            Some(flat) => Some(Payload::List(flat)),
            None => None,
        }
    } else if kind == 11 {
        match intset::members(buf) {
            Some(flat) => Some(Payload::UnorderedSet(flat)),
            None => None,
        }
    } else if kind == 12 || kind == 18 {
        match (if kind == 12 {
            ziplist::entries(buf)
        } else {
            listpack::entries(buf)
        }) {
            Some(flat) => match grade_up(flat) {
                Some(v) => Some(Payload::SortedSet(v)),
                None => None,
            },
            None => None,
        }
    } else if kind == 13 || kind == 16 {
        match (if kind == 13 {
            ziplist::entries(buf)
        } else {
            listpack::entries(buf)
        }) {
            Some(flat) => match pair_up(flat) {
                Some(v) => Some(Payload::Hash(v)),
                None => None,
            },
            None => None,
        }
    } else if kind == 19 {
        match listpack::entries(buf) {
            Some(flat) => Some(Payload::UnorderedSet(flat)),
            None => None,
        }
    } else {
        None
    }
}

/// Whether `kind` is the type code of a value that is stored as one packed
/// buffer.
pub open spec fn is_packed(kind: u8) -> bool {
    9 <= kind <= 13 || kind == 16 || kind == 18 || kind == 19
}

/// `acc` followed by the values of `n` packed lists.
pub open spec fn nodes_at(s: Seq<u8>, pos: int, n: nat, acc: Seq<Seq<u8>>) -> Decoded<
    Seq<Seq<u8>>,
>
    decreases n,
{
    if n == 0 {
        Ok((acc, pos))
    } else {
        match string_at(s, pos) {
            (Err(e), _) => Err(RdbError::Read(e)),
            (Ok(buf), p) => match ziplist::entries(buf) {
                None => Err(RdbError::Malformed),
                Some(v) => nodes_at(s, p, (n - 1) as nat, acc + v),
            },
        }
    }
}

/// `acc` followed by the values of `n` nodes, each a container code and a
/// string: under code 1 the string is one value, under code 2 a listpack.
pub open spec fn containers_at(s: Seq<u8>, pos: int, n: nat, acc: Seq<Seq<u8>>) -> Decoded<
    Seq<Seq<u8>>,
>
    decreases n,
{
    if n == 0 {
        Ok((acc, pos))
    } else {
        match count_at(s, pos) {
            Err(e) => Err(e),
            Ok((code, p)) => match string_at(s, p) {
                (Err(e), _) => Err(RdbError::Read(e)),
                (Ok(buf), q) => if code == 1 {
                    containers_at(s, q, (n - 1) as nat, acc.push(buf))
                } else if code == 2 {
                    match listpack::entries(buf) {
                        None => Err(RdbError::Malformed),
                        Some(v) => containers_at(s, q, (n - 1) as nat, acc + v),
                    }
                } else {
                    Err(RdbError::Malformed)
                },
            },
        }
    }
}

/// The position after the operand of a module's opcode: 1 and 2 a length, 3
/// four bytes, 4 eight bytes, 5 a string.
pub open spec fn operand_end(s: Seq<u8>, pos: int, op: u64) -> Result<int, RdbError> {
    if op == 1 || op == 2 {
        match count_at(s, pos) {
            Err(e) => Err(e),
            Ok((_, p)) => Ok(p),
        }
    } else if op == 3 || op == 4 {
        match bytes_at(s, pos, if op == 3 {
            4
        } else {
            8
        }) {
            (Err(e), _) => Err(RdbError::Read(e)),
            (Ok(_), p) => Ok(p),
        }
    } else if op == 5 {
        match string_at(s, pos) {
            (Err(e), _) => Err(RdbError::Read(e)),
            (Ok(_), p) => Ok(p),
        }
    } else {
        Err(RdbError::Malformed)
    }
}

/// The position after a module's record: opcodes with their operands, up to
/// and with the opcode 0.
pub open spec fn module_end(s: Seq<u8>, pos: int) -> Result<int, RdbError>
    decreases s.len() - pos,
{
    match count_at(s, pos) {
        Err(e) => Err(e),
        Ok((op, p)) => if op == 0 {
            Ok(p)
        } else {
            match operand_end(s, p, op) {
                Err(e) => Err(e),
                Ok(q) => if q <= pos || pos >= s.len() {
                    Err(RdbError::Malformed)
                } else {
                    module_end(s, q)
                },
            }
        },
    }
}

/// A module's value: the module's id, then its record, kept as raw bytes.
pub open spec fn module_at(s: Seq<u8>, pos: int) -> Decoded<Payload> {
    match count_at(s, pos) {
        Err(e) => Err(e),
        Ok((id, p)) => match module_end(s, p) {
            Err(e) => Err(e),
            Ok(q) => Ok((Payload::Module(id, s.subrange(p, q)), q)),
        },
    }
}

/// A value that is stored as one packed buffer, of type `kind`.
pub open spec fn packed_at(s: Seq<u8>, pos: int, kind: u8) -> Decoded<Payload> {
    match string_at(s, pos) {
        (Err(e), _) => Err(RdbError::Read(e)),
        (Ok(buf), p) => match unpacked(kind, buf) {
            None => Err(RdbError::Malformed),
            Some(v) => Ok((v, p)),
        },
    }
}

/// Whether `kind` is the type code of a value that is stored as a number of
/// elements behind their count.
pub open spec fn is_counted(kind: u8) -> bool {
    1 <= kind <= 5 || kind == 14 || kind == 17
}

/// `r` as a payload made by `wrap`.
pub open spec fn wrapped<T>(r: Decoded<T>, wrap: spec_fn(T) -> Payload) -> Decoded<Payload> {
    match r {
        Err(e) => Err(e),
        Ok((v, q)) => Ok((wrap(v), q)),
    }
}

/// A value that is stored as a number of elements behind their count, of
/// type `kind`.
pub open spec fn counted_at(s: Seq<u8>, pos: int, kind: u8) -> Decoded<Payload> {
    match count_at(s, pos) {
        Err(e) => Err(e),
        Ok((n, p)) => if kind == 1 {
            wrapped(strings_at(s, p, n as nat, Seq::empty()), |v| Payload::List(v))
        } else if kind == 2 {
            wrapped(strings_at(s, p, n as nat, Seq::empty()), |v| Payload::UnorderedSet(v))
        } else if kind == 3 {
            wrapped(scored_at(s, p, n as nat, Seq::empty()), |v| Payload::SortedSet(v))
        } else if kind == 4 {
            wrapped(fields_at(s, p, n as nat, Seq::empty()), |v| Payload::Hash(v))
        } else if kind == 5 {
            wrapped(ranked_at(s, p, n as nat, Seq::empty()), |v| Payload::SortedSet(v))
        } else if kind == 14 {
            wrapped(nodes_at(s, p, n as nat, Seq::empty()), |v| Payload::List(v))
        } else {
            wrapped(containers_at(s, p, n as nat, Seq::empty()), |v| Payload::List(v))
        },
    }
}

/// A stream, kept as the raw bytes of its record.
pub open spec fn stream_at(s: Seq<u8>, pos: int) -> Decoded<Payload> {
    match stream_end(s, pos) {
        Err(e) => Err(e),
        Ok(q) => Ok((Payload::Stream(s.subrange(pos, q)), q)),
    }
}

/// A string value.
pub open spec fn plain_at(s: Seq<u8>, pos: int) -> Decoded<Payload> {
    match string_at(s, pos) {
        (Err(e), _) => Err(RdbError::Read(e)),
        (Ok(v), p) => Ok((Payload::String(v), p)),
    }
}

/// The value of type `kind` at `pos`.
///
/// 0 a string; 1 a list and 2 a set of strings; 3 a sorted set with scores as
/// text and 5 with scores in binary; 4 a hash; 7 a module's value; 9 to 13,
/// 16, 18 and 19 one string that holds a packed hash, list, set or sorted
/// set; 14 and 17 a list of packed nodes; 20 a stream, kept as raw bytes.
/// Any other code is refused.
#[verifier::opaque]
pub open spec fn value_at(s: Seq<u8>, pos: int, kind: u8) -> Decoded<Payload> {
    if kind == 0 {
        plain_at(s, pos)
    } else if is_packed(kind) {
        packed_at(s, pos, kind)
    } else if kind == 7 {
        module_at(s, pos)
    } else if kind == 20 {
        stream_at(s, pos)
    } else if is_counted(kind) {
        counted_at(s, pos, kind)
    } else {
        Err(RdbError::UnknownType(kind))
    }
}

/// Turns a failed read into a failed decoding.
pub fn raise<T>(r: Result<T, ReadError>) -> (out: Result<T, RdbError>)
    ensures
        match r {
            Ok(v) => out == Ok::<T, RdbError>(v),
            Err(e) => out == Err::<T, RdbError>(RdbError::Read(e)),
        },
{
    match r {
        Ok(v) => Ok(v),
        Err(e) => Err(RdbError::Read(e)),
    }
}

/// Reads a plain length.
pub fn count(reader: &mut Reader) -> (r: Result<u64, RdbError>)
    requires
        old(reader).wf(),
    ensures
        final(reader).follows(*old(reader)),
        match r {
            Ok(n) => count_at(old(reader).source(), old(reader).position()) == Ok::<
                (u64, int),
                RdbError,
            >((n, final(reader).position())),
            Err(e) => count_at(old(reader).source(), old(reader).position()) == Err::<
                (u64, int),
                RdbError,
            >(e),
        },
{
    let (n, encoded) = raise(reader.read_length())?;
    if encoded {
        Err(RdbError::Malformed)
    } else {
        Ok(n)
    }
}

/// Whether the outcome `r`, with the reader then at `end`, is what `spec`
/// says.
pub open spec fn agrees<T>(spec: Decoded<T>, r: Result<T, RdbError>, end: int) -> bool {
    match r {
        Ok(v) => spec == Ok::<(T, int), RdbError>((v, end)),
        Err(e) => spec == Err::<(T, int), RdbError>(e),
    }
}

/// `r` with its rows taken as sequences.
pub open spec fn rows_of(r: Result<Vec<Vec<u8>>, RdbError>) -> Result<Seq<Seq<u8>>, RdbError> {
    match r {
        Ok(v) => Ok(rows(v@)),
        Err(e) => Err(e),
    }
}

/// `r` with its fields taken as pairs of sequences.
pub open spec fn fields_of(r: Result<Vec<Field>, RdbError>) -> Result<
    Seq<(Seq<u8>, Seq<u8>)>,
    RdbError,
> {
    match r {
        Ok(v) => Ok(field_models(v@)),
        Err(e) => Err(e),
    }
}

/// `r` with its items taken as pairs.
pub open spec fn items_of(r: Result<Vec<Item>, RdbError>) -> Result<
    Seq<(Seq<u8>, Grade)>,
    RdbError,
> {
    match r {
        Ok(v) => Ok(item_models(v@)),
        Err(e) => Err(e),
    }
}

/// `r` with its value taken as a mathematical value.
pub open spec fn payload_of(r: Result<Value, RdbError>) -> Result<Payload, RdbError> {
    match r {
        Ok(v) => Ok(v.model()),
        Err(e) => Err(e),
    }
}

fn strings(reader: &mut Reader, n: u64) -> (r: Result<Vec<Vec<u8>>, RdbError>)
    requires
        old(reader).wf(),
    ensures
        final(reader).follows(*old(reader)),
        agrees(
            strings_at(old(reader).source(), old(reader).position(), n as nat, Seq::empty()),
            rows_of(r),
            final(reader).position(),
        ),
{
    let ghost s = reader.source();
    let ghost start = reader.position();
    let mut out: Vec<Vec<u8>> = Vec::new();
    let mut i: u64 = 0;
    assert(rows(out@) =~= Seq::empty());
    while i < n
        invariant
            i <= n,
            reader.follows(*old(reader)),
            s == old(reader).source(),
            start == old(reader).position(),
            strings_at(s, reader.position(), (n - i) as nat, rows(out@)) == strings_at(
                s,
                start,
                n as nat,
                Seq::empty(),
            ),
        decreases n - i,
    {
        let ghost before = rows(out@);
        let v = raise(reader.read_string())?;
        out.push(v);
        assert(rows(out@) =~= before.push(v@));
        i += 1;
    }
    Ok(out)
}

fn fields(reader: &mut Reader, n: u64) -> (r: Result<Vec<Field>, RdbError>)
    requires
        old(reader).wf(),
    ensures
        final(reader).follows(*old(reader)),
        agrees(
            fields_at(old(reader).source(), old(reader).position(), n as nat, Seq::empty()),
            fields_of(r),
            final(reader).position(),
        ),
{
    let ghost s = reader.source();
    let ghost start = reader.position();
    let mut out: Vec<Field> = Vec::new();
    let mut i: u64 = 0;
    assert(field_models(out@) =~= Seq::empty());
    while i < n
        invariant
            i <= n,
            reader.follows(*old(reader)),
            s == old(reader).source(),
            start == old(reader).position(),
            fields_at(s, reader.position(), (n - i) as nat, field_models(out@)) == fields_at(
                s,
                start,
                n as nat,
                Seq::empty(),
            ),
        decreases n - i,
    {
        let ghost before = field_models(out@);
        let name = raise(reader.read_string())?;
        let value = raise(reader.read_string())?;
        let ghost pair = (name@, value@);
        out.push(Field { name, value });
        assert(field_models(out@) =~= before.push(pair));
        i += 1;
    }
    Ok(out)
}

fn scored(reader: &mut Reader, n: u64) -> (r: Result<Vec<Item>, RdbError>)
    requires
        old(reader).wf(),
    ensures
        final(reader).follows(*old(reader)),
        agrees(
            scored_at(old(reader).source(), old(reader).position(), n as nat, Seq::empty()),
            items_of(r),
            final(reader).position(),
        ),
{
    let ghost s = reader.source();
    let ghost start = reader.position();
    let mut out: Vec<Item> = Vec::new();
    let mut i: u64 = 0;
    assert(item_models(out@) =~= Seq::empty());
    while i < n
        invariant
            i <= n,
            reader.follows(*old(reader)),
            s == old(reader).source(),
            start == old(reader).position(),
            scored_at(s, reader.position(), (n - i) as nat, item_models(out@)) == scored_at(
                s,
                start,
                n as nat,
                Seq::empty(),
            ),
        decreases n - i,
    {
        let ghost before = item_models(out@);
        let member = raise(reader.read_string())?;
        let score = raise(reader.read_double())?;
        let ghost pair = (member@, Grade::Text(score@));
        out.push(Item { member, score: Score::Text(score) });
        assert(item_models(out@) =~= before.push(pair));
        i += 1;
    }
    Ok(out)
}

fn ranked(reader: &mut Reader, n: u64) -> (r: Result<Vec<Item>, RdbError>)
    requires
        old(reader).wf(),
    ensures
        final(reader).follows(*old(reader)),
        agrees(
            ranked_at(old(reader).source(), old(reader).position(), n as nat, Seq::empty()),
            items_of(r),
            final(reader).position(),
        ),
{
    let ghost s = reader.source();
    let ghost start = reader.position();
    let mut out: Vec<Item> = Vec::new();
    let mut i: u64 = 0;
    assert(item_models(out@) =~= Seq::empty());
    while i < n
        invariant
            i <= n,
            reader.follows(*old(reader)),
            s == old(reader).source(),
            start == old(reader).position(),
            ranked_at(s, reader.position(), (n - i) as nat, item_models(out@)) == ranked_at(
                s,
                start,
                n as nat,
                Seq::empty(),
            ),
        decreases n - i,
    {
        let ghost before = item_models(out@);
        let member = raise(reader.read_string())?;
        let bits: u64 = raise(reader.read_u64(false))?;
        let ghost pair = (member@, Grade::Bits(bits));
        out.push(Item { member, score: Score::Bits(bits) });
        assert(item_models(out@) =~= before.push(pair));
        i += 1;
    }
    Ok(out)
}

/// Takes rows two by two as the names and values of a hash.
pub fn to_fields(flat: &Vec<Vec<u8>>) -> (r: Option<Vec<Field>>)
    ensures
        match r {
            Some(v) => pair_up(rows(flat@)) == Some(field_models(v@)),
            None => pair_up(rows(flat@)) is None,
        },
{
    let n: usize = flat.len();
    if n % 2 != 0 {
        return None;
    }
    let mut out: Vec<Field> = Vec::new();
    let mut i: usize = 0;
    while i < n / 2
        invariant
            i <= n / 2,
            n == flat@.len(),
            n % 2 == 0,
            out@.len() == i,
            forall|j: int|
                0 <= j < i ==> (#[trigger] out@[j]).name@ == flat@[2 * j]@ && out@[j].value@
                    == flat@[2 * j + 1]@,
        decreases n / 2 - i,
    {
        let name = slice_to_vec(flat[2 * i].as_slice());
        let value = slice_to_vec(flat[2 * i + 1].as_slice());
        out.push(Field { name, value });
        i += 1;
    }
    assert(field_models(out@) =~= pair_up(rows(flat@))->Some_0);
    Some(out)
}

/// Takes rows two by two as the members and scores of a sorted set.
pub fn to_items(flat: &Vec<Vec<u8>>) -> (r: Option<Vec<Item>>)
    ensures
        match r {
            Some(v) => grade_up(rows(flat@)) == Some(item_models(v@)),
            None => grade_up(rows(flat@)) is None,
        },
{
    let n: usize = flat.len();
    if n % 2 != 0 {
        return None;
    }
    let mut out: Vec<Item> = Vec::new();
    let mut i: usize = 0;
    while i < n / 2
        invariant
            i <= n / 2,
            n == flat@.len(),
            n % 2 == 0,
            out@.len() == i,
            forall|j: int|
                0 <= j < i ==> (#[trigger] out@[j]).member@ == flat@[2 * j]@
                    && out@[j].score.model() == Grade::Text(flat@[2 * j + 1]@),
        decreases n / 2 - i,
    {
        let member = slice_to_vec(flat[2 * i].as_slice());
        let score = slice_to_vec(flat[2 * i + 1].as_slice());
        out.push(Item { member, score: Score::Text(score) });
        i += 1;
    }
    assert(item_models(out@) =~= grade_up(rows(flat@))->Some_0);
    Some(out)
}

/// Decodes the packed buffer of a value of type `kind`.
pub fn unpack(kind: u8, buf: &[u8]) -> (r: Option<Value>)
    ensures
        match r {
            Some(v) => unpacked(kind, buf@) == Some(v.model()),
            None => unpacked(kind, buf@) is None,
        },
{
    if kind == 9 {
        let flat = zipmap::decode_zipmap(buf)?;
        Some(Value::Hash(to_fields(&flat)?))
    } else if kind == 10 {
        Some(Value::List(ziplist::decode_ziplist(buf)?))
    } else if kind == 11 {
        Some(Value::UnorderedSet(intset::decode_intset(buf)?))
    } else if kind == 12 {
        let flat = ziplist::decode_ziplist(buf)?;
        Some(Value::SortedSet(to_items(&flat)?))
    } else if kind == 18 {
        let flat = listpack::decode_listpack(buf)?;
        Some(Value::SortedSet(to_items(&flat)?))
    } else if kind == 13 {
        let flat = ziplist::decode_ziplist(buf)?;
        Some(Value::Hash(to_fields(&flat)?))
    } else if kind == 16 {
        let flat = listpack::decode_listpack(buf)?;
        Some(Value::Hash(to_fields(&flat)?))
    } else if kind == 19 {
        Some(Value::UnorderedSet(listpack::decode_listpack(buf)?))
    } else {
        None
    }
}

fn nodes(reader: &mut Reader, n: u64) -> (r: Result<Vec<Vec<u8>>, RdbError>)
    requires
        old(reader).wf(),
    ensures
        final(reader).follows(*old(reader)),
        agrees(
            nodes_at(old(reader).source(), old(reader).position(), n as nat, Seq::empty()),
            rows_of(r),
            final(reader).position(),
        ),
{
    let ghost s = reader.source();
    let ghost start = reader.position();
    let mut out: Vec<Vec<u8>> = Vec::new();
    let mut i: u64 = 0;
    assert(rows(out@) =~= Seq::empty());
    while i < n
        invariant
            i <= n,
            reader.follows(*old(reader)),
            s == old(reader).source(),
            start == old(reader).position(),
            nodes_at(s, reader.position(), (n - i) as nat, rows(out@)) == nodes_at(
                s,
                start,
                n as nat,
                Seq::empty(),
            ),
        decreases n - i,
    {
        let ghost before = rows(out@);
        let buf = raise(reader.read_string())?;
        let mut part = match ziplist::decode_ziplist(buf.as_slice()) {
            Some(v) => v,
            None => {
                return Err(RdbError::Malformed);
            },
        };
        let ghost added = rows(part@);
        out.append(&mut part);
        assert(rows(out@) =~= before + added);
        i += 1;
    }
    Ok(out)
}

fn containers(reader: &mut Reader, n: u64) -> (r: Result<Vec<Vec<u8>>, RdbError>)
    requires
        old(reader).wf(),
    ensures
        final(reader).follows(*old(reader)),
        agrees(
            containers_at(old(reader).source(), old(reader).position(), n as nat, Seq::empty()),
            rows_of(r),
            final(reader).position(),
        ),
{
    let ghost s = reader.source();
    let ghost start = reader.position();
    let mut out: Vec<Vec<u8>> = Vec::new();
    let mut i: u64 = 0;
    assert(rows(out@) =~= Seq::empty());
    while i < n
        invariant
            i <= n,
            reader.follows(*old(reader)),
            s == old(reader).source(),
            start == old(reader).position(),
            containers_at(s, reader.position(), (n - i) as nat, rows(out@)) == containers_at(
                s,
                start,
                n as nat,
                Seq::empty(),
            ),
        decreases n - i,
    {
        let ghost before = rows(out@);
        let code: u64 = count(reader)?;
        let buf = raise(reader.read_string())?;
        if code == 1 {
            out.push(buf);
            assert(rows(out@) =~= before.push(buf@));
        } else if code == 2 {
            let mut part = match listpack::decode_listpack(buf.as_slice()) {
                Some(v) => v,
                None => {
                    return Err(RdbError::Malformed);
                },
            };
            let ghost added = rows(part@);
            out.append(&mut part);
            assert(rows(out@) =~= before + added);
        } else {
            return Err(RdbError::Malformed);
        }
        i += 1;
    }
    Ok(out)
}

/// Reads over a module's record, up to and with its closing opcode.
pub fn skip_module(reader: &mut Reader) -> (r: Result<(), RdbError>)
    requires
        old(reader).wf(),
    ensures
        final(reader).follows(*old(reader)),
        match r {
            Ok(_) => module_end(old(reader).source(), old(reader).position()) == Ok::<
                int,
                RdbError,
            >(final(reader).position()),
            Err(e) => module_end(old(reader).source(), old(reader).position()) == Err::<
                int,
                RdbError,
            >(e),
        },
{
    let ghost s = reader.source();
    let ghost start = reader.position();
    loop
        invariant
            reader.follows(*old(reader)),
            s == old(reader).source(),
            start == old(reader).position(),
            module_end(s, reader.position()) == module_end(s, start),
        decreases s.len() - reader.position(),
    {
        let op: u64 = count(reader)?;
        if op == 0 {
            return Ok(());
        }
        if op == 1 || op == 2 {
            let _ = count(reader)?;
        } else if op == 3 {
            let _ = raise(reader.read_exact(4))?;
        } else if op == 4 {
            let _ = raise(reader.read_exact(8))?;
        } else if op == 5 {
            let _ = raise(reader.read_string())?;
        } else {
            return Err(RdbError::Malformed);
        }
    }
}

fn module(reader: &mut Reader) -> (r: Result<Value, RdbError>)
    requires
        old(reader).wf(),
    ensures
        final(reader).follows(*old(reader)),
        agrees(
            module_at(old(reader).source(), old(reader).position()),
            payload_of(r),
            final(reader).position(),
        ),
{
    let id: u64 = count(reader)?;
    let from: usize = reader.offset();
    skip_module(reader)?;
    let to: usize = reader.offset();
    Ok(Value::Module(id, reader.copy(from, to)))
}

fn plain(reader: &mut Reader) -> (r: Result<Value, RdbError>)
    requires
        old(reader).wf(),
    ensures
        final(reader).follows(*old(reader)),
        agrees(
            plain_at(old(reader).source(), old(reader).position()),
            payload_of(r),
            final(reader).position(),
        ),
{
    Ok(Value::String(raise(reader.read_string())?))
}

fn packed(reader: &mut Reader, kind: u8) -> (r: Result<Value, RdbError>)
    requires
        old(reader).wf(),
    ensures
        final(reader).follows(*old(reader)),
        agrees(
            packed_at(old(reader).source(), old(reader).position(), kind),
            payload_of(r),
            final(reader).position(),
        ),
{
    let buf = raise(reader.read_string())?;
    match unpack(kind, buf.as_slice()) {
        Some(v) => Ok(v),
        None => Err(RdbError::Malformed),
    }
}

fn stream(reader: &mut Reader) -> (r: Result<Value, RdbError>)
    requires
        old(reader).wf(),
    ensures
        final(reader).follows(*old(reader)),
        agrees(
            stream_at(old(reader).source(), old(reader).position()),
            payload_of(r),
            final(reader).position(),
        ),
{
    let from: usize = reader.offset();
    skip_stream(reader)?;
    let to: usize = reader.offset();
    Ok(Value::Stream(reader.copy(from, to)))
}

fn counted(reader: &mut Reader, kind: u8) -> (r: Result<Value, RdbError>)
    requires
        old(reader).wf(),
        is_counted(kind),
    ensures
        final(reader).follows(*old(reader)),
        agrees(
            counted_at(old(reader).source(), old(reader).position(), kind),
            payload_of(r),
            final(reader).position(),
        ),
{
    let n: u64 = count(reader)?;
    if kind == 1 {
        Ok(Value::List(strings(reader, n)?))
    } else if kind == 2 {
        Ok(Value::UnorderedSet(strings(reader, n)?))
    } else if kind == 3 {
        Ok(Value::SortedSet(scored(reader, n)?))
    } else if kind == 4 {
        Ok(Value::Hash(fields(reader, n)?))
    } else if kind == 5 {
        Ok(Value::SortedSet(ranked(reader, n)?))
    } else if kind == 14 {
        Ok(Value::List(nodes(reader, n)?))
    } else {
        Ok(Value::List(containers(reader, n)?))
    }
}

/// Decodes the value of type `kind` that starts at the reader's position.
pub fn decode_value(reader: &mut Reader, kind: u8) -> (r: Result<Value, RdbError>)
    requires
        old(reader).wf(),
    ensures
        final(reader).follows(*old(reader)),
        agrees(
            value_at(old(reader).source(), old(reader).position(), kind),
            payload_of(r),
            final(reader).position(),
        ),
{
    reveal(value_at);
    if kind == 0 {
        plain(reader)
    } else if (9 <= kind && kind <= 13) || kind == 16 || kind == 18 || kind == 19 {
        packed(reader, kind)
    } else if kind == 7 {
        module(reader)
    } else if kind == 20 {
        stream(reader)
    } else if (1 <= kind && kind <= 5) || kind == 14 || kind == 17 {
        counted(reader, kind)
    } else {
        Err(RdbError::UnknownType(kind))
    }
}

} // verus!
