//! The record of a stream. It is not decoded into entries: the decoder finds
//! where it ends and keeps its bytes.

use crate::rdb::object::RdbError;
use crate::rdb::value::{count, count_at, raise};
use crate::reader::{bytes_at, string_at, ReadError, Reader};
use vstd::prelude::*;

verus! {

/// Where something ends, or why it does not.
pub type End = Result<int, RdbError>;

/// The position after `n` raw bytes.
pub open spec fn raw_end(s: Seq<u8>, pos: int, n: int) -> End {
    match bytes_at(s, pos, n) {
        (Err(e), _) => Err(RdbError::Read(e)),
        (Ok(_), p) => Ok(p),
    }
}

/// The position after a string.
pub open spec fn string_end(s: Seq<u8>, pos: int) -> End {
    match string_at(s, pos) {
        (Err(e), _) => Err(RdbError::Read(e)),
        (Ok(_), p) => Ok(p),
    }
}

/// The position after a plain length.
pub open spec fn count_end(s: Seq<u8>, pos: int) -> End {
    match count_at(s, pos) {
        Err(e) => Err(e),
        Ok((_, p)) => Ok(p),
    }
}

/// The position after `n` nodes: each a string that holds the node's first
/// id and a string that holds a listpack.
pub open spec fn nodes_end(s: Seq<u8>, pos: int, n: nat) -> End
    decreases n,
{
    if n == 0 {
        Ok(pos)
    } else {
        match string_end(s, pos) {
            Err(e) => Err(e),
            Ok(p) => match string_end(s, p) {
                Err(e) => Err(e),
                Ok(q) => nodes_end(s, q, (n - 1) as nat),
            },
        }
    }
}

/// The position after `n` pending entries of a group: each an id of 16
/// bytes, a delivery time of 8 bytes and a delivery count.
pub open spec fn pending_end(s: Seq<u8>, pos: int, n: nat) -> End
    decreases n,
{
    if n == 0 {
        Ok(pos)
    } else {
        match raw_end(s, pos, 24) {
            Err(e) => Err(e),
            Ok(p) => match count_end(s, p) {
                Err(e) => Err(e),
                Ok(q) => pending_end(s, q, (n - 1) as nat),
            },
        }
    }
}

/// The position after one consumer: a name, a time of 8 bytes, the number of
/// its pending entries and their ids of 16 bytes each.
pub open spec fn consumer_end(s: Seq<u8>, pos: int) -> End {
    match string_end(s, pos) {
        Err(e) => Err(e),
        Ok(p) => match raw_end(s, p, 8) {
            Err(e) => Err(e),
            Ok(q) => match count_at(s, q) {
                Err(e) => Err(e),
                Ok((m, r)) => raw_end(s, r, 16 * m),
            },
        },
    }
}

/// The position after `n` consumers.
pub open spec fn consumers_end(s: Seq<u8>, pos: int, n: nat) -> End
    decreases n,
{
    if n == 0 {
        Ok(pos)
    } else {
        match consumer_end(s, pos) {
            Err(e) => Err(e),
            Ok(p) => consumers_end(s, p, (n - 1) as nat),
        }
    }
}

/// The position after one consumer group: a name, the two halves of its last
/// id, its pending entries behind their number, its consumers behind theirs.
pub open spec fn group_end(s: Seq<u8>, pos: int) -> End {
    match string_end(s, pos) {
        Err(e) => Err(e),
        Ok(a) => match count_end(s, a) {
            Err(e) => Err(e),
            Ok(b) => match count_end(s, b) {
                Err(e) => Err(e),
                Ok(c) => match count_at(s, c) {
                    Err(e) => Err(e),
                    Ok((pending, d)) => match pending_end(s, d, pending as nat) {
                        Err(e) => Err(e),
                        Ok(f) => match count_at(s, f) {
                            Err(e) => Err(e),
                            Ok((consumers, g)) => consumers_end(s, g, consumers as nat),
                        },
                    },
                },
            },
        },
    }
}

/// The position after `n` consumer groups.
pub open spec fn groups_end(s: Seq<u8>, pos: int, n: nat) -> End
    decreases n,
{
    if n == 0 {
        Ok(pos)
    } else {
        match group_end(s, pos) {
            Err(e) => Err(e),
            Ok(p) => groups_end(s, p, (n - 1) as nat),
        }
    }
}

/// The position after a stream's record: its nodes behind their number, the
/// number of its entries, the two halves of its last id, and its consumer
/// groups behind their number.
pub open spec fn stream_end(s: Seq<u8>, pos: int) -> End {
    match count_at(s, pos) {
        Err(e) => Err(e),
        Ok((nodes, a)) => match nodes_end(s, a, nodes as nat) {
            Err(e) => Err(e),
            Ok(b) => match count_end(s, b) {
                Err(e) => Err(e),
                Ok(c) => match count_end(s, c) {
                    Err(e) => Err(e),
                    Ok(d) => match count_end(s, d) {
                        Err(e) => Err(e),
                        Ok(f) => match count_at(s, f) {
                            Err(e) => Err(e),
                            Ok((groups, g)) => groups_end(s, g, groups as nat),
                        },
                    },
                },
            },
        },
    }
}

/// Whether the outcome `r`, with the reader then at `end`, is what `spec`
/// says.
pub open spec fn reaches(spec: End, r: Result<(), RdbError>, end: int) -> bool {
    match r {
        Ok(_) => spec == Ok::<int, RdbError>(end),
        Err(e) => spec == Err::<int, RdbError>(e),
    }
}

fn skip_raw(reader: &mut Reader, n: u64) -> (r: Result<(), RdbError>)
    requires
        old(reader).wf(),
    ensures
        final(reader).follows(*old(reader)),
        reaches(raw_end(old(reader).source(), old(reader).position(), n as int), r, final(reader).position()),
{
    raise(reader.skip(n))
}

fn skip_string(reader: &mut Reader) -> (r: Result<(), RdbError>)
    requires
        old(reader).wf(),
    ensures
        final(reader).follows(*old(reader)),
        reaches(string_end(old(reader).source(), old(reader).position()), r, final(reader).position()),
{
    let _ = raise(reader.read_string())?;
    Ok(())
}

fn skip_count(reader: &mut Reader) -> (r: Result<(), RdbError>)
    requires
        old(reader).wf(),
    ensures
        final(reader).follows(*old(reader)),
        reaches(count_end(old(reader).source(), old(reader).position()), r, final(reader).position()),
{
    let _ = count(reader)?;
    Ok(())
}

fn skip_nodes(reader: &mut Reader, n: u64) -> (r: Result<(), RdbError>)
    requires
        old(reader).wf(),
    ensures
        final(reader).follows(*old(reader)),
        reaches(nodes_end(old(reader).source(), old(reader).position(), n as nat), r, final(reader).position()),
{
    let ghost s = reader.source();
    let ghost start = reader.position();
    let mut i: u64 = 0;
    while i < n
        invariant
            i <= n,
            reader.follows(*old(reader)),
            s == old(reader).source(),
            start == old(reader).position(),
            nodes_end(s, reader.position(), (n - i) as nat) == nodes_end(s, start, n as nat),
        decreases n - i,
    {
        skip_string(reader)?;
        skip_string(reader)?;
        i += 1;
    }
    Ok(())
}

fn skip_pending(reader: &mut Reader, n: u64) -> (r: Result<(), RdbError>)
    requires
        old(reader).wf(),
    ensures
        final(reader).follows(*old(reader)),
        reaches(pending_end(old(reader).source(), old(reader).position(), n as nat), r, final(reader).position()),
{
    let ghost s = reader.source();
    let ghost start = reader.position();
    let mut i: u64 = 0;
    while i < n
        invariant
            i <= n,
            reader.follows(*old(reader)),
            s == old(reader).source(),
            start == old(reader).position(),
            pending_end(s, reader.position(), (n - i) as nat) == pending_end(s, start, n as nat),
        decreases n - i,
    {
        skip_raw(reader, 24)?;
        skip_count(reader)?;
        i += 1;
    }
    Ok(())
}

fn skip_consumer(reader: &mut Reader) -> (r: Result<(), RdbError>)
    requires
        old(reader).wf(),
    ensures
        final(reader).follows(*old(reader)),
        reaches(consumer_end(old(reader).source(), old(reader).position()), r, final(reader).position()),
{
    skip_string(reader)?;
    skip_raw(reader, 8)?;
    let m: u64 = count(reader)?;
    if m > reader.remaining() as u64 / 16 {
        return Err(RdbError::Read(ReadError::UnexpectedEof));
    }
    skip_raw(reader, 16 * m)
}

fn skip_consumers(reader: &mut Reader, n: u64) -> (r: Result<(), RdbError>)
    requires
        old(reader).wf(),
    ensures
        final(reader).follows(*old(reader)),
        reaches(consumers_end(old(reader).source(), old(reader).position(), n as nat), r, final(reader).position()),
{
    let ghost s = reader.source();
    let ghost start = reader.position();
    let mut i: u64 = 0;
    while i < n
        invariant
            i <= n,
            reader.follows(*old(reader)),
            s == old(reader).source(),
            start == old(reader).position(),
            consumers_end(s, reader.position(), (n - i) as nat) == consumers_end(
                s,
                start,
                n as nat,
            ),
        decreases n - i,
    {
        skip_consumer(reader)?;
        i += 1;
    }
    Ok(())
}

fn skip_group(reader: &mut Reader) -> (r: Result<(), RdbError>)
    requires
        old(reader).wf(),
    ensures
        final(reader).follows(*old(reader)),
        reaches(group_end(old(reader).source(), old(reader).position()), r, final(reader).position()),
{
    skip_string(reader)?;
    skip_count(reader)?;
    skip_count(reader)?;
    let pending: u64 = count(reader)?;
    skip_pending(reader, pending)?;
    let consumers: u64 = count(reader)?;
    skip_consumers(reader, consumers)
}

fn skip_groups(reader: &mut Reader, n: u64) -> (r: Result<(), RdbError>)
    requires
        old(reader).wf(),
    ensures
        final(reader).follows(*old(reader)),
        reaches(groups_end(old(reader).source(), old(reader).position(), n as nat), r, final(reader).position()),
{
    let ghost s = reader.source();
    let ghost start = reader.position();
    let mut i: u64 = 0;
    while i < n
        invariant
            i <= n,
            reader.follows(*old(reader)),
            s == old(reader).source(),
            start == old(reader).position(),
            groups_end(s, reader.position(), (n - i) as nat) == groups_end(s, start, n as nat),
        decreases n - i,
    {
        skip_group(reader)?;
        i += 1;
    }
    Ok(())
}

/// Reads over a stream's record.
pub fn skip_stream(reader: &mut Reader) -> (r: Result<(), RdbError>)
    requires
        old(reader).wf(),
    ensures
        final(reader).follows(*old(reader)),
        reaches(stream_end(old(reader).source(), old(reader).position()), r, final(reader).position()),
{
    let nodes: u64 = count(reader)?;
    skip_nodes(reader, nodes)?;
    skip_count(reader)?;
    skip_count(reader)?;
    skip_count(reader)?;
    let groups: u64 = count(reader)?;
    skip_groups(reader, groups)
}

} // verus!
