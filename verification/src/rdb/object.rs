//! What a snapshot holds: keyed values with their metadata.

use crate::packed::rows;
use crate::reader::ReadError;
use vstd::prelude::*;

verus! {

/// The unit of a key's expiry time.
#[derive(Clone, Copy, Debug, PartialEq, Eq, Structural)]
pub enum ExpireType {
    /// The key does not expire.
    Never,
    /// Seconds since the epoch.
    Seconds,
    /// Milliseconds since the epoch.
    Millisecond,
}

/// Where a key lives and when it expires.
#[derive(Clone, Copy, Debug, PartialEq, Eq)]
pub struct Meta {
    pub db: u32,
    pub expired_type: ExpireType,
    pub expired_time: Option<i64>,
}

/// A string value.
#[derive(Clone, Debug, PartialEq, Eq)]
pub struct KeyValue {
    pub key: Vec<u8>,
    pub value: Vec<u8>,
    pub meta: Meta,
}

/// One entry of a hash.
#[derive(Clone, Debug, PartialEq, Eq)]
pub struct Field {
    pub name: Vec<u8>,
    pub value: Vec<u8>,
}

/// A hash.
#[derive(Clone, Debug, PartialEq, Eq)]
pub struct Hash {
    pub key: Vec<u8>,
    pub fields: Vec<Field>,
    pub meta: Meta,
}

/// A list.
#[derive(Clone, Debug, PartialEq, Eq)]
pub struct List {
    pub key: Vec<u8>,
    pub values: Vec<Vec<u8>>,
    pub meta: Meta,
}

/// A set without an order.
#[derive(Clone, Debug, PartialEq, Eq)]
pub struct UnorderedSet {
    pub key: Vec<u8>,
    pub members: Vec<Vec<u8>>,
    pub meta: Meta,
}

/// The score of a sorted set's member, as it is stored: as text, or as the
/// 64 bits of a binary floating point number.
#[derive(Clone, Debug, PartialEq, Eq)]
pub enum Score {
    Text(Vec<u8>),
    Bits(u64),
}

/// One member of a sorted set.
#[derive(Clone, Debug, PartialEq, Eq)]
pub struct Item {
    pub member: Vec<u8>,
    pub score: Score,
}

/// A sorted set.
#[derive(Clone, Debug, PartialEq, Eq)]
pub struct SortedSet {
    pub key: Vec<u8>,
    pub items: Vec<Item>,
    pub meta: Meta,
}

/// A stream, undecoded: the bytes of its record.
#[derive(Clone, Debug, PartialEq, Eq)]
pub struct Stream {
    pub key: Vec<u8>,
    pub payload: Vec<u8>,
    pub meta: Meta,
}

/// A module's value, undecoded: the module's id and the bytes of its record.
#[derive(Clone, Debug, PartialEq, Eq)]
pub struct Module {
    pub key: Vec<u8>,
    pub id: u64,
    pub payload: Vec<u8>,
    pub meta: Meta,
}

/// One thing found in a snapshot.
#[derive(Clone, Debug, PartialEq, Eq)]
pub enum Object {
    String(KeyValue),
    Hash(Hash),
    List(List),
    UnorderedSet(UnorderedSet),
    SortedSet(SortedSet),
    Stream(Stream),
    Module(Module),
    /// A function library, undecoded.
    Function(Vec<u8>),
    /// The end of the snapshot.
    EOR,
}

/// A value before it is joined with its key.
pub enum Value {
    String(Vec<u8>),
    Hash(Vec<Field>),
    List(Vec<Vec<u8>>),
    UnorderedSet(Vec<Vec<u8>>),
    SortedSet(Vec<Item>),
    Stream(Vec<u8>),
    Module(u64, Vec<u8>),
}

/// What a `Score` stands for.
pub enum Grade {
    Text(Seq<u8>),
    Bits(u64),
}

/// What a `Value` stands for.
pub enum Payload {
    String(Seq<u8>),
    Hash(Seq<(Seq<u8>, Seq<u8>)>),
    List(Seq<Seq<u8>>),
    UnorderedSet(Seq<Seq<u8>>),
    SortedSet(Seq<(Seq<u8>, Grade)>),
    Stream(Seq<u8>),
    Module(u64, Seq<u8>),
}

/// What an `Object` stands for.
pub enum Emitted {
    Keyed { key: Seq<u8>, payload: Payload, meta: Meta },
    Function(Seq<u8>),
    End,
}

/// Why a snapshot was not decoded.
#[derive(Clone, Copy, Debug, PartialEq, Eq, Structural)]
pub enum RdbError {
    /// The source ended early, or a length or a compressed block was wrong.
    Read(ReadError),
    /// The snapshot does not begin with `REDIS` and four digits.
    BadMagic,
    /// A value type that is not decoded.
    UnknownType(u8),
    /// A record's structure is wrong.
    Malformed,
    /// The snapshot does not have the length that was announced.
    Length,
}

impl Score {
    pub open spec fn model(&self) -> Grade {
        match self {
            Score::Text(t) => Grade::Text(t@),
            Score::Bits(b) => Grade::Bits(*b),
        }
    }
}

/// The names and values of `v`, in order.
pub open spec fn field_models(v: Seq<Field>) -> Seq<(Seq<u8>, Seq<u8>)> {
    Seq::new(v.len(), |i: int| (v[i].name@, v[i].value@))
}

/// The members and scores of `v`, in order.
pub open spec fn item_models(v: Seq<Item>) -> Seq<(Seq<u8>, Grade)> {
    Seq::new(v.len(), |i: int| (v[i].member@, v[i].score.model()))
}

impl Value {
    pub open spec fn model(&self) -> Payload {
        match self {
            Value::String(v) => Payload::String(v@),
            Value::Hash(v) => Payload::Hash(field_models(v@)),
            Value::List(v) => Payload::List(rows(v@)),
            Value::UnorderedSet(v) => Payload::UnorderedSet(rows(v@)),
            Value::SortedSet(v) => Payload::SortedSet(item_models(v@)),
            Value::Stream(v) => Payload::Stream(v@),
            Value::Module(id, v) => Payload::Module(*id, v@),
        }
    }
}

impl Object {
    pub open spec fn model(&self) -> Emitted {
        match self {
            Object::String(o) => Emitted::Keyed {
                key: o.key@,
                payload: Payload::String(o.value@),
                meta: o.meta,
            },
            Object::Hash(o) => Emitted::Keyed {
                key: o.key@,
                payload: Payload::Hash(field_models(o.fields@)),
                meta: o.meta,
            },
            Object::List(o) => Emitted::Keyed {
                key: o.key@,
                payload: Payload::List(rows(o.values@)),
                meta: o.meta,
            },
            Object::UnorderedSet(o) => Emitted::Keyed {
                key: o.key@,
                payload: Payload::UnorderedSet(rows(o.members@)),
                meta: o.meta,
            },
            Object::SortedSet(o) => Emitted::Keyed {
                key: o.key@,
                payload: Payload::SortedSet(item_models(o.items@)),
                meta: o.meta,
            },
            Object::Stream(o) => Emitted::Keyed {
                key: o.key@,
                payload: Payload::Stream(o.payload@),
                meta: o.meta,
            },
            Object::Module(o) => Emitted::Keyed {
                key: o.key@,
                payload: Payload::Module(o.id, o.payload@),
                meta: o.meta,
            },
            Object::Function(v) => Emitted::Function(v@),
            Object::EOR => Emitted::End,
        }
    }

    /// Joins a value with its key and metadata.
    pub fn keyed(key: Vec<u8>, value: Value, meta: Meta) -> (r: Object)
        ensures
            r.model() == (Emitted::Keyed { key: key@, payload: value.model(), meta }),
    {
        match value {
            Value::String(value) => Object::String(KeyValue { key, value, meta }),
            Value::Hash(fields) => Object::Hash(Hash { key, fields, meta }),
            Value::List(values) => Object::List(List { key, values, meta }),
            Value::UnorderedSet(members) => Object::UnorderedSet(UnorderedSet { key, members, meta }),
            Value::SortedSet(items) => Object::SortedSet(SortedSet { key, items, meta }),
            Value::Stream(payload) => Object::Stream(Stream { key, payload, meta }),
            Value::Module(id, payload) => Object::Module(Module { key, id, payload, meta }),
        }
    }
}

/// The models of `v`, in order.
pub open spec fn emitted(v: Seq<Object>) -> Seq<Emitted> {
    Seq::new(v.len(), |i: int| v[i].model())
}

} // verus!
