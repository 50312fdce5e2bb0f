//! The interfaces through which decoded data leaves the library.

use crate::rdb::object::{Emitted, Object, RdbError};
use crate::rdb::{parse, snapshot_at};
use crate::reader::Reader;
use vstd::prelude::*;

verus! {

/// What a handler is given.
#[derive(Clone, Debug, PartialEq, Eq)]
pub enum Event {
    /// An object of the snapshot.
    RDB(Object),
    /// A command of the stream that follows the snapshot: its name and its
    /// arguments.
    AOF(Vec<Vec<u8>>),
}

/// Receives what was decoded, one event at a time, in the order of the
/// source.
pub trait EventHandler {
    fn handle(&mut self, event: Event);
}

/// A handler that drops every event.
pub struct NoOpEventHandler {}

impl EventHandler for NoOpEventHandler {
    fn handle(&mut self, event: Event) {
    }
}

/// Decodes the records of modules, given the module's id and the bytes of
/// the record.
pub trait ModuleParser {
    fn parse(&mut self, id: u64, payload: &[u8]);
}

/// A module parser that looks at nothing.
pub struct NoOpModuleParser {}

impl ModuleParser for NoOpModuleParser {
    fn parse(&mut self, id: u64, payload: &[u8]) {
    }
}

/// Decodes a snapshot of `length` bytes from `reader` and hands its objects
/// to `handler`.
pub trait RDBParser {
    fn parse<H: EventHandler>(&mut self, reader: &mut Reader, length: u64, handler: &mut H) -> (r:
        Result<(), RdbError>)
        requires
            old(reader).wf(),
        ensures
            final(reader).follows(*old(reader)),
    ;
}

/// The parser that is used where no other is given: it decodes the whole
/// snapshot, shows each module's record to the module parser, if there is
/// one, and then hands every object to the handler.
pub struct DefaultRDBParser<M> {
    pub module_parser: Option<M>,
}

impl<M: ModuleParser> RDBParser for DefaultRDBParser<M> {
    /// Succeeds exactly where the source holds a snapshot that ends `length`
    /// bytes after the reader's position; the reader is then at its end.
    fn parse<H: EventHandler>(&mut self, reader: &mut Reader, length: u64, handler: &mut H) -> (r:
        Result<(), RdbError>)
        ensures
            match r {
                Ok(_) => {
                    &&& snapshot_at(old(reader).source(), old(reader).position()) is Ok
                    &&& snapshot_at(old(reader).source(), old(reader).position())->Ok_0.1 == old(
                        reader,
                    ).position() + length
                    &&& final(reader).position() == old(reader).position() + length
                },
                Err(e) => {
                    ||| snapshot_at(old(reader).source(), old(reader).position()) == Err::<
                        (Seq<Emitted>, int),
                        RdbError,
                    >(e)
                    ||| {
                        &&& e == RdbError::Length
                        &&& snapshot_at(old(reader).source(), old(reader).position()) is Ok
                        &&& snapshot_at(old(reader).source(), old(reader).position())->Ok_0.1
                            != old(reader).position() + length
                    }
                },
            },
    {
        let objects = parse(reader, length)?;
        for object in it: objects {
            match (&object, &mut self.module_parser) {
                (Object::Module(m), Some(p)) => {
                    p.parse(m.id, m.payload.as_slice());
                },
                _ => {},
            }
            handler.handle(Event::RDB(object));
        }
        Ok(())
    }
}

} // verus!
