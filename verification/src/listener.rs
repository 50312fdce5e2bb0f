//! The replication session with a single master: what to send, and what to
//! make of each answer.

use crate::bytes::{decimal, to_decimal};
use crate::control::is_set;
use crate::handler::{
    DefaultRDBParser, Event, EventHandler, ModuleParser, NoOpEventHandler, RDBParser,
};
use crate::packed::rows;
use crate::rdb::object::RdbError;
use crate::rdb::snapshot_at;
use crate::reader::{ReadError, Reader};
use crate::resp::{
    command_bytes, decode_int, decode_resp, encode_command, frame_at, int_line_at, int_of, models,
    parse_int, Fault, Frame, Resp, RespError,
};
use crate::text::{has_prefix, nth_word, same, starts_with, word};
use crate::vocabulary::{
    ack, ack_bytes, auth, auth_bytes, full_resync, full_resync_bytes, listening_port,
    listening_port_bytes, loading, loading_bytes, no_master_link, no_master_link_bytes, psync,
    psync_bytes, psync_unknown, psync_unknown_bytes, replconf, replconf_bytes, resume,
    resume_bytes, sync, sync_bytes,
};
use std::sync::atomic::AtomicBool;
use std::sync::Arc;
use vstd::prelude::*;

verus! {

/// How to reach the master and what to ask of it.
pub struct Config {
    /// Skip the snapshot without decoding it.
    pub is_discard_rdb: bool,
    /// Stay connected after the snapshot and follow the command stream.
    pub is_aof: bool,
    /// The master's address.
    pub addr: String,
    /// The password; empty where the master asks for none.
    pub password: Vec<u8>,
    /// The replication id; `?` where none is known.
    pub repl_id: Vec<u8>,
    /// The replication offset; `-1` where none is known.
    pub repl_offset: i64,
    /// Limit on a single read, in milliseconds.
    pub read_timeout: Option<u64>,
    /// Limit on a single write, in milliseconds.
    pub write_timeout: Option<u64>,
}

/// How the session obtains the data.
#[derive(Clone, Copy, Debug, PartialEq, Eq, Structural)]
pub enum Mode {
    PSync,
    Sync,
    Wait,
}

/// What follows the master's answer to `PSYNC`.
#[derive(Clone, Copy, Debug, PartialEq, Eq, Structural)]
pub enum NextStep {
    /// A snapshot follows.
    FullSync,
    /// The command stream resumes at the offset that was asked for.
    PartialResync,
    /// The master does not know `PSYNC`: ask with `SYNC`.
    ChangeMode,
    /// The master is not ready: ask again later.
    Wait,
}

/// Why the session failed.
#[derive(Debug)]
pub enum ListenError {
    /// A reply could not be read, or the master answered with an error.
    Resp(RespError),
    /// The snapshot could not be decoded.
    Rdb(RdbError),
    /// The master refused the password; this is its answer.
    Auth(Vec<u8>),
    /// A reply does not have the shape that the protocol gives it here.
    Protocol,
    /// The replication offset left the range of 64 bits.
    Overflow,
}

/// What a `ListenError` stands for.
pub enum Failure {
    Resp(Fault),
    Rdb(RdbError),
    Auth(Seq<u8>),
    Protocol,
    Overflow,
}

impl ListenError {
    pub open spec fn model(&self) -> Failure {
        match self {
            ListenError::Resp(e) => Failure::Resp(e.model()),
            ListenError::Rdb(e) => Failure::Rdb(*e),
            ListenError::Auth(t) => Failure::Auth(t@),
            ListenError::Protocol => Failure::Protocol,
            ListenError::Overflow => Failure::Overflow,
        }
    }
}

/// A listener for the events of one master.
pub struct Listener<P, H, M> {
    pub config: Config,
    pub rdb_parser: Option<P>,
    pub event_handler: Option<H>,
    pub fallback: DefaultRDBParser<M>,
    pub running: Arc<AtomicBool>,
}

/// Collects the parts of a `Listener`.
pub struct Builder<P, H, M> {
    pub config: Option<Config>,
    pub rdb_parser: Option<P>,
    pub event_handler: Option<H>,
    pub module_parser: Option<M>,
    pub control_flag: Option<Arc<AtomicBool>>,
}

impl<P: RDBParser, H: EventHandler, M: ModuleParser> Builder<P, H, M> {
    /// A builder with nothing set.
    pub fn new() -> (r: Builder<P, H, M>)
        ensures
            r.config is None,
            r.rdb_parser is None,
            r.event_handler is None,
            r.module_parser is None,
            r.control_flag is None,
    {
        Builder {
            config: None,
            rdb_parser: None,
            event_handler: None,
            module_parser: None,
            control_flag: None,
        }
    }

    /// Sets the configuration.
    pub fn with_config(&mut self, config: Config)
        ensures
            final(self).config == Some(config),
            final(self).rdb_parser == old(self).rdb_parser,
            final(self).event_handler == old(self).event_handler,
            final(self).module_parser == old(self).module_parser,
            final(self).control_flag == old(self).control_flag,
    {
        self.config = Some(config);
    }

    /// Sets the parser that decodes the snapshot in place of the default one.
    pub fn with_rdb_parser(&mut self, parser: P)
        ensures
            final(self).config == old(self).config,
            final(self).rdb_parser == Some(parser),
            final(self).event_handler == old(self).event_handler,
            final(self).module_parser == old(self).module_parser,
            final(self).control_flag == old(self).control_flag,
    {
        self.rdb_parser = Some(parser);
    }

    /// Sets the handler that receives the events.
    pub fn with_event_handler(&mut self, handler: H)
        ensures
            final(self).config == old(self).config,
            final(self).rdb_parser == old(self).rdb_parser,
            final(self).event_handler == Some(handler),
            final(self).module_parser == old(self).module_parser,
            final(self).control_flag == old(self).control_flag,
    {
        self.event_handler = Some(handler);
    }

    /// Sets the parser for the records of modules.
    pub fn with_module_parser(&mut self, parser: M)
        ensures
            final(self).config == old(self).config,
            final(self).rdb_parser == old(self).rdb_parser,
            final(self).event_handler == old(self).event_handler,
            final(self).module_parser == Some(parser),
            final(self).control_flag == old(self).control_flag,
    {
        self.module_parser = Some(parser);
    }

    /// Sets the flag by which the caller stops the listener.
    pub fn with_control_flag(&mut self, flag: Arc<AtomicBool>)
        ensures
            final(self).config == old(self).config,
            final(self).rdb_parser == old(self).rdb_parser,
            final(self).event_handler == old(self).event_handler,
            final(self).module_parser == old(self).module_parser,
            final(self).control_flag == Some(flag),
    {
        self.control_flag = Some(flag);
    }

    /// Whether `build` can be called: the configuration and the control flag
    /// are set.
    pub fn is_complete(&self) -> (r: bool)
        ensures
            r == (self.config is Some && self.control_flag is Some),
    {
        self.config.is_some() && self.control_flag.is_some()
    }

    /// Makes the listener. The configuration and the control flag must have
    /// been set; the parsers and the handler are optional.
    pub fn build(self) -> (r: Listener<P, H, M>)
        requires
            self.config is Some,
            self.control_flag is Some,
        ensures
            Some(r.config) == self.config,
            r.rdb_parser == self.rdb_parser,
            r.event_handler == self.event_handler,
            r.fallback.module_parser == self.module_parser,
            Some(r.running) == self.control_flag,
    {
        Listener {
            config: self.config.unwrap(),
            rdb_parser: self.rdb_parser,
            event_handler: self.event_handler,
            fallback: DefaultRDBParser { module_parser: self.module_parser },
            running: self.control_flag.unwrap(),
        }
    }
}

/// The command that presents `password`.
pub open spec fn auth_command(password: Seq<u8>) -> Seq<u8> {
    command_bytes(auth(), seq![password])
}

/// The command that announces the local port `port`.
pub open spec fn port_command(port: u16) -> Seq<u8> {
    command_bytes(replconf(), seq![listening_port(), decimal(port as int)])
}

/// The command that asks to resume replication `id` at `offset`.
pub open spec fn psync_command(id: Seq<u8>, offset: i64) -> Seq<u8> {
    command_bytes(psync(), seq![id, decimal(offset as int)])
}

/// The command that asks for a full copy.
pub open spec fn sync_command() -> Seq<u8> {
    command_bytes(sync(), Seq::empty())
}

/// The command that acknowledges `offset`.
pub open spec fn ack_command(offset: i64) -> Seq<u8> {
    command_bytes(replconf(), seq![ack(), decimal(offset as int)])
}

/// Frames `AUTH <password>`.
pub fn encode_auth(password: &[u8]) -> (r: Vec<u8>)
    ensures
        r@ == auth_command(password@),
{
    let mut args: Vec<Vec<u8>> = Vec::new();
    args.push(vstd::slice::slice_to_vec(password));
    assert(rows(args@) =~= seq![password@]);
    encode_command(auth_bytes().as_slice(), &args)
}

/// Frames `REPLCONF listening-port <port>`.
pub fn encode_port(port: u16) -> (r: Vec<u8>)
    ensures
        r@ == port_command(port),
{
    let mut args: Vec<Vec<u8>> = Vec::new();
    args.push(listening_port_bytes());
    args.push(to_decimal(port as i64));
    assert(rows(args@) =~= seq![listening_port(), decimal(port as int)]);
    encode_command(replconf_bytes().as_slice(), &args)
}

/// Frames `PSYNC <id> <offset>`.
pub fn encode_psync(id: &[u8], offset: i64) -> (r: Vec<u8>)
    ensures
        r@ == psync_command(id@, offset),
{
    let mut args: Vec<Vec<u8>> = Vec::new();
    args.push(vstd::slice::slice_to_vec(id));
    args.push(to_decimal(offset));
    assert(rows(args@) =~= seq![id@, decimal(offset as int)]);
    encode_command(psync_bytes().as_slice(), &args)
}

/// Frames `SYNC`.
pub fn encode_sync() -> (r: Vec<u8>)
    ensures
        r@ == sync_command(),
{
    let args: Vec<Vec<u8>> = Vec::new();
    assert(rows(args@) =~= Seq::empty());
    encode_command(sync_bytes().as_slice(), &args)
}

/// Frames `REPLCONF ACK <offset>`.
pub fn encode_ack(offset: i64) -> (r: Vec<u8>)
    ensures
        r@ == ack_command(offset),
{
    let mut args: Vec<Vec<u8>> = Vec::new();
    args.push(ack_bytes());
    args.push(to_decimal(offset));
    assert(rows(args@) =~= seq![ack(), decimal(offset as int)]);
    encode_command(replconf_bytes().as_slice(), &args)
}

impl<P: RDBParser, H: EventHandler, M: ModuleParser> Listener<P, H, M> {
    /// Whether the caller still wants the listener to run.
    pub fn is_running(&self) -> bool {
        is_set(&self.running)
    }
}

/// The replication id and offset that a `FULLRESYNC` reply announces: its
/// second and third words.
pub open spec fn announced(text: Seq<u8>) -> Option<(Seq<u8>, i64)> {
    match (word(text, 0, 1), word(text, 0, 2)) {
        (Some(id), Some(offset)) => match int_of(offset) {
            Some(v) => Some((id, v)),
            None => None,
        },
        _ => None,
    }
}

/// Whether `text` tells that the master is not ready.
pub open spec fn is_transient(text: Seq<u8>) -> bool {
    has_prefix(text, no_master_link()) || has_prefix(text, loading())
}

/// What follows the master's answer to `PSYNC`.
///
/// A line that begins with `FULLRESYNC` and names an id and an offset
/// announces a snapshot; one that begins with `CONTINUE` resumes the stream;
/// one that begins with `NOMASTERLINK` or `LOADING`, as a reply or as an
/// error, asks to wait. The error of a master that does not know `PSYNC`
/// asks for `SYNC`. Any other error fails with that error, any other reply
/// with a protocol failure.
pub open spec fn psync_verdict(reply: Result<Frame, Fault>) -> Result<NextStep, Failure> {
    match reply {
        Ok(Frame::Simple(text)) => if has_prefix(text, full_resync()) {
            if announced(text) is Some {
                Ok(NextStep::FullSync)
            } else {
                Err(Failure::Protocol)
            }
        } else if has_prefix(text, resume()) {
            Ok(NextStep::PartialResync)
        } else if is_transient(text) {
            Ok(NextStep::Wait)
        } else {
            Err(Failure::Protocol)
        },
        Ok(_) => Err(Failure::Protocol),
        Err(Fault::Server(text)) => if text == psync_unknown() {
            Ok(NextStep::ChangeMode)
        } else if is_transient(text) {
            Ok(NextStep::Wait)
        } else {
            Err(Failure::Resp(Fault::Server(text)))
        },
        Err(fault) => Err(Failure::Resp(fault)),
    }
}

/// The replication id after the master's answer `reply` to `PSYNC`: the one
/// that `FULLRESYNC` announces or that `CONTINUE` names, else the one before.
pub open spec fn psync_id(reply: Result<Frame, Fault>, id: Seq<u8>) -> Seq<u8> {
    match reply {
        Ok(Frame::Simple(text)) => if has_prefix(text, full_resync()) {
            match announced(text) {
                Some((new_id, _)) => new_id,
                None => id,
            }
        } else if has_prefix(text, resume()) {
            match word(text, 0, 1) {
                Some(new_id) => new_id,
                None => id,
            }
        } else {
            id
        },
        _ => id,
    }
}

/// The replication offset after the master's answer `reply` to `PSYNC`: the
/// one that `FULLRESYNC` announces, else the one before.
pub open spec fn psync_offset(reply: Result<Frame, Fault>, offset: i64) -> i64 {
    match reply {
        Ok(Frame::Simple(text)) => if has_prefix(text, full_resync()) {
            match announced(text) {
                Some((_, new_offset)) => new_offset,
                None => offset,
            }
        } else {
            offset
        },
        _ => offset,
    }
}

/// `r` with its reply taken as a mathematical value.
pub open spec fn reply_model(r: Result<Resp, RespError>) -> Result<Frame, Fault> {
    match r {
        Ok(v) => Ok(v.model()),
        Err(e) => Err(e.model()),
    }
}

/// `r` with its error taken as a mathematical value.
pub open spec fn outcome<T>(r: Result<T, ListenError>) -> Result<T, Failure> {
    match r {
        Ok(v) => Ok(v),
        Err(e) => Err(e.model()),
    }
}

fn transient(text: &[u8]) -> (r: bool)
    ensures
        r == is_transient(text@),
{
    starts_with(text, no_master_link_bytes().as_slice()) || starts_with(
        text,
        loading_bytes().as_slice(),
    )
}

/// The length of the snapshot that the header at `pos` announces: `$`, a
/// decimal number that is not negative, CRLF. The snapshot's bytes follow
/// without a CRLF of their own.
pub open spec fn dump_length_at(s: Seq<u8>, pos: int) -> Result<(u64, int), Failure> {
    if !(0 <= pos < s.len()) {
        Err(Failure::Resp(Fault::Read(ReadError::UnexpectedEof)))
    } else if s[pos] != 36 {
        Err(Failure::Protocol)
    } else {
        match int_line_at(s, pos + 1) {
            Err(f) => Err(Failure::Resp(f)),
            Ok((n, p)) => if n < 0 {
                Err(Failure::Protocol)
            } else {
                Ok((n as u64, p))
            },
        }
    }
}

/// Reads the header that announces a snapshot and returns the snapshot's
/// length.
pub fn decode_dump_length(reader: &mut Reader) -> (r: Result<u64, ListenError>)
    requires
        old(reader).wf(),
    ensures
        final(reader).follows(*old(reader)),
        match r {
            Ok(n) => dump_length_at(old(reader).source(), old(reader).position()) == Ok::<
                (u64, int),
                Failure,
            >((n, final(reader).position())),
            Err(e) => dump_length_at(old(reader).source(), old(reader).position()) == Err::<
                (u64, int),
                Failure,
            >(e.model()),
        },
{
    let kind: u8 = match reader.read_u8() {
        Ok(b) => b,
        Err(e) => {
            return Err(ListenError::Resp(RespError::Read(e)));
        },
    };
    if kind != 36 {
        return Err(ListenError::Protocol);
    }
    let n: i64 = match decode_int(reader) {
        Ok(n) => n,
        Err(e) => {
            return Err(ListenError::Resp(e));
        },
    };
    if n < 0 {
        return Err(ListenError::Protocol);
    }
    Ok(n as u64)
}

/// The arguments of a command: every element of `items` must be a bulk reply
/// that is not nil.
pub open spec fn arguments(items: Seq<Frame>) -> Option<Seq<Seq<u8>>> {
    if forall|i: int| 0 <= i < items.len() ==> #[trigger] items[i] is Bulk && items[i]->Bulk_0 is Some {
        Some(Seq::new(items.len(), |i: int| items[i]->Bulk_0->Some_0))
    } else {
        None
    }
}

/// Takes the arguments of a command out of the elements of an array.
pub fn to_arguments(items: &Vec<Resp>) -> (r: Option<Vec<Vec<u8>>>)
    ensures
        match r {
            Some(v) => arguments(models(items@)) == Some(rows(v@)),
            None => arguments(models(items@)) is None,
        },
{
    let mut out: Vec<Vec<u8>> = Vec::new();
    let mut i: usize = 0;
    while i < items.len()
        invariant
            i <= items@.len(),
            out@.len() == i,
            forall|j: int|
                0 <= j < i ==> (#[trigger] models(items@)[j]) == Frame::Bulk(Some(out@[j]@)),
        decreases items.len() - i,
    {
        match &items[i] {
            Resp::BulkBytes(Some(b)) => {
                out.push(vstd::slice::slice_to_vec(b.as_slice()));
            },
            _ => {
                assert(!(models(items@)[i as int] is Bulk && models(items@)[i as int]->Bulk_0 is Some));
                return None;
            },
        }
        i += 1;
    }
    assert(rows(out@) =~= arguments(models(items@))->Some_0);
    Some(out)
}

/// The command at `pos` of the stream and the position after it: an array of
/// bulk replies.
pub open spec fn command_at(s: Seq<u8>, pos: int) -> Result<(Seq<Seq<u8>>, int), Failure> {
    match frame_at(s, pos) {
        Err(f) => Err(Failure::Resp(f)),
        Ok((Frame::Array(Some(items)), p)) => match arguments(items) {
            Some(args) => Ok((args, p)),
            None => Err(Failure::Protocol),
        },
        Ok(_) => Err(Failure::Protocol),
    }
}

impl<P: RDBParser, H: EventHandler, M: ModuleParser> Listener<P, H, M> {
    /// Takes in the master's answer to `PSYNC`: adopts the replication id and
    /// offset that it announces, and tells what follows.
    pub fn on_psync_reply(&mut self, reply: Result<Resp, RespError>) -> (r: Result<
        NextStep,
        ListenError,
    >)
        ensures
            outcome(r) == psync_verdict(reply_model(reply)),
            final(self).config.repl_id@ == psync_id(reply_model(reply), old(self).config.repl_id@),
            final(self).config.repl_offset == psync_offset(
                reply_model(reply),
                old(self).config.repl_offset,
            ),
            final(self).config.is_aof == old(self).config.is_aof,
            final(self).config.is_discard_rdb == old(self).config.is_discard_rdb,
            final(self).config.password == old(self).config.password,
            final(self).config.addr == old(self).config.addr,
            final(self).config.read_timeout == old(self).config.read_timeout,
            final(self).config.write_timeout == old(self).config.write_timeout,
            final(self).rdb_parser == old(self).rdb_parser,
            final(self).event_handler == old(self).event_handler,
            final(self).fallback == old(self).fallback,
            final(self).running == old(self).running,
    {
        match reply {
            Ok(Resp::String(text)) => {
                let line: &[u8] = text.as_slice();
                if starts_with(line, full_resync_bytes().as_slice()) {
                    let id = match nth_word(line, 1) {
                        Some(id) => id,
                        None => {
                            return Err(ListenError::Protocol);
                        },
                    };
                    let offset: i64 = match nth_word(line, 2) {
                        Some(w) => match parse_int(w.as_slice()) {
                            Some(v) => v,
                            None => {
                                return Err(ListenError::Protocol);
                            },
                        },
                        None => {
                            return Err(ListenError::Protocol);
                        },
                    };
                    self.config.repl_id = id;
                    self.config.repl_offset = offset;
                    Ok(NextStep::FullSync)
                } else if starts_with(line, resume_bytes().as_slice()) {
                    match nth_word(line, 1) {
                        Some(id) => {
                            self.config.repl_id = id;
                        },
                        None => {},
                    }
                    Ok(NextStep::PartialResync)
                } else if transient(line) {
                    Ok(NextStep::Wait)
                } else {
                    Err(ListenError::Protocol)
                }
            },
            Ok(_) => Err(ListenError::Protocol),
            Err(RespError::Server(text)) => {
                if same(text.as_slice(), psync_unknown_bytes().as_slice()) {
                    Ok(NextStep::ChangeMode)
                } else if transient(text.as_slice()) {
                    Ok(NextStep::Wait)
                } else {
                    Err(ListenError::Resp(RespError::Server(text)))
                }
            },
            Err(e) => Err(ListenError::Resp(e)),
        }
    }

    /// Reads the next command of the stream, counts its bytes and adds them
    /// to the replication offset.
    ///
    /// On success the offset has grown by exactly the number of bytes that
    /// the command took on the wire. On failure the offset is as before.
    /// The reader is left unmarked either way.
    pub fn next_command(&mut self, reader: &mut Reader) -> (r: Result<Vec<Vec<u8>>, ListenError>)
        requires
            old(reader).wf(),
        ensures
            final(reader).wf(),
            final(reader).source() == old(reader).source(),
            old(reader).position() <= final(reader).position(),
            !final(reader).is_marked(),
            final(self).config.repl_id == old(self).config.repl_id,
            final(self).config.is_aof == old(self).config.is_aof,
            final(self).config.is_discard_rdb == old(self).config.is_discard_rdb,
            final(self).config.password == old(self).config.password,
            final(self).rdb_parser == old(self).rdb_parser,
            final(self).event_handler == old(self).event_handler,
            final(self).fallback == old(self).fallback,
            final(self).running == old(self).running,
            final(self).config.repl_offset >= old(self).config.repl_offset,
            match r {
                Ok(args) => {
                    &&& command_at(old(reader).source(), old(reader).position()) == Ok::<
                        (Seq<Seq<u8>>, int),
                        Failure,
                    >((rows(args@), final(reader).position()))
                    &&& final(self).config.repl_offset == old(self).config.repl_offset + (final(reader).position() - old(reader).position())
                },
                Err(e) => {
                    &&& final(self).config.repl_offset == old(self).config.repl_offset
                    &&& match command_at(old(reader).source(), old(reader).position()) {
                        Err(f) => e.model() == f,
                        Ok((_, p)) => e.model() == Failure::Overflow && old(
                            self,
                        ).config.repl_offset + (p - old(reader).position()) > i64::MAX,
                    }
                },
            },
    {
        reader.mark();
        let reply = decode_resp(reader);
        let size: u64 = match reader.unmark() {
            Ok(n) => n,
            Err(_) => 0,
        };
        let items = match reply {
            Ok(Resp::Array(Some(items))) => items,
            Ok(_) => {
                return Err(ListenError::Protocol);
            },
            Err(e) => {
                return Err(ListenError::Resp(e));
            },
        };
        let args = match to_arguments(&items) {
            Some(args) => args,
            None => {
                return Err(ListenError::Protocol);
            },
        };
        let sum: i128 = self.config.repl_offset as i128 + size as i128;
        if sum > i64::MAX as i128 {
            return Err(ListenError::Overflow);
        }
        self.config.repl_offset = sum as i64;
        Ok(args)
    }
}

impl<P: RDBParser, H: EventHandler, M: ModuleParser> Listener<P, H, M> {
    /// Takes the snapshot of `length` bytes off the reader: passes over it
    /// where the configuration says to discard it, else decodes it, with the
    /// parser that was given or with the default one, and hands its objects
    /// to the handler.
    ///
    /// Discarding and the default parser leave the reader exactly `length`
    /// bytes further on success.
    pub fn load_snapshot(&mut self, reader: &mut Reader, length: u64) -> (r: Result<(), ListenError>)
        requires
            old(reader).wf(),
        ensures
            final(reader).follows(*old(reader)),
            final(self).config == old(self).config,
            final(self).running == old(self).running,
            old(self).config.is_discard_rdb ==> match r {
                Ok(_) => final(reader).position() == old(reader).position() + length,
                Err(e) => {
                    &&& e.model() == Failure::Resp(Fault::Read(ReadError::UnexpectedEof))
                    &&& old(reader).position() + length > old(reader).source().len()
                    &&& final(reader).position() == old(reader).position()
                },
            },
            !old(self).config.is_discard_rdb ==> (r matches Err(e) ==> e is Rdb),
            !old(self).config.is_discard_rdb && old(self).rdb_parser is None ==> match r {
                Ok(_) => {
                    &&& snapshot_at(old(reader).source(), old(reader).position()) is Ok
                    &&& snapshot_at(old(reader).source(), old(reader).position())->Ok_0.1 == old(
                        reader,
                    ).position() + length
                    &&& final(reader).position() == old(reader).position() + length
                },
                Err(e) => !(snapshot_at(old(reader).source(), old(reader).position()) is Ok
                    && snapshot_at(old(reader).source(), old(reader).position())->Ok_0.1 == old(
                    reader,
                ).position() + length),
            },
    {
        if self.config.is_discard_rdb {
            return match reader.skip(length) {
                Ok(_) => Ok(()),
                Err(e) => Err(ListenError::Resp(RespError::Read(e))),
            };
        }
        let mut silent = NoOpEventHandler {  };
        let done = match (&mut self.rdb_parser, &mut self.event_handler) {
            (Some(p), Some(h)) => p.parse(reader, length, h),
            (Some(p), None) => p.parse(reader, length, &mut silent),
            (None, Some(h)) => self.fallback.parse(reader, length, h),
            (None, None) => self.fallback.parse(reader, length, &mut silent),
        };
        match done {
            Ok(_) => Ok(()),
            Err(e) => Err(ListenError::Rdb(e)),
        }
    }

    /// Reads the next command of the stream, advances the replication
    /// offset by its size on the wire and hands the command to the handler.
    /// Returns the new offset.
    pub fn receive_aof(&mut self, reader: &mut Reader) -> (r: Result<i64, ListenError>)
        requires
            old(reader).wf(),
        ensures
            final(reader).wf(),
            final(reader).source() == old(reader).source(),
            old(reader).position() <= final(reader).position(),
            !final(reader).is_marked(),
            final(self).config.repl_offset >= old(self).config.repl_offset,
            final(self).config.repl_id == old(self).config.repl_id,
            final(self).running == old(self).running,
            match r {
                Ok(offset) => {
                    &&& command_at(old(reader).source(), old(reader).position()) is Ok
                    &&& command_at(old(reader).source(), old(reader).position())->Ok_0.1 == final(reader).position()
                    &&& offset == final(self).config.repl_offset
                    &&& offset == old(self).config.repl_offset + (final(reader).position() - old(
                        reader,
                    ).position())
                },
                Err(e) => {
                    &&& final(self).config.repl_offset == old(self).config.repl_offset
                    &&& match command_at(old(reader).source(), old(reader).position()) {
                        Err(f) => e.model() == f,
                        Ok((_, p)) => e.model() == Failure::Overflow && old(
                            self,
                        ).config.repl_offset + (p - old(reader).position()) > i64::MAX,
                    }
                },
            },
    {
        let args = self.next_command(reader)?;
        match &mut self.event_handler {
            Some(h) => {
                h.handle(Event::AOF(args));
            },
            None => {},
        }
        Ok(self.config.repl_offset)
    }
}

} // verus!
