//! The handshake with the master as a state machine: each answer decides
//! the next state and what to do next. The caller does what is asked (sends,
//! reads, sleeps) and hands back what came of it.

use crate::handler::{EventHandler, ModuleParser, RDBParser};
use crate::heartbeat::Message;
use crate::listener::{
    auth_command, encode_auth, encode_port, encode_psync, encode_sync, outcome, port_command,
    psync_command, psync_id, psync_offset, psync_verdict, reply_model, sync_command, Failure,
    ListenError, Listener, Mode, NextStep,
};
use crate::resp::{Fault, Frame, Resp, RespError};
use crate::text::same;
use crate::vocabulary::{ok, ok_bytes};
use vstd::prelude::*;

verus! {

/// Where the handshake stands.
#[derive(Clone, Copy, Debug, PartialEq, Eq, Structural)]
pub enum State {
    /// Not connected yet.
    Init,
    /// The password was sent from the local port given.
    Auth(u16),
    /// The local port was announced.
    Port,
    /// `PSYNC` was sent.
    PSync,
    /// The header of a snapshot is awaited.
    Dump(Mode),
    /// A snapshot is being taken in.
    Loading(Mode),
    /// The master asked to wait.
    Wait,
    /// The command stream is followed.
    Stream,
    /// The session is over.
    Done,
}

/// The commands of the handshake.
#[derive(Clone, Copy, Debug, PartialEq, Eq, Structural)]
pub enum Command {
    Auth,
    ListeningPort,
    PSync,
    Sync,
}

/// What the caller hands in.
pub enum Input {
    /// The connection stands; this is its local port.
    Connected(u16),
    /// The reply to the command that was sent.
    Reply(Result<Resp, RespError>),
    /// The length of the snapshot, from its header.
    Length(Result<u64, ListenError>),
    /// The snapshot was taken in, or not.
    Loaded(Result<(), ListenError>),
    /// The pause is over.
    Slept,
}

/// What the caller is asked to do.
#[derive(Debug)]
pub enum Action {
    /// Send these bytes, which frame the command named. Then read a reply,
    /// or after `SYNC` the header of the snapshot.
    Send(Command, Vec<u8>),
    /// Read the header of the snapshot.
    ReadDump,
    /// Take in a snapshot of this many bytes.
    Load(u64),
    /// Pause for five seconds.
    Sleep,
    /// Follow the command stream; with a heartbeat if the flag is set.
    Stream(bool),
    /// Stop, with this result.
    Finish(Result<(), ListenError>),
}

/// What an `Input` stands for.
pub enum Signal {
    Connected(u16),
    Reply(Result<Frame, Fault>),
    Length(Result<u64, Failure>),
    Loaded(Result<(), Failure>),
    Slept,
}

/// What an `Action` stands for.
pub enum Order {
    Send(Command, Seq<u8>),
    ReadDump,
    Load(u64),
    Sleep,
    Stream(bool),
    Finish(Result<(), Failure>),
}

impl Input {
    pub open spec fn model(&self) -> Signal {
        match self {
            Input::Connected(port) => Signal::Connected(*port),
            Input::Reply(r) => Signal::Reply(reply_model(*r)),
            Input::Length(r) => Signal::Length(outcome(*r)),
            Input::Loaded(r) => Signal::Loaded(outcome(*r)),
            Input::Slept => Signal::Slept,
        }
    }
}

impl Action {
    pub open spec fn model(&self) -> Order {
        match self {
            Action::Send(c, bytes) => Order::Send(*c, bytes@),
            Action::ReadDump => Order::ReadDump,
            Action::Load(n) => Order::Load(*n),
            Action::Sleep => Order::Sleep,
            Action::Stream(beat) => Order::Stream(*beat),
            Action::Finish(r) => Order::Finish(outcome(*r)),
        }
    }
}

/// What the session keeps between steps, as far as the handshake reads it.
pub struct Memory {
    pub password: Seq<u8>,
    pub is_aof: bool,
    pub repl_id: Seq<u8>,
    pub repl_offset: i64,
}

/// The step after the snapshot, or after the master has agreed to resume:
/// follow the stream where the configuration asks for it, else stop.
pub open spec fn after_sync(is_aof: bool, running: bool) -> (State, Order) {
    if is_aof {
        (State::Stream, Order::Stream(running))
    } else {
        (State::Done, Order::Finish(Ok(())))
    }
}

/// The next state and what to do, in state `state` on `signal`, while the
/// caller's flag reads `running`.
///
/// Once connected, the password is sent where there is one, and must be
/// answered with `OK`; then the local port is announced; then `PSYNC` is
/// sent. Its answer leads to a snapshot, to the stream, to a pause after
/// which `PSYNC` is sent again, or to `SYNC` and a snapshot. After a
/// snapshot that `SYNC` brought the session stops. A signal that the state
/// does not expect is a protocol failure.
pub open spec fn transition(m: Memory, state: State, signal: Signal, running: bool) -> (
    State,
    Order,
) {
    match (state, signal) {
        (State::Init, Signal::Connected(port)) => if m.password.len() > 0 {
            (State::Auth(port), Order::Send(Command::Auth, auth_command(m.password)))
        } else {
            (State::Port, Order::Send(Command::ListeningPort, port_command(port)))
        },
        (State::Auth(port), Signal::Reply(Ok(Frame::Simple(text)))) => if text == ok() {
            (State::Port, Order::Send(Command::ListeningPort, port_command(port)))
        } else {
            (State::Done, Order::Finish(Err(Failure::Protocol)))
        },
        (State::Auth(_), Signal::Reply(Ok(_))) => (
            State::Done,
            Order::Finish(Err(Failure::Protocol)),
        ),
        (State::Auth(_), Signal::Reply(Err(Fault::Server(text)))) => (
            State::Done,
            Order::Finish(Err(Failure::Auth(text))),
        ),
        (State::Auth(_), Signal::Reply(Err(fault))) => (
            State::Done,
            Order::Finish(Err(Failure::Resp(fault))),
        ),
        (State::Port, Signal::Reply(Ok(_))) => (
            State::PSync,
            Order::Send(Command::PSync, psync_command(m.repl_id, m.repl_offset)),
        ),
        (State::Port, Signal::Reply(Err(fault))) => (
            State::Done,
            Order::Finish(Err(Failure::Resp(fault))),
        ),
        (State::PSync, Signal::Reply(reply)) => match psync_verdict(reply) {
            Ok(NextStep::FullSync) => (State::Dump(Mode::PSync), Order::ReadDump),
            Ok(NextStep::PartialResync) => after_sync(m.is_aof, running),
            Ok(NextStep::ChangeMode) => (
                State::Dump(Mode::Sync),
                Order::Send(Command::Sync, sync_command()),
            ),
            Ok(NextStep::Wait) => if running {
                (State::Wait, Order::Sleep)
            } else {
                (State::Done, Order::Finish(Ok(())))
            },
            Err(e) => (State::Done, Order::Finish(Err(e))),
        },
        (State::Wait, Signal::Slept) => (
            State::PSync,
            Order::Send(Command::PSync, psync_command(m.repl_id, m.repl_offset)),
        ),
        (State::Dump(mode), Signal::Length(Ok(n))) => (State::Loading(mode), Order::Load(n)),
        (State::Dump(_), Signal::Length(Err(e))) => (State::Done, Order::Finish(Err(e))),
        (State::Loading(mode), Signal::Loaded(Ok(_))) => if mode == Mode::Sync {
            (State::Done, Order::Finish(Ok(())))
        } else {
            after_sync(m.is_aof, running)
        },
        (State::Loading(_), Signal::Loaded(Err(e))) => (State::Done, Order::Finish(Err(e))),
        _ => (State::Done, Order::Finish(Err(Failure::Protocol))),
    }
}

/// What the session keeps after the step: the answer to `PSYNC` may bring a
/// new replication id and offset; nothing else changes.
pub open spec fn remember(m: Memory, state: State, signal: Signal) -> Memory {
    match (state, signal) {
        (State::PSync, Signal::Reply(reply)) => Memory {
            password: m.password,
            is_aof: m.is_aof,
            repl_id: psync_id(reply, m.repl_id),
            repl_offset: psync_offset(reply, m.repl_offset),
        },
        _ => m,
    }
}

impl<P: RDBParser, H: EventHandler, M: ModuleParser> Listener<P, H, M> {
    /// What the handshake reads of the listener.
    pub open spec fn memory(&self) -> Memory {
        Memory {
            password: self.config.password@,
            is_aof: self.config.is_aof,
            repl_id: self.config.repl_id@,
            repl_offset: self.config.repl_offset,
        }
    }

    fn after_sync(&self, running: bool) -> (r: (State, Action))
        ensures
            (r.0, r.1.model()) == after_sync(self.config.is_aof, running),
    {
        if self.config.is_aof {
            (State::Stream, Action::Stream(running))
        } else {
            (State::Done, Action::Finish(Ok(())))
        }
    }

    /// Takes one step of the handshake.
    pub fn step(&mut self, state: State, input: Input, running: bool) -> (r: (State, Action))
        ensures
            (r.0, r.1.model()) == transition(old(self).memory(), state, input.model(), running),
            final(self).memory() == remember(old(self).memory(), state, input.model()),
            final(self).config.is_discard_rdb == old(self).config.is_discard_rdb,
            final(self).config.addr == old(self).config.addr,
            final(self).config.read_timeout == old(self).config.read_timeout,
            final(self).config.write_timeout == old(self).config.write_timeout,
            final(self).rdb_parser == old(self).rdb_parser,
            final(self).event_handler == old(self).event_handler,
            final(self).fallback == old(self).fallback,
            final(self).running == old(self).running,
    {
        match state {
            State::Init => match input {
                Input::Connected(port) => {
                    if self.config.password.len() > 0 {
                        (
                            State::Auth(port),
                            Action::Send(
                                Command::Auth,
                                encode_auth(self.config.password.as_slice()),
                            ),
                        )
                    } else {
                        (State::Port, Action::Send(Command::ListeningPort, encode_port(port)))
                    }
                },
                _ => (State::Done, Action::Finish(Err(ListenError::Protocol))),
            },
            State::Auth(port) => match input {
                Input::Reply(Ok(Resp::String(text))) => {
                    if same(text.as_slice(), ok_bytes().as_slice()) {
                        (State::Port, Action::Send(Command::ListeningPort, encode_port(port)))
                    } else {
                        (State::Done, Action::Finish(Err(ListenError::Protocol)))
                    }
                },
                Input::Reply(Ok(_)) => (State::Done, Action::Finish(Err(ListenError::Protocol))),
                Input::Reply(Err(RespError::Server(text))) => (
                    State::Done,
                    Action::Finish(Err(ListenError::Auth(text))),
                ),
                Input::Reply(Err(e)) => (State::Done, Action::Finish(Err(ListenError::Resp(e)))),
                _ => (State::Done, Action::Finish(Err(ListenError::Protocol))),
            },
            State::Port => match input {
                Input::Reply(Ok(_)) => (
                    State::PSync,
                    Action::Send(
                        Command::PSync,
                        encode_psync(self.config.repl_id.as_slice(), self.config.repl_offset),
                    ),
                ),
                Input::Reply(Err(e)) => (State::Done, Action::Finish(Err(ListenError::Resp(e)))),
                _ => (State::Done, Action::Finish(Err(ListenError::Protocol))),
            },
            State::PSync => match input {
                Input::Reply(reply) => match self.on_psync_reply(reply) {
                    Ok(NextStep::FullSync) => (State::Dump(Mode::PSync), Action::ReadDump),
                    Ok(NextStep::PartialResync) => self.after_sync(running),
                    Ok(NextStep::ChangeMode) => (
                        State::Dump(Mode::Sync),
                        Action::Send(Command::Sync, encode_sync()),
                    ),
                    Ok(NextStep::Wait) => {
                        if running {
                            (State::Wait, Action::Sleep)
                        } else {
                            (State::Done, Action::Finish(Ok(())))
                        }
                    },
                    Err(e) => (State::Done, Action::Finish(Err(e))),
                },
                _ => (State::Done, Action::Finish(Err(ListenError::Protocol))),
            },
            State::Wait => match input {
                Input::Slept => (
                    State::PSync,
                    Action::Send(
                        Command::PSync,
                        encode_psync(self.config.repl_id.as_slice(), self.config.repl_offset),
                    ),
                ),
                _ => (State::Done, Action::Finish(Err(ListenError::Protocol))),
            },
            State::Dump(mode) => match input {
                Input::Length(Ok(n)) => (State::Loading(mode), Action::Load(n)),
                Input::Length(Err(e)) => (State::Done, Action::Finish(Err(e))),
                _ => (State::Done, Action::Finish(Err(ListenError::Protocol))),
            },
            State::Loading(mode) => match input {
                Input::Loaded(Ok(_)) => {
                    if mode == Mode::Sync {
                        (State::Done, Action::Finish(Ok(())))
                    } else {
                        self.after_sync(running)
                    }
                },
                Input::Loaded(Err(e)) => (State::Done, Action::Finish(Err(e))),
                _ => (State::Done, Action::Finish(Err(ListenError::Protocol))),
            },
            _ => (State::Done, Action::Finish(Err(ListenError::Protocol))),
        }
    }
}

/// How far the commands sent so far have come in the order of the
/// handshake.
pub enum Stage {
    /// Nothing was sent.
    Nothing,
    /// `AUTH` was sent.
    Authenticated,
    /// `REPLCONF listening-port` was sent, after `AUTH` or first.
    Announced,
    /// `PSYNC` was sent, once or more, after `REPLCONF listening-port`.
    Asked,
    /// `SYNC` was sent, after `PSYNC`.
    FellBack,
    /// A command was sent out of this order.
    Disorder,
}

/// The stage after `command` is sent at stage `stage`.
pub open spec fn advance(stage: Stage, command: Command) -> Stage {
    match (stage, command) {
        (Stage::Nothing, Command::Auth) => Stage::Authenticated,
        (Stage::Nothing, Command::ListeningPort) => Stage::Announced,
        (Stage::Authenticated, Command::ListeningPort) => Stage::Announced,
        (Stage::Announced, Command::PSync) => Stage::Asked,
        (Stage::Asked, Command::PSync) => Stage::Asked,
        (Stage::Asked, Command::Sync) => Stage::FellBack,
        _ => Stage::Disorder,
    }
}

/// The stage after `order` is carried out at stage `stage`.
pub open spec fn progress(stage: Stage, order: Order) -> Stage {
    match order {
        Order::Send(command, _) => advance(stage, command),
        _ => stage,
    }
}

/// The stage that is reached from `stage` when the session, in state
/// `state`, is given `signals` one after the other, each with a reading of
/// the caller's flag.
pub open spec fn run(m: Memory, state: State, stage: Stage, signals: Seq<(Signal, bool)>) -> Stage
    decreases signals.len(),
{
    if signals.len() == 0 {
        stage
    } else {
        let (signal, running) = signals[0];
        let (next, order) = transition(m, state, signal, running);
        run(remember(m, state, signal), next, progress(stage, order), signals.skip(1))
    }
}

/// Whether the commands sent so far, summed up in `stage`, are those that
/// lead to `state`.
pub open spec fn fits(state: State, stage: Stage) -> bool {
    match state {
        State::Init => stage is Nothing,
        State::Auth(_) => stage is Authenticated,
        State::Port => stage is Announced,
        State::PSync => stage is Asked,
        State::Wait => stage is Asked,
        _ => !(stage is Disorder),
    }
}

/// From a state that fits the commands sent so far, no sequence of signals
/// makes the session send a command out of order.
pub proof fn lemma_stays_in_order(
    m: Memory,
    state: State,
    stage: Stage,
    signals: Seq<(Signal, bool)>,
)
    requires
        fits(state, stage),
    ensures
        !(run(m, state, stage, signals) is Disorder),
    decreases signals.len(),
{
    if signals.len() > 0 {
        let (signal, running) = signals[0];
        let (next, order) = transition(m, state, signal, running);
        assert(fits(next, progress(stage, order)));
        lemma_stays_in_order(
            remember(m, state, signal),
            next,
            progress(stage, order),
            signals.skip(1),
        );
    }
}

/// Whatever the master answers and whenever the caller's flag changes, a
/// session sends its commands in this order: `AUTH` at most once and first,
/// `REPLCONF listening-port` once, `PSYNC` once or more, `SYNC` at most once
/// and last.
pub proof fn lemma_handshake_order(m: Memory, signals: Seq<(Signal, bool)>)
    ensures
        !(run(m, State::Init, Stage::Nothing, signals) is Disorder),
{
    lemma_stays_in_order(m, State::Init, Stage::Nothing, signals);
}

/// The command stream is entered only once a snapshot was taken in, or
/// once the master has agreed to resume; never after `SYNC`.
pub proof fn lemma_stream_follows_sync(m: Memory, state: State, signal: Signal, running: bool)
    requires
        transition(m, state, signal, running).0 == State::Stream,
    ensures
        m.is_aof,
        ({
            &&& state is Loading
            &&& state->Loading_0 != Mode::Sync
            &&& signal is Loaded
            &&& signal->Loaded_0 is Ok
        }) || ({
            &&& state == State::PSync
            &&& signal is Reply
            &&& psync_verdict(signal->Reply_0) == Ok::<NextStep, Failure>(NextStep::PartialResync)
        }),
{
}

/// What came of the wait for the next command of the stream.
pub enum Received {
    /// A command was taken in; this is the replication offset after it.
    Command(i64),
    /// The read ran into its time limit: the master is idle.
    TimedOut,
    /// The read or the command failed.
    Failed(ListenError),
}

/// How the stream is followed further.
#[derive(Debug)]
pub enum Onward {
    /// Wait for the next command.
    Read,
    /// Stop, with this result.
    Finish(Result<(), ListenError>),
}

/// What a `Received` stands for.
pub enum Arrival {
    Command(i64),
    TimedOut,
    Failed(Failure),
}

/// What an `Onward` stands for.
pub enum Course {
    Read,
    Finish(Result<(), Failure>),
}

impl Received {
    pub open spec fn model(&self) -> Arrival {
        match self {
            Received::Command(offset) => Arrival::Command(*offset),
            Received::TimedOut => Arrival::TimedOut,
            Received::Failed(e) => Arrival::Failed(e.model()),
        }
    }
}

impl Onward {
    pub open spec fn model(&self) -> Course {
        match self {
            Onward::Read => Course::Read,
            Onward::Finish(r) => Course::Finish(outcome(*r)),
        }
    }
}

/// What to tell the heartbeat, if anything, and how to go on, after a wait
/// for the next command.
///
/// After a command the heartbeat, where there is one, is told the new
/// offset. A read that ran into its time limit changes nothing. Either way
/// the stream is followed further while the caller's flag is set, and the
/// session ends well once it is not. A failure ends it with that failure.
pub open spec fn follow(arrival: Arrival, heartbeat: bool, running: bool) -> (
    Option<Message>,
    Course,
) {
    match arrival {
        Arrival::Failed(e) => (None, Course::Finish(Err(e))),
        Arrival::Command(offset) => (
            if heartbeat {
                Some(Message::Offset(offset))
            } else {
                None
            },
            if running {
                Course::Read
            } else {
                Course::Finish(Ok(()))
            },
        ),
        Arrival::TimedOut => (
            None,
            if running {
                Course::Read
            } else {
                Course::Finish(Ok(()))
            },
        ),
    }
}

/// Decides how to go on after a wait for the next command of the stream.
pub fn after_receive(received: Received, heartbeat: bool, running: bool) -> (r: (
    Option<Message>,
    Onward,
))
    ensures
        (r.0, r.1.model()) == follow(received.model(), heartbeat, running),
{
    match received {
        Received::Failed(e) => (None, Onward::Finish(Err(e))),
        Received::Command(offset) => {
            let note = if heartbeat {
                Some(Message::Offset(offset))
            } else {
                None
            };
            if running {
                (note, Onward::Read)
            } else {
                (note, Onward::Finish(Ok(())))
            }
        },
        Received::TimedOut => {
            if running {
                (None, Onward::Read)
            } else {
                (None, Onward::Finish(Ok(())))
            }
        },
    }
}

} // verus!
