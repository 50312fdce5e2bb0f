//! The heartbeat: at most every half second the replica acknowledges the
//! offset up to which it has followed the stream.

use crate::listener::{ack_command, encode_ack};
use vstd::prelude::*;

verus! {

/// Milliseconds between two acknowledgements.
pub const PERIOD: u64 = 500;

/// What the session tells the heartbeat.
#[derive(Clone, Copy, Debug, PartialEq, Eq, Structural)]
pub enum Message {
    /// Stop.
    Terminate,
    /// The stream was followed up to this offset.
    Offset(i64),
}

/// The heartbeat's state: the offset to acknowledge, and the time of the
/// last acknowledgement (at first, of its start), in milliseconds.
#[derive(Clone, Copy, Debug, PartialEq, Eq, Structural)]
pub struct Heartbeat {
    pub offset: i64,
    pub timer: u64,
}

/// What the heartbeat does after a wait.
#[derive(Debug, PartialEq, Eq)]
pub enum Beat {
    /// Ends.
    Stop,
    /// Nothing.
    Idle,
    /// Sends these bytes.
    Ack(Vec<u8>),
}

/// What a `Beat` stands for.
pub enum Pulse {
    Stop,
    Idle,
    Ack(Seq<u8>),
}

impl Beat {
    pub open spec fn model(&self) -> Pulse {
        match self {
            Beat::Stop => Pulse::Stop,
            Beat::Idle => Pulse::Idle,
            Beat::Ack(bytes) => Pulse::Ack(bytes@),
        }
    }
}

/// The offset to acknowledge after `message` came, or none did.
pub open spec fn heard(offset: i64, message: Option<Message>) -> i64 {
    match message {
        Some(Message::Offset(v)) => v,
        _ => offset,
    }
}

/// The heartbeat's state and what it does when, at time `now`, a wait ends
/// with `message`, or with none after its time ran out.
///
/// `Terminate` ends it. An offset replaces the one held. Then, where at
/// least a period has passed since the last acknowledgement, the offset is
/// acknowledged and the time noted.
pub open spec fn beat(h: Heartbeat, message: Option<Message>, now: u64) -> (Heartbeat, Pulse) {
    if message == Some(Message::Terminate) {
        (h, Pulse::Stop)
    } else if now - h.timer >= PERIOD {
        (
            Heartbeat { offset: heard(h.offset, message), timer: now },
            Pulse::Ack(ack_command(heard(h.offset, message))),
        )
    } else {
        (Heartbeat { offset: heard(h.offset, message), timer: h.timer }, Pulse::Idle)
    }
}

impl Heartbeat {
    /// A heartbeat that starts at time `now` with offset zero.
    pub fn new(now: u64) -> (r: Heartbeat)
        ensures
            r == (Heartbeat { offset: 0, timer: now }),
    {
        Heartbeat { offset: 0, timer: now }
    }

    /// Takes in the end of a wait at time `now`.
    pub fn on_wake(&mut self, message: Option<Message>, now: u64) -> (r: Beat)
        ensures
            (*final(self), r.model()) == beat(*old(self), message, now),
    {
        match message {
            Some(Message::Terminate) => {
                return Beat::Stop;
            },
            Some(Message::Offset(v)) => {
                self.offset = v;
            },
            None => {},
        }
        if now >= self.timer && now - self.timer >= PERIOD {
            self.timer = now;
            Beat::Ack(encode_ack(self.offset))
        } else {
            Beat::Idle
        }
    }
}

/// What the heartbeat does at each of `times`, when every wait ends without
/// a message.
pub open spec fn pulses(h: Heartbeat, times: Seq<u64>) -> Seq<Pulse>
    decreases times.len(),
{
    if times.len() == 0 {
        Seq::empty()
    } else {
        seq![beat(h, None, times[0]).1] + pulses(beat(h, None, times[0]).0, times.skip(1))
    }
}

/// Whether each of `times` lies at least a period after the one before, and
/// the first at least a period after `start`.
pub open spec fn spaced(start: u64, times: Seq<u64>) -> bool {
    forall|i: int|
        0 <= i < times.len() ==> #[trigger] times[i] - (if i == 0 {
            start
        } else {
            times[i - 1]
        }) >= PERIOD
}

/// With no message coming, the heartbeat acknowledges its offset at the end
/// of every wait that lasted a period or more: at 500 ms, 1000 ms and so on
/// where each wait lasts exactly that.
pub proof fn lemma_cadence(h: Heartbeat, times: Seq<u64>)
    requires
        spaced(h.timer, times),
    ensures
        pulses(h, times).len() == times.len(),
        forall|i: int|
            0 <= i < times.len() ==> #[trigger] pulses(h, times)[i] == Pulse::Ack(
                ack_command(h.offset),
            ),
    decreases times.len(),
{
    if times.len() > 0 {
        assert(times[0] - h.timer >= PERIOD);
        let next = beat(h, None, times[0]).0;
        let rest = times.skip(1);
        assert forall|i: int| 0 <= i < rest.len() implies #[trigger] rest[i] - (if i == 0 {
            next.timer
        } else {
            rest[i - 1]
        }) >= PERIOD by {
            assert(times[i + 1] - (if i + 1 == 0 {
                h.timer
            } else {
                times[i]
            }) >= PERIOD);
        }
        lemma_cadence(next, rest);
        assert forall|i: int| 0 <= i < times.len() implies #[trigger] pulses(h, times)[i]
            == Pulse::Ack(ack_command(h.offset)) by {
            if i > 0 {
                assert(pulses(h, times)[i] == pulses(next, rest)[i - 1]);
            }
        }
    }
}

/// The times at which `n` waits end when each lasts exactly a period and the
/// first begins at time zero.
pub open spec fn periods(n: nat) -> Seq<u64> {
    Seq::new(n, |i: int| (PERIOD * (i + 1)) as u64)
}

/// A heartbeat that starts at time zero and hears nothing acknowledges
/// offset zero at 500 ms, at 1000 ms, and so on at every multiple of the
/// period.
pub proof fn lemma_half_seconds(n: nat)
    requires
        PERIOD * n <= u64::MAX,
    ensures
        pulses(Heartbeat { offset: 0, timer: 0 }, periods(n)).len() == n,
        forall|i: int|
            0 <= i < n ==> #[trigger] pulses(Heartbeat { offset: 0, timer: 0 }, periods(n))[i]
                == Pulse::Ack(ack_command(0)),
{
    let times = periods(n);
    assert forall|i: int| 0 <= i < times.len() implies #[trigger] times[i] - (if i == 0 {
        0u64
    } else {
        times[i - 1]
    }) >= PERIOD by {
        assert(PERIOD * (i + 1) <= PERIOD * n) by (nonlinear_arith)
            requires
                0 <= i < n,
        ;
    }
    lemma_cadence(Heartbeat { offset: 0, timer: 0 }, times);
}

} // verus!
