//! Host-side flow control: at most one NCI Command outstanding, released
//! by its Response or by a timeout.
use vstd::prelude::*;

use crate::nci::{MT_COMMAND, MT_RESPONSE};

verus! {

/// Time a Command may stay unanswered before the next one may be sent.
pub const COMMAND_TIMEOUT_MS: u64 = 20;

/// The host's flow-control state: whether a Command is outstanding, and
/// until when it may stay so.
pub struct FlowController {
    pending: bool,
    deadline: u64,
}

/// Whether a Command is outstanding.
#[derive(Clone, Copy, Debug, PartialEq, Eq, Structural)]
pub enum FlowState {
    /// No Command is outstanding.
    Ready,
    /// A Command is outstanding until the given time, in milliseconds.
    Pending { deadline: u64 },
}

impl FlowController {
    pub closed spec fn view_state(&self) -> FlowState {
        if self.pending {
            FlowState::Pending { deadline: self.deadline }
        } else {
            FlowState::Ready
        }
    }

    /// Number of Commands outstanding.
    pub open spec fn in_flight(&self) -> nat {
        if self.view_state() is Pending {
            1
        } else {
            0
        }
    }

    pub fn new() -> (r: FlowController)
        ensures
            r.view_state() == FlowState::Ready,
    {
        FlowController { pending: false, deadline: 0 }
    }

    /// Whether the next queued Command may be sent now.
    pub fn can_send(&self) -> (r: bool)
        ensures
            r == (self.view_state() == FlowState::Ready),
    {
        !self.pending
    }

    /// Whether a packet of message type `mt` may be sent now: only a
    /// Command waits for the outstanding one.
    pub open spec fn may_send_spec(&self, mt: u8) -> bool {
        may_send_state(self.view_state(), mt)
    }

    pub fn may_send(&self, mt: u8) -> (r: bool)
        ensures
            r == self.may_send_spec(mt),
    {
        mt != MT_COMMAND || !self.pending
    }

    /// The time at which an outstanding Command times out.
    pub fn deadline(&self) -> (r: Option<u64>)
        ensures
            r == match self.view_state() {
                FlowState::Ready => None,
                FlowState::Pending { deadline } => Some(deadline),
            },
    {
        if self.pending {
            Some(self.deadline)
        } else {
            None
        }
    }

    /// A packet of message type `mt` came from the controller; a Response
    /// releases the outstanding Command.
    pub fn on_received(&mut self, mt: u8)
        ensures
            final(self).view_state() == received_spec(old(self).view_state(), mt),
    {
        if mt == MT_RESPONSE {
            self.pending = false;
        }
    }

    /// A packet of message type `mt` from the outgoing queue is sent at
    /// time `now`; a Command becomes the outstanding one.
    pub fn on_sent(&mut self, mt: u8, now: u64)
        requires
            old(self).may_send_spec(mt),
        ensures
            final(self).view_state() == sent_spec(old(self).view_state(), mt, now),
    {
        if mt == MT_COMMAND {
            self.pending = true;
            self.deadline = if now <= u64::MAX - COMMAND_TIMEOUT_MS {
                now + COMMAND_TIMEOUT_MS
            } else {
                u64::MAX
            };
        }
    }

    /// The timer fires at `now`. Returns whether the outstanding Command
    /// timed out, which releases it.
    pub fn on_timer(&mut self, now: u64) -> (r: bool)
        ensures
            r == timed_out(old(self).view_state(), now),
            final(self).view_state() == timer_spec(old(self).view_state(), now),
    {
        if self.pending && now >= self.deadline {
            self.pending = false;
            true
        } else {
            false
        }
    }
}

/// Only a Command waits for the outstanding one.
pub open spec fn may_send_state(s: FlowState, mt: u8) -> bool {
    mt != MT_COMMAND || s == FlowState::Ready
}

/// When a Command sent at `t` times out.
pub open spec fn deadline_of(t: u64) -> u64 {
    if t <= u64::MAX - COMMAND_TIMEOUT_MS {
        (t + COMMAND_TIMEOUT_MS) as u64
    } else {
        u64::MAX
    }
}

pub open spec fn received_spec(s: FlowState, mt: u8) -> FlowState {
    if mt == MT_RESPONSE {
        FlowState::Ready
    } else {
        s
    }
}

pub open spec fn sent_spec(s: FlowState, mt: u8, now: u64) -> FlowState {
    if mt == MT_COMMAND {
        FlowState::Pending { deadline: deadline_of(now) }
    } else {
        s
    }
}

pub open spec fn timed_out(s: FlowState, now: u64) -> bool {
    s matches FlowState::Pending { deadline } && now >= deadline
}

pub open spec fn timer_spec(s: FlowState, now: u64) -> FlowState {
    if timed_out(s, now) {
        FlowState::Ready
    } else {
        s
    }
}

/// A Command is sent only when none is outstanding, and then exactly one
/// is; it stays so until its Response, or until the timer fires 20 ms
/// after it was sent, whichever comes first, after which the next
/// Command may be sent.
pub proof fn lemma_host_flow(t: u64, now: u64, mt: u8)
    requires
        t <= u64::MAX - COMMAND_TIMEOUT_MS,
    ensures
        sent_spec(FlowState::Ready, MT_COMMAND, t) == (FlowState::Pending { deadline: (t + COMMAND_TIMEOUT_MS) as u64 }),
        now < t + COMMAND_TIMEOUT_MS ==> timer_spec(sent_spec(FlowState::Ready, MT_COMMAND, t), now)
            == sent_spec(FlowState::Ready, MT_COMMAND, t),
        now >= t + COMMAND_TIMEOUT_MS ==> timer_spec(sent_spec(FlowState::Ready, MT_COMMAND, t), now)
            == FlowState::Ready,
        received_spec(sent_spec(FlowState::Ready, MT_COMMAND, t), MT_RESPONSE) == FlowState::Ready,
        mt != MT_RESPONSE ==> received_spec(sent_spec(FlowState::Ready, MT_COMMAND, t), mt)
            == sent_spec(FlowState::Ready, MT_COMMAND, t),
{
}

/// An event seen by the host's flow control.
#[derive(Clone, Copy, Debug, PartialEq, Eq, Structural)]
pub enum FlowEvent {
    /// A packet of message type `mt` came from the controller.
    Received { mt: u8 },
    /// A packet of message type `mt` was sent at `now`.
    Sent { mt: u8, now: u64 },
    /// The timer fired at `now`.
    Timer { now: u64 },
}

pub open spec fn flow_step(s: FlowState, e: FlowEvent) -> FlowState {
    match e {
        FlowEvent::Received { mt } => received_spec(s, mt),
        FlowEvent::Sent { mt, now } => sent_spec(s, mt, now),
        FlowEvent::Timer { now } => timer_spec(s, now),
    }
}

/// The state after the events `es`, from a controller with nothing
/// outstanding.
pub open spec fn flow_run(es: Seq<FlowEvent>) -> FlowState
    decreases es.len(),
{
    if es.len() == 0 {
        FlowState::Ready
    } else {
        flow_step(flow_run(es.drop_last()), es.last())
    }
}

/// Every packet of `es` was sent when flow control allowed it.
pub open spec fn admitted(es: Seq<FlowEvent>) -> bool {
    forall|i: int|
        0 <= i < es.len() ==> (#[trigger] es[i] matches FlowEvent::Sent { mt, .. } ==> may_send_state(
            flow_run(es.take(i)),
            mt,
        ))
}

/// The send times of the Commands in flight after `es`: sent, and since
/// neither answered by a Response nor timed out. A Response or a timeout
/// ends the oldest one.
pub open spec fn in_flight_commands(es: Seq<FlowEvent>) -> Seq<u64>
    decreases es.len(),
{
    if es.len() == 0 {
        Seq::empty()
    } else {
        let o = in_flight_commands(es.drop_last());
        match es.last() {
            FlowEvent::Sent { mt, now } => if mt == MT_COMMAND {
                o.push(now)
            } else {
                o
            },
            FlowEvent::Received { mt } => if mt == MT_RESPONSE && o.len() > 0 {
                o.drop_first()
            } else {
                o
            },
            FlowEvent::Timer { now } => if o.len() > 0 && now >= deadline_of(o[0]) {
                o.drop_first()
            } else {
                o
            },
        }
    }
}

/// Over any sequence of events in which packets are sent only when flow
/// control allows it, at most one Command is in flight at any time; the
/// controller is pending exactly while one is, until its Response or
/// until the timer fires 20 ms after it was sent; and no other Command is
/// sent meanwhile.
pub proof fn lemma_flow_trace(es: Seq<FlowEvent>)
    requires
        admitted(es),
    ensures
        in_flight_commands(es).len() <= 1,
        flow_run(es) == (if in_flight_commands(es).len() == 0 {
            FlowState::Ready
        } else {
            FlowState::Pending { deadline: deadline_of(in_flight_commands(es)[0]) }
        }),
    decreases es.len(),
{
    if es.len() > 0 {
        let init = es.drop_last();
        assert forall|i: int| 0 <= i < init.len() implies (#[trigger] init[i] matches FlowEvent::Sent {
            mt,
            ..
        } ==> may_send_state(flow_run(init.take(i)), mt)) by {
            assert(init[i] == es[i]);
            assert(init.take(i) =~= es.take(i));
        }
        lemma_flow_trace(init);
        let n = es.len() - 1;
        assert(es.take(n) =~= init);
        assert(es[n] == es.last());
        let o = in_flight_commands(init);
        match es.last() {
            FlowEvent::Sent { mt, now } => {
                if mt == MT_COMMAND {
                    assert(o.push(now)[0] == now);
                }
            },
            _ => {},
        }
    }
}

} // verus!
