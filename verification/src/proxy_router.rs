//! The proxy between a sending and a receiving dealer, and how it learns that it is connected.
use vstd::prelude::*;

use crate::endpoints::ipc_file;
use crate::plans::{socket_at, SocketKind, SocketModel, SocketPlan};

verus! {

/// What a proxy is told.
#[derive(Debug, Clone)]
pub struct Args {
    pub frontend_address: String,
    pub backend_address: String,
    pub num_messages: usize,
    pub hwm: Option<i32>,
}

/// Number of the event of a socket monitor that says that a connection was accepted.
pub const ACCEPTED_EVENT: u16 = 32;

/// `raw` is the number of a single event of a socket monitor, or of all of them together.
pub open spec fn is_event_number(raw: u16) -> bool {
    ||| raw == 1 || raw == 2 || raw == 4 || raw == 8 || raw == 16
    ||| raw == 32 || raw == 64 || raw == 128 || raw == 256 || raw == 512
    ||| raw == 1024 || raw == 2048 || raw == 4096 || raw == 8192 || raw == 16384
    ||| raw == 65535
}

/// The number of the event that a frame of a socket monitor reports.
pub open spec fn event_number(frame: Seq<u8>) -> nat {
    crate::zmq_helpers::le_value(frame.take(2))
}

/// A frame is too short to report an event, or reports one that there is.
pub open spec fn is_event_frame(frame: Seq<u8>) -> bool {
    frame.len() >= 2 ==> is_event_number(event_number(frame) as u16)
}

/// A frame reports that a connection was accepted.
pub open spec fn reports_accepted(frame: Seq<u8>) -> bool {
    frame.len() >= 2 && event_number(frame) == ACCEPTED_EVENT
}

/// `zmq::SocketEvent::from_raw`, and whether the event that it gives is `ACCEPTED`: that is so of
/// one number alone. The function panics on a number that stands for no event.
#[verifier::external_body]
fn is_accepted_event(raw: u16) -> (r: bool)
    requires
        is_event_number(raw),
    ensures
        r == (raw == ACCEPTED_EVENT),
{
    zmq::SocketEvent::from_raw(raw) == zmq::SocketEvent::ACCEPTED
}

fn read_event_number(frame: &[u8]) -> (r: u16)
    requires
        frame@.len() >= 2,
    ensures
        r == event_number(frame@),
{
    proof {
        let two = frame@.take(2);
        reveal_with_fuel(crate::zmq_helpers::le_value, 3);
        assert(two.drop_first() =~= seq![frame@[1]]);
        assert(two.drop_first().drop_first() =~= Seq::empty());
    }
    frame[0] as u16 + 256 * (frame[1] as u16)
}

/// Whether a frame of a socket monitor can be understood.
pub fn event_is_known(frame: &[u8]) -> (r: bool)
    ensures
        r == is_event_frame(frame@),
{
    if frame.len() < 2 {
        return true;
    }
    let raw: u16 = read_event_number(frame);
    raw == 1 || raw == 2 || raw == 4 || raw == 8 || raw == 16 || raw == 32 || raw == 64 || raw
        == 128 || raw == 256 || raw == 512 || raw == 1024 || raw == 2048 || raw == 4096 || raw
        == 8192 || raw == 16384 || raw == 65535
}

/// How far the wait for a connection has come.
#[derive(Debug, Clone, Copy, PartialEq, Eq)]
pub enum MonitorStage {
    /// The next frame reports an event.
    ReceiveEvent,
    /// Is there another frame that belongs to the event?
    CheckMore { accepted: bool },
    /// The next frame names the endpoint of the event.
    ReceiveEndpoint { accepted: bool },
    /// A connection was accepted, and all frames of that event are read.
    Connected,
}

impl MonitorStage {
    /// After an event is read to its end.
    pub open spec fn event_read(accepted: bool) -> MonitorStage {
        if accepted {
            MonitorStage::Connected
        } else {
            MonitorStage::ReceiveEvent
        }
    }

    /// After the first frame of an event.
    pub open spec fn after_event(self, frame: Seq<u8>) -> MonitorStage {
        MonitorStage::CheckMore { accepted: reports_accepted(frame) }
    }

    /// After the answer to whether the event has another frame.
    pub open spec fn after_more(self, more: bool) -> MonitorStage {
        if more {
            MonitorStage::ReceiveEndpoint { accepted: self->CheckMore_accepted }
        } else {
            MonitorStage::event_read(self->CheckMore_accepted)
        }
    }

    /// After the frame that names the endpoint.
    pub open spec fn after_endpoint(self) -> MonitorStage {
        MonitorStage::event_read(self->ReceiveEndpoint_accepted)
    }

    /// After all frames of an event: there is a second one where `more` says so.
    pub open spec fn after_frames(self, frame: Seq<u8>, more: bool) -> MonitorStage {
        let rest = self.after_event(frame).after_more(more);
        if more {
            rest.after_endpoint()
        } else {
            rest
        }
    }

    /// Takes the first frame of an event.
    pub fn on_event(self, frame: &[u8]) -> (r: MonitorStage)
        requires
            self == MonitorStage::ReceiveEvent,
            is_event_frame(frame@),
        ensures
            r == self.after_event(frame@),
    {
        let mut accepted: bool = false;
        if frame.len() >= 2 {
            accepted = is_accepted_event(read_event_number(frame));
        }
        MonitorStage::CheckMore { accepted }
    }

    /// Takes the answer to whether the event has another frame.
    pub fn on_more(self, more: bool) -> (r: MonitorStage)
        requires
            self is CheckMore,
        ensures
            r == self.after_more(more),
    {
        match self {
            MonitorStage::CheckMore { accepted } => if more {
                MonitorStage::ReceiveEndpoint { accepted }
            } else if accepted {
                MonitorStage::Connected
            } else {
                MonitorStage::ReceiveEvent
            },
            _ => self,
        }
    }

    /// Takes the frame that names the endpoint.
    pub fn on_endpoint(self) -> (r: MonitorStage)
        requires
            self is ReceiveEndpoint,
        ensures
            r == self.after_endpoint(),
    {
        match self {
            MonitorStage::ReceiveEndpoint { accepted } => if accepted {
                MonitorStage::Connected
            } else {
                MonitorStage::ReceiveEvent
            },
            _ => self,
        }
    }
}

/// The frames of an event: the first one, and whether there is a second one.
pub struct MonitorEvent {
    pub frame: Seq<u8>,
    pub more: bool,
}

/// How far the wait for a connection has come after `events`, as far as it reads them.
pub open spec fn waited(events: Seq<MonitorEvent>) -> MonitorStage
    decreases events.len(),
{
    if events.len() == 0 {
        MonitorStage::ReceiveEvent
    } else {
        let before = waited(events.drop_last());
        if before == MonitorStage::ReceiveEvent {
            before.after_frames(events.last().frame, events.last().more)
        } else {
            before
        }
    }
}

/// The wait for a connection reads events to their end, one after the other, and is over with the
/// first that says that a connection was accepted.
pub proof fn wait_ends_with_first_accepted(events: Seq<MonitorEvent>)
    ensures
        waited(events) == if exists|i: int|
            0 <= i < events.len() && reports_accepted((#[trigger] events[i]).frame) {
            MonitorStage::Connected
        } else {
            MonitorStage::ReceiveEvent
        },
    decreases events.len(),
{
    if events.len() > 0 {
        let earlier = events.drop_last();
        wait_ends_with_first_accepted(earlier);
        if exists|i: int| 0 <= i < earlier.len() && reports_accepted((#[trigger] earlier[i]).frame) {
            let i = choose|i: int|
                0 <= i < earlier.len() && reports_accepted((#[trigger] earlier[i]).frame);
            assert(reports_accepted(events[i].frame));
        } else {
            assert forall|i: int| 0 <= i < earlier.len() implies !reports_accepted(
                (#[trigger] events[i]).frame,
            ) by {
                assert(earlier[i] == events[i]);
            }
            assert(events.last() == events[events.len() - 1]);
        }
    }
}

/// A proxy to be started.
pub struct ProxyPlan {
    pub frontend: SocketPlan,
    pub backend: SocketPlan,
    pub relay: Relay,
    /// The file to be removed at the end.
    pub remove: Option<String>,
}

/// The socket of a proxy that sending dealers come to.
pub open spec fn frontend_model(args: Args) -> SocketModel {
    SocketModel {
        kind: SocketKind::Router,
        sndhwm: args.hwm,
        rcvhwm: args.hwm,
        identity: None,
        bind: true,
        addresses: seq![args.frontend_address@],
    }
}

/// The socket of a proxy that goes to the receiving dealer.
pub open spec fn backend_model(args: Args) -> SocketModel {
    SocketModel {
        kind: SocketKind::Dealer,
        sndhwm: args.hwm,
        rcvhwm: args.hwm,
        identity: None,
        bind: false,
        addresses: seq![args.backend_address@],
    }
}

/// The proxy of `args`: the sending dealers come to its frontend, and its backend goes to the
/// receiving one.
pub fn plan(args: &Args) -> (r: ProxyPlan)
    ensures
        r.frontend@ == (SocketModel {
            kind: SocketKind::Router,
            sndhwm: args.hwm,
            rcvhwm: args.hwm,
            identity: None,
            bind: true,
            addresses: seq![args.frontend_address@],
        }),
        r.frontend@ == frontend_model(*args),
        r.backend@ == (SocketModel {
            kind: SocketKind::Dealer,
            sndhwm: args.hwm,
            rcvhwm: args.hwm,
            identity: None,
            bind: false,
            addresses: seq![args.backend_address@],
        }),
        r.backend@ == backend_model(*args),
        r.relay@ == args.num_messages,
        crate::plans::text_of(r.remove) == crate::endpoints::file_behind(args.frontend_address@),
{
    ProxyPlan {
        frontend: socket_at(
            SocketKind::Router,
            args.hwm,
            args.hwm,
            true,
            args.frontend_address.as_str(),
        ),
        backend: socket_at(
            SocketKind::Dealer,
            args.hwm,
            args.hwm,
            false,
            args.backend_address.as_str(),
        ),
        relay: Relay::new(args),
        remove: ipc_file(args.frontend_address.as_str()),
    }
}

/// The messages that a proxy has still to pass on.
pub struct Relay {
    left: usize,
}

impl View for Relay {
    type V = nat;

    closed spec fn view(&self) -> nat {
        self.left as nat
    }
}

impl Relay {
    /// A proxy that has passed nothing on yet.
    pub fn new(args: &Args) -> (r: Relay)
        ensures
            r@ == args.num_messages,
    {
        Relay { left: args.num_messages }
    }

    /// Whether there are messages left to pass on.
    pub fn pending(&self) -> (r: bool)
        ensures
            r == (self@ > 0),
    {
        self.left > 0
    }

    /// Takes a message, identity and payload, and hands back what goes to the backend: the
    /// payload alone.
    pub fn forward(&mut self, identity: Vec<u8>, payload: Vec<u8>) -> (r: Vec<u8>)
        requires
            old(self)@ > 0,
        ensures
            final(self)@ == old(self)@ - 1,
            r == payload,
    {
        self.left = self.left - 1;
        payload
    }
}

/// A frame reports that a connection was accepted exactly where its first two bytes are the number
/// of that event, lowest byte first, whatever follows them.
pub proof fn accepted_is_told_by_two_bytes(frame: Seq<u8>)
    ensures
        reports_accepted(frame) <==> frame.len() >= 2 && frame[0] == 32 && frame[1] == 0,
        frame.len() >= 2 ==> event_number(frame) == frame[0] + 256 * frame[1],
{
    if frame.len() >= 2 {
        let two = frame.take(2);
        reveal_with_fuel(crate::zmq_helpers::le_value, 3);
        assert(two.drop_first() =~= seq![frame[1]]);
        assert(two.drop_first().drop_first() =~= Seq::empty());
    }
}

/// The numbers of single events are the powers of two below the highest bit, and all bits together
/// stand for all events.
pub proof fn events_are_single_bits(raw: u16)
    ensures
        is_event_number(raw) <==> raw == 0xffff || (0 < raw < 0x8000 && raw & ((raw - 1) as u16)
            == 0),
{
    assert((raw == 1 || raw == 2 || raw == 4 || raw == 8 || raw == 16 || raw == 32 || raw == 64 || raw
        == 128 || raw == 256 || raw == 512 || raw == 1024 || raw == 2048 || raw == 4096 || raw
        == 8192 || raw == 16384) <==> (0 < raw < 0x8000 && raw & ((raw - 1) as u16) == 0))
        by (bit_vector);
}

} // verus!
