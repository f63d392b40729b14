//! What a role needs before it starts: its socket, how it behaves, and what it leaves behind.
use vstd::prelude::*;

use crate::receiver::ReceiverConfig;
use crate::sender::SenderConfig;

verus! {

/// The kinds of sockets that roles use.
#[derive(Debug, Clone, Copy, PartialEq, Eq)]
pub enum SocketKind {
    Pub,
    Sub,
    Dealer,
    Router,
}

/// A socket to be opened.
#[derive(Debug)]
pub struct SocketPlan {
    pub kind: SocketKind,
    /// High-water mark for sending, where it is to be set.
    pub sndhwm: Option<i32>,
    /// High-water mark for receiving, where it is to be set.
    pub rcvhwm: Option<i32>,
    /// The name by which a router knows the socket.
    pub identity: Option<String>,
    /// Whether the socket binds its addresses, and does not connect to them.
    pub bind: bool,
    pub addresses: Vec<String>,
}

/// A sender to be started.
#[derive(Debug)]
pub struct SenderPlan {
    pub socket: SocketPlan,
    pub payload_size: usize,
    pub config: SenderConfig,
    /// The name of the socket that the messages are for; it precedes each of them.
    pub destination: Option<String>,
    /// The file to be removed at the end.
    pub remove: Option<String>,
}

/// The names under which measurements are saved.
#[derive(Debug, Clone, Copy)]
pub struct SaveLabel {
    pub pattern: &'static str,
    pub transport: &'static str,
}

/// A receiver to be started.
#[derive(Debug)]
pub struct ReceiverPlan {
    pub socket: SocketPlan,
    pub payload_size: usize,
    pub config: ReceiverConfig,
    /// Milliseconds that the receiver waits for a message of the synchronization phase.
    pub drain_timeout_ms: Option<i32>,
    /// Milliseconds that the receiver waits for a benchmark message.
    pub collect_timeout_ms: Option<i32>,
    /// Whether the receiver waits for all others before it evaluates what it has measured.
    pub end_barrier: bool,
    /// Whether missing messages are reported.
    pub warn_short: bool,
    pub label: Option<SaveLabel>,
    /// The file to be removed at the end.
    pub remove: Option<String>,
}

/// A socket as the contracts see it.
#[verifier::ext_equal]
pub struct SocketModel {
    pub kind: SocketKind,
    pub sndhwm: Option<i32>,
    pub rcvhwm: Option<i32>,
    pub identity: Option<Seq<char>>,
    pub bind: bool,
    pub addresses: Seq<Seq<char>>,
}

/// A sender as the contracts see it.
#[verifier::ext_equal]
pub struct SenderModel {
    pub socket: SocketModel,
    pub payload_size: usize,
    pub config: SenderConfig,
    pub destination: Option<Seq<char>>,
    pub remove: Option<Seq<char>>,
}

/// A receiver as the contracts see it.
#[verifier::ext_equal]
pub struct ReceiverModel {
    pub socket: SocketModel,
    pub payload_size: usize,
    pub config: ReceiverConfig,
    pub drain_timeout_ms: Option<i32>,
    pub collect_timeout_ms: Option<i32>,
    pub end_barrier: bool,
    pub warn_short: bool,
    pub label: Option<(Seq<char>, Seq<char>)>,
    pub remove: Option<Seq<char>>,
}

/// The characters of an optional string.
pub open spec fn text_of(s: Option<String>) -> Option<Seq<char>> {
    match s {
        Some(s) => Some(s@),
        None => None,
    }
}

impl View for SocketPlan {
    type V = SocketModel;

    open spec fn view(&self) -> SocketModel {
        SocketModel {
            kind: self.kind,
            sndhwm: self.sndhwm,
            rcvhwm: self.rcvhwm,
            identity: text_of(self.identity),
            bind: self.bind,
            addresses: crate::endpoints::texts(self.addresses@),
        }
    }
}

impl View for SenderPlan {
    type V = SenderModel;

    open spec fn view(&self) -> SenderModel {
        SenderModel {
            socket: self.socket@,
            payload_size: self.payload_size,
            config: self.config,
            destination: text_of(self.destination),
            remove: text_of(self.remove),
        }
    }
}

impl View for ReceiverPlan {
    type V = ReceiverModel;

    open spec fn view(&self) -> ReceiverModel {
        ReceiverModel {
            socket: self.socket@,
            payload_size: self.payload_size,
            config: self.config,
            drain_timeout_ms: self.drain_timeout_ms,
            collect_timeout_ms: self.collect_timeout_ms,
            end_barrier: self.end_barrier,
            warn_short: self.warn_short,
            label: match self.label {
                Some(label) => Some((label.pattern@, label.transport@)),
                None => None,
            },
            remove: text_of(self.remove),
        }
    }
}

/// A socket with a single address.
pub fn socket_at(
    kind: SocketKind,
    sndhwm: Option<i32>,
    rcvhwm: Option<i32>,
    bind: bool,
    address: &str,
) -> (r: SocketPlan)
    ensures
        r@ == (SocketModel {
            kind,
            sndhwm,
            rcvhwm,
            identity: None,
            bind,
            addresses: seq![address@],
        }),
{
    let mut addresses: Vec<String> = Vec::new();
    addresses.push(address.to_owned());
    let r: SocketPlan = SocketPlan { kind, sndhwm, rcvhwm, identity: None, bind, addresses };
    assert(r@.addresses =~= seq![address@]);
    r
}

/// Copies of strings.
pub fn copied(strings: &Vec<String>) -> (r: Vec<String>)
    ensures
        crate::endpoints::texts(r@) == crate::endpoints::texts(strings@),
{
    let mut r: Vec<String> = Vec::new();
    let mut i: usize = 0;
    while i < strings.len()
        invariant
            i <= strings@.len(),
            r@.len() == i,
            forall|k: int| 0 <= k < i ==> (#[trigger] r@[k])@ == strings@[k]@,
        decreases strings@.len() - i,
    {
        r.push(strings[i].clone());
        i = i + 1;
    }
    assert(crate::endpoints::texts(r@) =~= crate::endpoints::texts(strings@));
    r
}

/// What the contracts see of a plan are its fields, and of its texts their characters.
pub proof fn plans_are_seen_as_they_are(
    socket: SocketPlan,
    sender: SenderPlan,
    receiver: ReceiverPlan,
    text: String,
)
    ensures
        text_of(Some(text)) == Some(text@),
        text_of(None) is None,
        socket@.kind == socket.kind,
        socket@.sndhwm == socket.sndhwm,
        socket@.rcvhwm == socket.rcvhwm,
        socket@.identity is Some <==> socket.identity is Some,
        socket.identity is Some ==> socket@.identity->0 == socket.identity->0@,
        socket@.bind == socket.bind,
        socket@.addresses.len() == socket.addresses@.len(),
        forall|i: int|
            0 <= i < socket.addresses@.len() ==> #[trigger] socket@.addresses[i]
                == socket.addresses@[i]@,
        sender@.socket == sender.socket@,
        sender@.payload_size == sender.payload_size,
        sender@.config == sender.config,
        sender@.destination is Some <==> sender.destination is Some,
        sender.destination is Some ==> sender@.destination->0 == sender.destination->0@,
        sender@.remove is Some <==> sender.remove is Some,
        sender.remove is Some ==> sender@.remove->0 == sender.remove->0@,
        receiver@.socket == receiver.socket@,
        receiver@.payload_size == receiver.payload_size,
        receiver@.config == receiver.config,
        receiver@.drain_timeout_ms == receiver.drain_timeout_ms,
        receiver@.collect_timeout_ms == receiver.collect_timeout_ms,
        receiver@.end_barrier == receiver.end_barrier,
        receiver@.warn_short == receiver.warn_short,
        receiver@.label is Some <==> receiver.label is Some,
        receiver.label is Some ==> (receiver@.label->0).0 == receiver.label->0.pattern@
            && (receiver@.label->0).1 == receiver.label->0.transport@,
        receiver@.remove is Some <==> receiver.remove is Some,
        receiver.remove is Some ==> receiver@.remove->0 == receiver.remove->0@,
{
}

} // verus!
