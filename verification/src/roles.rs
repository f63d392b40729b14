//! The messaging patterns of the benchmark, the roles in each of them, and who takes part.
use std::sync::atomic::AtomicU64;
use std::sync::Arc;
use vstd::prelude::*;
use vstd::string::*;

use crate::dealer_receiver;
use crate::dealer_sender;
use crate::dealerrouter_dealer;
use crate::dealerrouter_router;
use crate::dealerrouter_router::RouterPlan;
use crate::endpoints::{dealer_address, ipc_file, publisher_address, router_address};
use crate::plans::{
    socket_at, ReceiverModel, ReceiverPlan, SenderModel, SenderPlan, SocketKind, SocketModel,
};
use crate::receiver::ReceiverConfig;
use crate::router::router_hwm;
use crate::sender::SenderConfig;
use crate::subscriber;
use crate::text::append_decimal;
use crate::zmq_helpers::hwm;

verus! {

/// When the synchronization phase of a run started and ended, over all senders.
pub struct SyncPhase {
    /// Earliest clock reading of a hello.
    pub first_hello_tsc: Arc<AtomicU64>,
    /// Latest clock reading of the start of benchmark messages.
    pub last_bench_start_tsc: Arc<AtomicU64>,
}

/// The two clock readings of a run, as a sender holds them.
#[derive(Clone)]
pub struct SyncHandles {
    pub first: Arc<AtomicU64>,
    pub last: Arc<AtomicU64>,
}

impl SyncHandles {
    /// Handles on the clock readings of `sync` themselves, not on copies of them.
    pub fn from_sync(sync: &SyncPhase) -> (r: Self)
        ensures
            r.first == sync.first_hello_tsc,
            r.last == sync.last_bench_start_tsc,
    {
        SyncHandles {
            first: sync.first_hello_tsc.clone(),
            last: sync.last_bench_start_tsc.clone(),
        }
    }
}

/// A messaging pattern, with the number of those who take part in it.
#[derive(Clone, Copy, Debug, PartialEq, Eq)]
pub enum Pattern {
    /// Publishers, each with subscribers of its own.
    PubSub { num_senders: usize, num_receivers_per_sender: usize },
    /// Pairs of dealers.
    Dealer { num_pairs: usize },
    /// A ring of dealers around a router.
    DealerRouter { num_dealers: usize },
}

impl Pattern {
    /// The name of the pattern in the results.
    pub open spec fn text_name(self) -> Seq<char> {
        match self {
            Pattern::PubSub { .. } => "PubSub"@,
            Pattern::Dealer { .. } => "Dealer"@,
            Pattern::DealerRouter { .. } => "DealerRouter"@,
        }
    }

    /// What one of several receivers is called, or nothing where they are not reported singly.
    pub open spec fn text_item_label(self) -> Seq<char> {
        match self {
            Pattern::PubSub { .. } => "pubsub-receiver"@,
            Pattern::Dealer { .. } => ""@,
            Pattern::DealerRouter { .. } => "dealerrouter-dealer"@,
        }
    }

    /// What is said when a run starts.
    pub open spec fn text_start_message(self) -> Seq<char> {
        match self {
            Pattern::PubSub { num_senders, num_receivers_per_sender } => {
                "Starting benchmark with "@ + crate::text::decimal(num_senders as nat)
                    + " senders and "@ + crate::text::decimal(num_receivers_per_sender as nat)
                    + " receivers per sender"@
            },
            Pattern::Dealer { num_pairs } => {
                "Starting dealer benchmark with "@ + crate::text::decimal(num_pairs as nat)
                    + " pairs"@
            },
            Pattern::DealerRouter { num_dealers } => {
                "Starting dealer-router benchmark with "@ + crate::text::decimal(
                    num_dealers as nat,
                ) + " dealers"@
            },
        }
    }

    /// The tasks of a run: its senders, its receivers and its router.
    pub open spec fn task_count(self) -> nat {
        match self {
            Pattern::PubSub { num_senders, num_receivers_per_sender } => num_senders as nat * (1
                + num_receivers_per_sender as nat),
            Pattern::Dealer { num_pairs } => num_pairs as nat * 2,
            Pattern::DealerRouter { num_dealers } => num_dealers as nat * 2 + 1,
        }
    }

    /// The name of the pattern in the results.
    pub fn name(&self) -> (r: &'static str)
        ensures
            r@ == self.text_name(),
    {
        match self {
            Pattern::PubSub { .. } => "PubSub",
            Pattern::Dealer { .. } => "Dealer",
            Pattern::DealerRouter { .. } => "DealerRouter",
        }
    }

    /// What one of several receivers is called, or nothing where they are not reported singly.
    pub fn per_item_label(&self) -> (r: &'static str)
        ensures
            r@ == self.text_item_label(),
    {
        match self {
            Pattern::PubSub { .. } => "pubsub-receiver",
            Pattern::DealerRouter { .. } => "dealerrouter-dealer",
            Pattern::Dealer { .. } => "",
        }
    }

    /// What is said when a run starts.
    pub fn start_message(&self) -> (r: String)
        ensures
            r@ == self.text_start_message(),
    {
        match self {
            Pattern::PubSub { num_senders, num_receivers_per_sender } => {
                let mut r: String = "Starting benchmark with ".to_owned();
                append_decimal(&mut r, *num_senders as u64);
                r.append(" senders and ");
                append_decimal(&mut r, *num_receivers_per_sender as u64);
                r.append(" receivers per sender");
                r
            },
            Pattern::Dealer { num_pairs } => {
                let mut r: String = "Starting dealer benchmark with ".to_owned();
                append_decimal(&mut r, *num_pairs as u64);
                r.append(" pairs");
                r
            },
            Pattern::DealerRouter { num_dealers } => {
                let mut r: String = "Starting dealer-router benchmark with ".to_owned();
                append_decimal(&mut r, *num_dealers as u64);
                r.append(" dealers");
                r
            },
        }
    }

    /// Whether the tasks of a run can be counted.
    pub fn is_countable(&self) -> (r: bool)
        ensures
            r == (self.task_count() <= usize::MAX && (self is PubSub
                ==> self->num_receivers_per_sender < usize::MAX)),
    {
        match self {
            Pattern::PubSub { num_senders, num_receivers_per_sender } => {
                *num_receivers_per_sender < usize::MAX && num_senders.checked_mul(
                    1 + *num_receivers_per_sender,
                ).is_some()
            },
            Pattern::Dealer { num_pairs } => num_pairs.checked_mul(2).is_some(),
            Pattern::DealerRouter { num_dealers } => *num_dealers <= (usize::MAX - 1) / 2,
        }
    }

    /// The tasks of a run: its senders, its receivers and its router.
    pub fn total_tasks(&self) -> (r: usize)
        requires
            self.task_count() <= usize::MAX,
            self is PubSub ==> self->num_receivers_per_sender < usize::MAX,
        ensures
            r == self.task_count(),
    {
        match self {
            Pattern::PubSub { num_senders, num_receivers_per_sender } => *num_senders * (1
                + *num_receivers_per_sender),
            Pattern::Dealer { num_pairs } => *num_pairs * 2,
            Pattern::DealerRouter { num_dealers } => *num_dealers * 2 + 1,
        }
    }
}

/// Milliseconds that a receiver waits for a message of the synchronization phase. That phase does
/// not depend on the number or the size of the benchmark messages.
pub const HELLO_DRAIN_RCVTIMEO_MS: i32 = 2000;

/// Seconds within which all receivers have to be heard of.
pub const COORDINATOR_TIMEOUT_SECS: u64 = 1;

/// A sender that greets until it is told to stop, and whose times are recorded.
pub open spec fn coordinated_sender(
    num_messages: usize,
    replies: bool,
    phase_flag: bool,
    release: bool,
) -> SenderConfig {
    SenderConfig {
        num_messages,
        handshake: true,
        replies,
        phase_flag,
        records_hello: true,
        records_start: true,
        release,
        pacing: None,
    }
}

/// A receiver that drains the synchronization phase and keeps what it has measured when no more
/// comes.
pub open spec fn coordinated_receiver(
    num_messages: usize,
    replies: bool,
    hello_ack: bool,
    begin_ack: bool,
) -> ReceiverConfig {
    ReceiverConfig {
        num_messages,
        drain: true,
        replies,
        hello_ack,
        begin_ack,
        drain_failure_ends_drain: false,
        collect_failure_ends_collection: true,
    }
}

/// The mark of a queue for `num_messages` benchmark messages.
pub open spec fn mark(num_messages: usize) -> Option<i32> {
    Some((num_messages + crate::zmq_helpers::HWM_HEADROOM) as i32)
}

/// A publisher as the contracts see it.
pub open spec fn publisher_model(
    payload_size: usize,
    num_messages: usize,
    address: Seq<char>,
    bench_phase: bool,
    reals_start: bool,
) -> SenderModel {
    SenderModel {
        socket: SocketModel {
            kind: SocketKind::Pub,
            sndhwm: mark(num_messages),
            rcvhwm: None,
            identity: None,
            bind: true,
            addresses: seq![address],
        },
        payload_size,
        config: coordinated_sender(num_messages, false, bench_phase, reals_start),
        destination: None,
        remove: crate::endpoints::file_behind(address),
    }
}

/// A publisher. The flags say whether something tells it to stop greeting, and whether it is
/// released before the benchmark messages.
pub fn publisher_plan(
    payload_size: usize,
    num_messages: usize,
    address: &str,
    bench_phase: bool,
    reals_start: bool,
) -> (r: SenderPlan)
    requires
        num_messages + crate::zmq_helpers::HWM_HEADROOM <= usize::MAX,
    ensures
        r@ == (SenderModel {
            socket: SocketModel {
                kind: SocketKind::Pub,
                sndhwm: mark(num_messages),
                rcvhwm: None,
                identity: None,
                bind: true,
                addresses: seq![address@],
            },
            payload_size,
            config: coordinated_sender(num_messages, false, bench_phase, reals_start),
            destination: None,
            remove: crate::endpoints::file_behind(address@),
        }),
        r@ == publisher_model(payload_size, num_messages, address@, bench_phase, reals_start),
        r.config.valid_for(r.payload_size as nat) <==> r.payload_size
            >= crate::zmq_helpers::header_len(),
{
    SenderPlan {
        socket: socket_at(SocketKind::Pub, Some(hwm(num_messages)), None, true, address),
        payload_size,
        config: SenderConfig {
            num_messages,
            handshake: true,
            replies: false,
            phase_flag: bench_phase,
            records_hello: true,
            records_start: true,
            release: reals_start,
            pacing: None,
        },
        destination: None,
        remove: ipc_file(address),
    }
}

/// A subscriber as the contracts see it.
pub open spec fn subscriber_model(
    addresses: Seq<Seq<char>>,
    num_messages: usize,
    payload_size: usize,
    hello_ack: bool,
    begin_ack: bool,
    hot_timeout_ms: i32,
) -> ReceiverModel {
    ReceiverModel {
        socket: SocketModel {
            kind: SocketKind::Sub,
            sndhwm: None,
            rcvhwm: mark(num_messages),
            identity: None,
            bind: false,
            addresses,
        },
        payload_size,
        config: coordinated_receiver(num_messages, false, hello_ack, begin_ack),
        drain_timeout_ms: Some(HELLO_DRAIN_RCVTIMEO_MS),
        collect_timeout_ms: Some(hot_timeout_ms),
        end_barrier: false,
        warn_short: true,
        label: Some(
            (
                "PubSub"@,
                subscriber::first_transport_name(addresses),
            ),
        ),
        remove: None,
    }
}

/// A subscriber that waits `hot_timeout_ms` for a benchmark message. The flags say whether
/// somebody waits to hear of the first hello, and whether somebody waits to hear of the begin
/// marker.
pub fn subscriber_plan(
    addresses: Vec<String>,
    num_messages: usize,
    payload_size: usize,
    hello_ack: bool,
    begin_ack: bool,
    hot_timeout_ms: i32,
) -> (r: ReceiverPlan)
    requires
        num_messages + crate::zmq_helpers::HWM_HEADROOM <= usize::MAX,
    ensures
        r@ == (ReceiverModel {
            socket: SocketModel {
                kind: SocketKind::Sub,
                sndhwm: None,
                rcvhwm: mark(num_messages),
                identity: None,
                bind: false,
                addresses: crate::endpoints::texts(addresses@),
            },
            payload_size,
            config: coordinated_receiver(num_messages, false, hello_ack, begin_ack),
            drain_timeout_ms: Some(HELLO_DRAIN_RCVTIMEO_MS),
            collect_timeout_ms: Some(hot_timeout_ms),
            end_barrier: false,
            warn_short: true,
            label: Some(
                (
                    "PubSub"@,
                    subscriber::first_transport_name(crate::endpoints::texts(addresses@)),
                ),
            ),
            remove: None,
        }),
        r@ == subscriber_model(
            crate::endpoints::texts(addresses@),
            num_messages,
            payload_size,
            hello_ack,
            begin_ack,
            hot_timeout_ms,
        ),
{
    let args: subscriber::Args = subscriber::Args { addresses, num_messages, payload_size };
    let mut r: ReceiverPlan = subscriber::plan(&args, hello_ack, begin_ack);
    r.config.drain_failure_ends_drain = false;
    r.drain_timeout_ms = Some(HELLO_DRAIN_RCVTIMEO_MS);
    r.collect_timeout_ms = Some(hot_timeout_ms);
    r
}

/// The sending dealer of a pair as the contracts see it.
pub open spec fn sender_model(
    payload_size: usize,
    num_messages: usize,
    receiver_address: Seq<char>,
    bench_phase: bool,
) -> SenderModel {
    SenderModel {
        socket: SocketModel {
            kind: SocketKind::Dealer,
            sndhwm: mark(num_messages),
            rcvhwm: mark(num_messages),
            identity: None,
            bind: false,
            addresses: seq![receiver_address],
        },
        payload_size,
        config: coordinated_sender(num_messages, true, bench_phase, false),
        destination: None,
        remove: None,
    }
}

/// The sending dealer of a pair; the flag says whether something tells it to stop greeting.
pub fn sender_plan(
    payload_size: usize,
    num_messages: usize,
    receiver_address: &str,
    bench_phase: bool,
) -> (r: SenderPlan)
    requires
        num_messages + crate::zmq_helpers::HWM_HEADROOM <= usize::MAX,
    ensures
        r@ == (SenderModel {
            socket: SocketModel {
                kind: SocketKind::Dealer,
                sndhwm: mark(num_messages),
                rcvhwm: mark(num_messages),
                identity: None,
                bind: false,
                addresses: seq![receiver_address@],
            },
            payload_size,
            config: coordinated_sender(num_messages, true, bench_phase, false),
            destination: None,
            remove: None,
        }),
        r@ == sender_model(payload_size, num_messages, receiver_address@, bench_phase),
        r.config.valid_for(r.payload_size as nat) <==> r.payload_size
            >= crate::zmq_helpers::header_len(),
{
    let args: dealer_sender::Args = dealer_sender::Args {
        payload_size,
        num_messages,
        receiver_address: receiver_address.to_owned(),
    };
    dealer_sender::plan(&args, bench_phase, true, true)
}

/// The receiving dealer of a pair as the contracts see it.
pub open spec fn receiver_model(
    payload_size: usize,
    num_messages: usize,
    bind_address: Seq<char>,
    hello_ack: bool,
    hot_timeout_ms: i32,
) -> ReceiverModel {
    ReceiverModel {
        socket: SocketModel {
            kind: SocketKind::Dealer,
            sndhwm: mark(num_messages),
            rcvhwm: mark(num_messages),
            identity: None,
            bind: true,
            addresses: seq![bind_address],
        },
        payload_size,
        config: coordinated_receiver(num_messages, true, hello_ack, false),
        drain_timeout_ms: Some(HELLO_DRAIN_RCVTIMEO_MS),
        collect_timeout_ms: Some(hot_timeout_ms),
        end_barrier: false,
        warn_short: true,
        label: Some(("Dealer"@, crate::endpoints::transport_name(bind_address))),
        remove: crate::endpoints::file_behind(bind_address),
    }
}

/// The receiving dealer of a pair, which waits `hot_timeout_ms` for a benchmark message; the flag
/// says whether somebody waits to hear of the first hello.
pub fn receiver_plan(
    payload_size: usize,
    num_messages: usize,
    bind_address: &str,
    hello_ack: bool,
    hot_timeout_ms: i32,
) -> (r: ReceiverPlan)
    requires
        num_messages + crate::zmq_helpers::HWM_HEADROOM <= usize::MAX,
    ensures
        r@ == (ReceiverModel {
            socket: SocketModel {
                kind: SocketKind::Dealer,
                sndhwm: mark(num_messages),
                rcvhwm: mark(num_messages),
                identity: None,
                bind: true,
                addresses: seq![bind_address@],
            },
            payload_size,
            config: coordinated_receiver(num_messages, true, hello_ack, false),
            drain_timeout_ms: Some(HELLO_DRAIN_RCVTIMEO_MS),
            collect_timeout_ms: Some(hot_timeout_ms),
            end_barrier: false,
            warn_short: true,
            label: Some(("Dealer"@, crate::endpoints::transport_name(bind_address@))),
            remove: crate::endpoints::file_behind(bind_address@),
        }),
        r@ == receiver_model(
            payload_size,
            num_messages,
            bind_address@,
            hello_ack,
            hot_timeout_ms,
        ),
{
    let args: dealer_receiver::Args = dealer_receiver::Args {
        payload_size,
        num_messages,
        bind_address: bind_address.to_owned(),
    };
    let mut r: ReceiverPlan = dealer_receiver::plan(&args, hello_ack);
    r.config.collect_failure_ends_collection = true;
    r.drain_timeout_ms = Some(HELLO_DRAIN_RCVTIMEO_MS);
    r.collect_timeout_ms = Some(hot_timeout_ms);
    r.warn_short = true;
    r
}

/// The receiving side of a dealer around the router as the contracts see it.
pub open spec fn dealer_receiver_model(
    args: dealerrouter_dealer::Args,
    hot_timeout_ms: i32,
) -> ReceiverModel {
    ReceiverModel {
        socket: SocketModel {
            kind: SocketKind::Dealer,
            sndhwm: None,
            rcvhwm: mark(args.num_messages),
            identity: Some(
                dealerrouter_dealer::socket_identity(
                    dealerrouter_dealer::receiver_number(args.dealer_id as nat),
                ),
            ),
            bind: false,
            addresses: seq![args.router_address@],
        },
        payload_size: args.payload_size,
        config: coordinated_receiver(args.num_messages, false, true, false),
        drain_timeout_ms: Some(HELLO_DRAIN_RCVTIMEO_MS),
        collect_timeout_ms: Some(hot_timeout_ms),
        end_barrier: true,
        warn_short: false,
        label: Some(
            ("DealerRouter"@, crate::endpoints::transport_name(args.router_address@)),
        ),
        remove: None,
    }
}

/// The sending side of a dealer around the router as the contracts see it.
pub open spec fn dealer_sender_model(
    args: dealerrouter_dealer::Args,
    bench_phase: bool,
) -> SenderModel {
    SenderModel {
        socket: SocketModel {
            kind: SocketKind::Dealer,
            sndhwm: mark(args.num_messages),
            rcvhwm: None,
            identity: Some(
                dealerrouter_dealer::socket_identity(
                    dealerrouter_dealer::sender_number(args.dealer_id as nat),
                ),
            ),
            bind: false,
            addresses: seq![args.router_address@],
        },
        payload_size: args.payload_size,
        config: coordinated_sender(args.num_messages, false, bench_phase, false),
        destination: Some(
            dealerrouter_dealer::target_identity(
                args.dealer_id as nat,
                args.num_dealers as nat,
            ),
        ),
        remove: None,
    }
}

/// Both sides of a dealer around the router. The receiving side waits `hot_timeout_ms` for a
/// benchmark message; the flag says whether something tells the sending side to stop greeting.
pub fn dealer_plans(
    args: &dealerrouter_dealer::Args,
    bench_phase: bool,
    hot_timeout_ms: i32,
) -> (r: (ReceiverPlan, SenderPlan))
    requires
        dealerrouter_dealer::in_range(args.dealer_id, args.num_dealers),
        args.num_messages + crate::zmq_helpers::HWM_HEADROOM <= usize::MAX,
    ensures
        r.0@ == (ReceiverModel {
            socket: SocketModel {
                kind: SocketKind::Dealer,
                sndhwm: None,
                rcvhwm: mark(args.num_messages),
                identity: Some(
                    dealerrouter_dealer::socket_identity(
                        dealerrouter_dealer::receiver_number(args.dealer_id as nat),
                    ),
                ),
                bind: false,
                addresses: seq![args.router_address@],
            },
            payload_size: args.payload_size,
            config: coordinated_receiver(args.num_messages, false, true, false),
            drain_timeout_ms: Some(HELLO_DRAIN_RCVTIMEO_MS),
            collect_timeout_ms: Some(hot_timeout_ms),
            end_barrier: true,
            warn_short: false,
            label: Some(
                ("DealerRouter"@, crate::endpoints::transport_name(args.router_address@)),
            ),
            remove: None,
        }),
        r.0@ == dealer_receiver_model(*args, hot_timeout_ms),
        r.1@ == (SenderModel {
            socket: SocketModel {
                kind: SocketKind::Dealer,
                sndhwm: mark(args.num_messages),
                rcvhwm: None,
                identity: Some(
                    dealerrouter_dealer::socket_identity(
                        dealerrouter_dealer::sender_number(args.dealer_id as nat),
                    ),
                ),
                bind: false,
                addresses: seq![args.router_address@],
            },
            payload_size: args.payload_size,
            config: coordinated_sender(args.num_messages, false, bench_phase, false),
            destination: Some(
                dealerrouter_dealer::target_identity(
                    args.dealer_id as nat,
                    args.num_dealers as nat,
                ),
            ),
            remove: None,
        }),
        r.1@ == dealer_sender_model(*args, bench_phase),
        r.1.config.valid_for(r.1.payload_size as nat) <==> r.1.payload_size
            >= crate::zmq_helpers::header_len(),
{
    let mut receiver: ReceiverPlan = dealerrouter_dealer::receiver_plan(args);
    receiver.config.collect_failure_ends_collection = true;
    receiver.drain_timeout_ms = Some(HELLO_DRAIN_RCVTIMEO_MS);
    receiver.collect_timeout_ms = Some(hot_timeout_ms);
    let sender: SenderPlan = dealerrouter_dealer::sender_plan(args, bench_phase, true, true);
    (receiver, sender)
}

/// The router of a ring of dealers.
pub fn router_plan(bind_address: &str, num_dealers: usize, num_messages_per_dealer: usize) -> (r:
    RouterPlan)
    requires
        num_dealers * num_messages_per_dealer + crate::zmq_helpers::HWM_HEADROOM <= usize::MAX,
    ensures
        r.socket@ == dealerrouter_router::router_socket(
            bind_address@,
            (num_dealers * num_messages_per_dealer + crate::zmq_helpers::HWM_HEADROOM) as i32,
        ),
        r.router@.wf(),
        r.router@ == crate::router::router_for(num_dealers as nat, num_messages_per_dealer as nat),
        crate::plans::text_of(r.remove) == crate::endpoints::file_behind(bind_address@),
{
    let args: dealerrouter_router::Args = dealerrouter_router::Args {
        bind_address: bind_address.to_owned(),
        num_dealers,
        num_messages_per_dealer,
        hwm: router_hwm(num_dealers, num_messages_per_dealer),
    };
    dealerrouter_router::plan(&args)
}

/// A publisher with its subscribers.
#[derive(Debug)]
pub struct PublisherGroup {
    /// Where the publisher and its subscribers meet.
    pub address: String,
    /// How many subscribers there are.
    pub receivers: usize,
}

/// Who takes part in a publish-subscribe run.
pub fn launch_pubsub(num_senders: usize, num_receivers_per_sender: usize, transport: &str) -> (r:
    Vec<PublisherGroup>)
    requires
        transport@ != "ipc"@ ==> crate::endpoints::PUBLISHER_PORT + num_senders <= usize::MAX + 1,
    ensures
        r@.len() == num_senders,
        forall|i: int|
            0 <= i < num_senders ==> (#[trigger] r@[i]).address@
                == crate::endpoints::publisher_endpoint(transport@, i as nat) && r@[i].receivers
                == num_receivers_per_sender,
{
    let mut r: Vec<PublisherGroup> = Vec::new();
    let mut id: usize = 0;
    while id < num_senders
        invariant
            id <= num_senders,
            transport@ != "ipc"@ ==> crate::endpoints::PUBLISHER_PORT + num_senders <= usize::MAX + 1,
            r@.len() == id,
            forall|i: int|
                0 <= i < id ==> (#[trigger] r@[i]).address@
                    == crate::endpoints::publisher_endpoint(transport@, i as nat) && r@[i].receivers
                    == num_receivers_per_sender,
        decreases num_senders - id,
    {
        r.push(
            PublisherGroup {
                address: publisher_address(transport, id),
                receivers: num_receivers_per_sender,
            },
        );
        id = id + 1;
    }
    r
}

/// Where the pairs of a dealer run meet.
pub fn launch_dealer(num_pairs: usize, transport: &str) -> (r: Vec<String>)
    requires
        transport@ != "ipc"@ ==> crate::endpoints::DEALER_PORT + num_pairs <= usize::MAX + 1,
    ensures
        r@.len() == num_pairs,
        forall|i: int|
            0 <= i < num_pairs ==> (#[trigger] r@[i])@ == crate::endpoints::dealer_endpoint(
                transport@,
                i as nat,
            ),
{
    let mut r: Vec<String> = Vec::new();
    let mut id: usize = 0;
    while id < num_pairs
        invariant
            id <= num_pairs,
            transport@ != "ipc"@ ==> crate::endpoints::DEALER_PORT + num_pairs <= usize::MAX + 1,
            r@.len() == id,
            forall|i: int|
                0 <= i < id ==> (#[trigger] r@[i])@ == crate::endpoints::dealer_endpoint(
                    transport@,
                    i as nat,
                ),
        decreases num_pairs - id,
    {
        r.push(dealer_address(transport, id));
        id = id + 1;
    }
    r
}

/// Who takes part in a run around a router.
#[derive(Debug)]
pub struct DealerRing {
    /// Where the router is.
    pub router_address: String,
    /// Who waits for all others at the end: the dealers and the router.
    pub barrier_parties: usize,
    /// What each dealer is told.
    pub dealers: Vec<dealerrouter_dealer::Args>,
}

/// Who takes part in a run around a router.
pub fn launch_dealerrouter(
    num_dealers: usize,
    transport: &str,
    payload_size: usize,
    num_messages: usize,
) -> (r: DealerRing)
    requires
        num_dealers < usize::MAX,
    ensures
        r.router_address@ == crate::endpoints::router_endpoint(transport@),
        r.barrier_parties == num_dealers + 1,
        r.dealers@.len() == num_dealers,
        forall|i: int|
            0 <= i < num_dealers ==> {
                let dealer = #[trigger] r.dealers@[i];
                &&& dealer.payload_size == payload_size
                &&& dealer.num_messages == num_messages
                &&& dealer.router_address@ == crate::endpoints::router_endpoint(transport@)
                &&& dealer.dealer_id == i
                &&& dealer.num_dealers == num_dealers
            },
{
    let router: String = router_address(transport);
    let mut dealers: Vec<dealerrouter_dealer::Args> = Vec::new();
    let mut id: usize = 0;
    while id < num_dealers
        invariant
            id <= num_dealers,
            router@ == crate::endpoints::router_endpoint(transport@),
            dealers@.len() == id,
            forall|i: int|
                0 <= i < id ==> {
                    let dealer = #[trigger] dealers@[i];
                    &&& dealer.payload_size == payload_size
                    &&& dealer.num_messages == num_messages
                    &&& dealer.router_address@ == crate::endpoints::router_endpoint(transport@)
                    &&& dealer.dealer_id == i
                    &&& dealer.num_dealers == num_dealers
                },
        decreases num_dealers - id,
    {
        dealers.push(
            dealerrouter_dealer::Args {
                payload_size,
                num_messages,
                router_address: router.clone(),
                dealer_id: id,
                num_dealers,
            },
        );
        id = id + 1;
    }
    DealerRing { router_address: router, barrier_parties: num_dealers + 1, dealers }
}

/// What a coordinator waits to hear of.
#[derive(Debug, Clone, Copy, PartialEq, Eq)]
pub enum Awaited {
    /// The first hello of a receiver.
    Hello,
    /// The begin marker of a receiver.
    Begin,
}

/// What happens when a coordinator has heard of everybody.
#[derive(Debug, Clone, Copy, PartialEq, Eq)]
pub enum Released {
    /// The senders from number `first` on, so many of them, are told to stop greeting.
    Greeting { first: usize, count: usize },
    /// The benchmark messages of a sender may start.
    Messages { sender: usize },
}

/// A coordinator to be started.
#[derive(Debug, Clone, Copy, PartialEq, Eq)]
pub struct CoordinatorPlan {
    /// Whose receivers it waits for: those of this publisher, of this pair, or of the only ring.
    pub group: usize,
    pub awaited: Awaited,
    /// How many receivers it waits for.
    pub parties: usize,
    pub released: Released,
}

impl CoordinatorPlan {
    /// The coordinator tells a sender to stop greeting.
    pub open spec fn ends_greeting_of(self, sender: int) -> bool {
        self.released matches Released::Greeting { first, count } && first <= sender < first + count
    }

    /// The coordinator lets the benchmark messages of a sender start.
    pub open spec fn releases_messages_of(self, sender: int) -> bool {
        self.released matches Released::Messages { sender: released } && released == sender
    }
}

/// The coordinator that tells a publisher to stop greeting: all its subscribers have heard it.
pub open spec fn publisher_greeting(sender: usize, receivers: usize) -> CoordinatorPlan {
    CoordinatorPlan {
        group: sender,
        awaited: Awaited::Hello,
        parties: receivers,
        released: Released::Greeting { first: sender, count: 1 },
    }
}

/// The coordinator that releases a publisher: all its subscribers have begun.
pub open spec fn publisher_release(sender: usize, receivers: usize) -> CoordinatorPlan {
    CoordinatorPlan {
        group: sender,
        awaited: Awaited::Begin,
        parties: receivers,
        released: Released::Messages { sender },
    }
}

/// The coordinator that tells the sending dealer of a pair to stop greeting.
pub open spec fn pair_greeting(pair: usize) -> CoordinatorPlan {
    CoordinatorPlan {
        group: pair,
        awaited: Awaited::Hello,
        parties: 1,
        released: Released::Greeting { first: pair, count: 1 },
    }
}

/// The coordinator that tells all dealers of a ring to stop greeting.
pub open spec fn ring_greeting(num_dealers: usize) -> CoordinatorPlan {
    CoordinatorPlan {
        group: 0,
        awaited: Awaited::Hello,
        parties: num_dealers,
        released: Released::Greeting { first: 0, count: num_dealers },
    }
}

impl Pattern {
    /// The senders of a run.
    pub open spec fn sender_count(self) -> nat {
        match self {
            Pattern::PubSub { num_senders, .. } => num_senders as nat,
            Pattern::Dealer { num_pairs } => num_pairs as nat,
            Pattern::DealerRouter { num_dealers } => num_dealers as nat,
        }
    }

    /// The group that a sender belongs to.
    pub open spec fn group_of(self, sender: int) -> int {
        match self {
            Pattern::DealerRouter { .. } => 0,
            _ => sender,
        }
    }

    /// The receivers of each group.
    pub open spec fn group_size(self) -> nat {
        match self {
            Pattern::PubSub { num_receivers_per_sender, .. } => num_receivers_per_sender as nat,
            Pattern::Dealer { .. } => 1,
            Pattern::DealerRouter { num_dealers } => num_dealers as nat,
        }
    }

    /// The coordinators of a run: two for each publisher, one for each pair, one for a ring.
    pub open spec fn coordinator_plans(self) -> Seq<CoordinatorPlan> {
        match self {
            Pattern::PubSub { num_senders, num_receivers_per_sender } => Seq::new(
                2 * num_senders as nat,
                |i: int|
                    if i % 2 == 0 {
                        publisher_greeting((i / 2) as usize, num_receivers_per_sender)
                    } else {
                        publisher_release((i / 2) as usize, num_receivers_per_sender)
                    },
            ),
            Pattern::Dealer { num_pairs } => Seq::new(
                num_pairs as nat,
                |i: int| pair_greeting(i as usize),
            ),
            Pattern::DealerRouter { num_dealers } => seq![ring_greeting(num_dealers)],
        }
    }

    /// The coordinators of a run.
    pub fn coordinators(&self) -> (r: Vec<CoordinatorPlan>)
        ensures
            r@ == self.coordinator_plans(),
    {
        let mut r: Vec<CoordinatorPlan> = Vec::new();
        match self {
            Pattern::PubSub { num_senders, num_receivers_per_sender } => {
                let receivers: usize = *num_receivers_per_sender;
                let mut id: usize = 0;
                while id < *num_senders
                    invariant
                        id <= *num_senders,
                        r@ == self.coordinator_plans().take(2 * id),
                        self.coordinator_plans().len() == 2 * *num_senders,
                        *self == (Pattern::PubSub {
                            num_senders: *num_senders,
                            num_receivers_per_sender: receivers,
                        }),
                    decreases *num_senders - id,
                {
                    let ghost before = r@;
                    r.push(
                        CoordinatorPlan {
                            group: id,
                            awaited: Awaited::Hello,
                            parties: receivers,
                            released: Released::Greeting { first: id, count: 1 },
                        },
                    );
                    r.push(
                        CoordinatorPlan {
                            group: id,
                            awaited: Awaited::Begin,
                            parties: receivers,
                            released: Released::Messages { sender: id },
                        },
                    );
                    assert(self.coordinator_plans()[2 * id] == publisher_greeting(id, receivers));
                    assert(self.coordinator_plans()[2 * id + 1] == publisher_release(id, receivers));
                    assert(r@ =~= self.coordinator_plans().take(2 * id + 2));
                    id = id + 1;
                }
                assert(r@ =~= self.coordinator_plans());
            },
            Pattern::Dealer { num_pairs } => {
                let mut id: usize = 0;
                while id < *num_pairs
                    invariant
                        id <= *num_pairs,
                        r@.len() == id,
                        forall|i: int| 0 <= i < id ==> #[trigger] r@[i] == pair_greeting(i as usize),
                    decreases *num_pairs - id,
                {
                    r.push(
                        CoordinatorPlan {
                            group: id,
                            awaited: Awaited::Hello,
                            parties: 1,
                            released: Released::Greeting { first: id, count: 1 },
                        },
                    );
                    id = id + 1;
                }
                assert(r@ =~= self.coordinator_plans());
            },
            Pattern::DealerRouter { num_dealers } => {
                r.push(
                    CoordinatorPlan {
                        group: 0,
                        awaited: Awaited::Hello,
                        parties: *num_dealers,
                        released: Released::Greeting { first: 0, count: *num_dealers },
                    },
                );
                assert(r@ =~= self.coordinator_plans());
            },
        }
        r
    }
}

/// Coordinator `c` tells a sender to stop greeting, and no other does.
pub open spec fn alone_ends_greeting(plans: Seq<CoordinatorPlan>, c: int, sender: int) -> bool {
    &&& 0 <= c < plans.len()
    &&& plans[c].ends_greeting_of(sender)
    &&& forall|d: int|
        0 <= d < plans.len() && (#[trigger] plans[d]).ends_greeting_of(sender) ==> d == c
}

/// Coordinator `c` lets the benchmark messages of a sender start, and no other does.
pub open spec fn alone_releases_messages(plans: Seq<CoordinatorPlan>, c: int, sender: int) -> bool {
    &&& 0 <= c < plans.len()
    &&& plans[c].releases_messages_of(sender)
    &&& forall|d: int|
        0 <= d < plans.len() && (#[trigger] plans[d]).releases_messages_of(sender) ==> d == c
}

/// Every sender is told to stop greeting by exactly one coordinator, and by one that waits for a
/// hello at each receiver of the sender's group.
pub proof fn every_greeting_is_ended_once(pattern: Pattern, sender: int)
    requires
        0 <= sender < pattern.sender_count(),
    ensures
        exists|c: int| #[trigger] alone_ends_greeting(pattern.coordinator_plans(), c, sender) && {
            &&& pattern.coordinator_plans()[c].awaited == Awaited::Hello
            &&& pattern.coordinator_plans()[c].group == pattern.group_of(sender)
            &&& pattern.coordinator_plans()[c].parties == pattern.group_size()
        },
{
    let plans = pattern.coordinator_plans();
    match pattern {
        Pattern::PubSub { .. } => {
            assert forall|d: int|
                0 <= d < plans.len() && (#[trigger] plans[d]).ends_greeting_of(sender) implies d == 2
                * sender by {
                assert(d == 2 * (d / 2) + d % 2);
            }
            assert(alone_ends_greeting(plans, 2 * sender, sender));
        },
        Pattern::Dealer { .. } => {
            assert(alone_ends_greeting(plans, sender, sender));
        },
        Pattern::DealerRouter { .. } => {
            assert(alone_ends_greeting(plans, 0, sender));
        },
    }
}

/// The benchmark messages of every publisher are released by exactly one coordinator, and by one
/// that waits for the begin marker at each of its subscribers; the senders of the other patterns
/// are not held back by any.
pub proof fn every_publisher_is_released_once(pattern: Pattern, sender: int)
    requires
        0 <= sender < pattern.sender_count(),
    ensures
        pattern is PubSub ==> exists|c: int|
            #[trigger] alone_releases_messages(pattern.coordinator_plans(), c, sender) && {
                &&& pattern.coordinator_plans()[c].awaited == Awaited::Begin
                &&& pattern.coordinator_plans()[c].group == sender
                &&& pattern.coordinator_plans()[c].parties == pattern.group_size()
            },
        pattern !is PubSub ==> forall|d: int|
            0 <= d < pattern.coordinator_plans().len()
                ==> !(#[trigger] pattern.coordinator_plans()[d]).releases_messages_of(sender),
{
    let plans = pattern.coordinator_plans();
    if pattern is PubSub {
        assert forall|d: int|
            0 <= d < plans.len() && (#[trigger] plans[d]).releases_messages_of(
                sender,
            ) implies d == 2 * sender + 1 by {
            assert(d == 2 * (d / 2) + d % 2);
        }
        assert(alone_releases_messages(plans, 2 * sender + 1, sender));
    }
}

/// What a coordinator has come to.
#[derive(Debug, Clone, Copy, PartialEq, Eq)]
pub enum Verdict {
    /// Not everybody was heard of yet.
    Wait,
    /// Everybody was heard of in time.
    Act,
    /// Time was up before everybody was heard of.
    GiveUp,
}

/// A coordinator as its contracts see it.
pub struct CoordinatorState {
    /// Those who were not heard of yet.
    pub missing: nat,
    /// Whether time was up before everybody was heard of.
    pub late: bool,
}

impl CoordinatorState {
    /// What the coordinator has come to.
    pub open spec fn verdict(self) -> Verdict {
        if self.late {
            Verdict::GiveUp
        } else if self.missing == 0 {
            Verdict::Act
        } else {
            Verdict::Wait
        }
    }

    /// After one more was heard of.
    pub open spec fn heard(self) -> CoordinatorState {
        CoordinatorState { missing: (self.missing - 1) as nat, ..self }
    }

    /// After time was up.
    pub open spec fn timed_out(self) -> CoordinatorState {
        CoordinatorState { late: true, ..self }
    }
}

/// Waits until everybody was heard of, for a limited time. Somebody who leaves counts as heard
/// of.
pub struct Coordinator {
    missing: usize,
    late: bool,
}

impl View for Coordinator {
    type V = CoordinatorState;

    closed spec fn view(&self) -> CoordinatorState {
        CoordinatorState { missing: self.missing as nat, late: self.late }
    }
}

impl Coordinator {
    /// A coordinator that waits for `parties`.
    pub fn new(parties: usize) -> (r: Coordinator)
        ensures
            r@ == (CoordinatorState { missing: parties as nat, late: false }),
    {
        Coordinator { missing: parties, late: false }
    }

    /// What the coordinator has come to.
    pub fn verdict(&self) -> (r: Verdict)
        ensures
            r == self@.verdict(),
    {
        if self.late {
            Verdict::GiveUp
        } else if self.missing == 0 {
            Verdict::Act
        } else {
            Verdict::Wait
        }
    }

    /// Takes note that one more was heard of.
    pub fn heard(&mut self)
        requires
            old(self)@.verdict() == Verdict::Wait,
        ensures
            final(self)@ == old(self)@.heard(),
    {
        self.missing = self.missing - 1;
    }

    /// Takes note that time is up.
    pub fn timed_out(&mut self)
        requires
            old(self)@.verdict() == Verdict::Wait,
        ensures
            final(self)@ == old(self)@.timed_out(),
    {
        self.late = true;
    }
}

/// A coordinator after `n` were heard of, as far as it waits for them.
pub open spec fn heard_of(start: CoordinatorState, n: nat) -> CoordinatorState
    decreases n,
{
    if n == 0 {
        start
    } else {
        let before = heard_of(start, (n - 1) as nat);
        if before.verdict() == Verdict::Wait {
            before.heard()
        } else {
            before
        }
    }
}

/// A coordinator acts when the last of those was heard of that it waits for, and not before; if
/// time is up earlier, it gives up.
pub proof fn coordinator_waits_for_everybody(parties: nat, n: nat)
    ensures
        ({
            let now = heard_of(CoordinatorState { missing: parties, late: false }, n);
            &&& now.verdict() == if n >= parties {
                Verdict::Act
            } else {
                Verdict::Wait
            }
            &&& now.timed_out().verdict() == Verdict::GiveUp
        }),
{
    lemma_heard_of(parties, n);
}

proof fn lemma_heard_of(parties: nat, n: nat)
    ensures
        heard_of(CoordinatorState { missing: parties, late: false }, n) == (CoordinatorState {
            missing: if n >= parties {
                0
            } else {
                (parties - n) as nat
            },
            late: false,
        }),
    decreases n,
{
    if n > 0 {
        lemma_heard_of(parties, (n - 1) as nat);
    }
}

/// A pattern goes by the same name and its receivers by the same label in every run, and the start
/// of a run is announced with the numbers of its participants.
pub proof fn patterns_are_named(a: usize, b: usize)
    ensures
        ({
            let pubsub = Pattern::PubSub { num_senders: a, num_receivers_per_sender: b };
            let dealer = Pattern::Dealer { num_pairs: a };
            let ring = Pattern::DealerRouter { num_dealers: a };
            let first = crate::text::decimal(a as nat);
            let second = crate::text::decimal(b as nat);
            &&& pubsub.text_name() == "PubSub"@
            &&& dealer.text_name() == "Dealer"@
            &&& ring.text_name() == "DealerRouter"@
            &&& pubsub.text_item_label() == "pubsub-receiver"@
            &&& dealer.text_item_label() == ""@
            &&& ring.text_item_label() == "dealerrouter-dealer"@
            &&& pubsub.text_start_message() == "Starting benchmark with "@ + first
                + " senders and "@ + second + " receivers per sender"@
            &&& dealer.text_start_message() == "Starting dealer benchmark with "@ + first
                + " pairs"@
            &&& ring.text_start_message() == "Starting dealer-router benchmark with "@ + first
                + " dealers"@
        }),
{
}

/// There is one task for each sender and one for each receiver, and one more for a router.
pub proof fn everybody_has_a_task(a: usize, b: usize)
    ensures
        (Pattern::PubSub { num_senders: a, num_receivers_per_sender: b }).task_count() == a + a * b,
        (Pattern::Dealer { num_pairs: a }).task_count() == a + a,
        (Pattern::DealerRouter { num_dealers: a }).task_count() == a + a + 1,
{
    assert(a as nat * (1 + b as nat) == a + a * b) by (nonlinear_arith);
}

/// The coordinators one by one. Each publisher has two, one after the other: the first hears of a
/// hello from each of its subscribers and then ends its greeting, the second hears of a begin
/// marker from each of them and then starts its benchmark messages. Each pair has one, which hears
/// of a hello from its only receiver. A ring has one for all, which hears of a hello from every
/// dealer and then ends the greeting of every dealer.
pub proof fn coordinators_one_by_one(a: usize, b: usize, i: int)
    requires
        0 <= i < a,
    ensures
        ({
            let pubsub = (Pattern::PubSub {
                num_senders: a,
                num_receivers_per_sender: b,
            }).coordinator_plans();
            let dealer = (Pattern::Dealer { num_pairs: a }).coordinator_plans();
            let ring = (Pattern::DealerRouter { num_dealers: a }).coordinator_plans();
            &&& pubsub.len() == 2 * a
            &&& pubsub[2 * i] == (CoordinatorPlan {
                group: i as usize,
                awaited: Awaited::Hello,
                parties: b,
                released: Released::Greeting { first: i as usize, count: 1 },
            })
            &&& pubsub[2 * i + 1] == (CoordinatorPlan {
                group: i as usize,
                awaited: Awaited::Begin,
                parties: b,
                released: Released::Messages { sender: i as usize },
            })
            &&& dealer.len() == a
            &&& dealer[i] == (CoordinatorPlan {
                group: i as usize,
                awaited: Awaited::Hello,
                parties: 1,
                released: Released::Greeting { first: i as usize, count: 1 },
            })
            &&& ring.len() == 1
            &&& ring[0] == (CoordinatorPlan {
                group: 0,
                awaited: Awaited::Hello,
                parties: a,
                released: Released::Greeting { first: 0, count: a },
            })
        }),
{
}

/// A coordinator gives up after a second, before the receivers that it waits for stop waiting for
/// messages of the synchronization phase.
pub proof fn coordinators_give_up_before_receivers()
    ensures
        COORDINATOR_TIMEOUT_SECS == 1,
        1000 * COORDINATOR_TIMEOUT_SECS < HELLO_DRAIN_RCVTIMEO_MS,
{
}

/// A coordinator acts when nobody is missing and it is not late, gives up when it is late, and
/// waits otherwise; each one that it hears of is one that is missing no more.
pub proof fn coordinators_count_down(missing: nat)
    ensures
        (CoordinatorState { missing: 0, late: false }).verdict() == Verdict::Act,
        (CoordinatorState { missing: missing + 1, late: false }).verdict() == Verdict::Wait,
        (CoordinatorState { missing, late: true }).verdict() == Verdict::GiveUp,
        (CoordinatorState { missing: missing + 1, late: false }).heard() == (CoordinatorState {
            missing,
            late: false,
        }),
        (CoordinatorState { missing, late: false }).timed_out() == (CoordinatorState {
            missing,
            late: true,
        }),
{
}

} // verus!
