//! A subscriber that gives up waiting, but keeps what it has measured.
use vstd::prelude::*;

use crate::endpoints::first_transport_label;
use crate::plans::{
    copied, ReceiverModel, ReceiverPlan, SaveLabel, SocketKind, SocketModel, SocketPlan,
};
use crate::receiver::ReceiverConfig;
use crate::zmq_helpers::hwm;

verus! {

/// What a subscriber is told.
#[derive(Debug, Clone)]
pub struct Args {
    pub addresses: Vec<String>,
    pub num_messages: usize,
    pub payload_size: usize,
}

/// Milliseconds that a subscriber waits for a message of the synchronization phase.
pub const DRAIN_TIMEOUT_MS: i32 = 30000;

/// Milliseconds that a subscriber waits for a benchmark message.
pub const COLLECT_TIMEOUT_MS: i32 = 60000;

/// The name of the transport of the first of several addresses; that of TCP where there is none.
pub open spec fn first_transport_name(addresses: Seq<Seq<char>>) -> Seq<char> {
    if addresses.len() > 0 {
        crate::endpoints::transport_name(addresses[0])
    } else {
        "TCP"@
    }
}

/// The subscriber of `args` as the contracts see it.
pub open spec fn subscriber_model(args: Args, hello_ack: bool, begin_ack: bool) -> ReceiverModel {
    ReceiverModel {
        socket: SocketModel {
            kind: SocketKind::Sub,
            sndhwm: None,
            rcvhwm: Some((args.num_messages + crate::zmq_helpers::HWM_HEADROOM) as i32),
            identity: None,
            bind: false,
            addresses: crate::endpoints::texts(args.addresses@),
        },
        payload_size: args.payload_size,
        config: ReceiverConfig {
            num_messages: args.num_messages,
            drain: true,
            replies: false,
            hello_ack,
            begin_ack,
            drain_failure_ends_drain: true,
            collect_failure_ends_collection: true,
        },
        drain_timeout_ms: Some(DRAIN_TIMEOUT_MS),
        collect_timeout_ms: Some(COLLECT_TIMEOUT_MS),
        end_barrier: false,
        warn_short: true,
        label: Some(
            (
                "PubSub"@,
                first_transport_name(crate::endpoints::texts(args.addresses@)),
            ),
        ),
        remove: None,
    }
}

/// The subscriber of `args`. The flags say whether somebody waits to hear of the first hello, and
/// whether somebody waits to hear of the begin marker.
pub fn plan(args: &Args, hello_ack: bool, begin_ack: bool) -> (r: ReceiverPlan)
    requires
        args.num_messages + crate::zmq_helpers::HWM_HEADROOM <= usize::MAX,
    ensures
        r@ == (ReceiverModel {
            socket: SocketModel {
                kind: SocketKind::Sub,
                sndhwm: None,
                rcvhwm: Some((args.num_messages + crate::zmq_helpers::HWM_HEADROOM) as i32),
                identity: None,
                bind: false,
                addresses: crate::endpoints::texts(args.addresses@),
            },
            payload_size: args.payload_size,
            config: ReceiverConfig {
                num_messages: args.num_messages,
                drain: true,
                replies: false,
                hello_ack,
                begin_ack,
                drain_failure_ends_drain: true,
                collect_failure_ends_collection: true,
            },
            drain_timeout_ms: Some(DRAIN_TIMEOUT_MS),
            collect_timeout_ms: Some(COLLECT_TIMEOUT_MS),
            end_barrier: false,
            warn_short: true,
            label: Some(
                (
                    "PubSub"@,
                    first_transport_name(crate::endpoints::texts(args.addresses@)),
                ),
            ),
            remove: None,
        }),
        r@ == subscriber_model(*args, hello_ack, begin_ack),
{
    ReceiverPlan {
        socket: SocketPlan {
            kind: SocketKind::Sub,
            sndhwm: None,
            rcvhwm: Some(hwm(args.num_messages)),
            identity: None,
            bind: false,
            addresses: copied(&args.addresses),
        },
        payload_size: args.payload_size,
        config: ReceiverConfig {
            num_messages: args.num_messages,
            drain: true,
            replies: false,
            hello_ack,
            begin_ack,
            drain_failure_ends_drain: true,
            collect_failure_ends_collection: true,
        },
        drain_timeout_ms: Some(DRAIN_TIMEOUT_MS),
        collect_timeout_ms: Some(COLLECT_TIMEOUT_MS),
        end_barrier: false,
        warn_short: true,
        label: Some(
            SaveLabel { pattern: "PubSub", transport: first_transport_label(&args.addresses) },
        ),
        remove: None,
    }
}

/// Measurements over several addresses go by the transport of the first of them, whatever the
/// others are, and by that of TCP where there is none.
pub proof fn first_address_names_the_transport(first: Seq<char>, others: Seq<Seq<char>>)
    ensures
        first_transport_name(seq![first] + others) == crate::endpoints::transport_name(first),
        first_transport_name(Seq::empty()) == "TCP"@,
{
}

} // verus!
