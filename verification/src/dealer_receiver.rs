//! The receiving dealer of a pair.
use vstd::prelude::*;

use crate::endpoints::{ipc_file, transport_label};
use crate::plans::{socket_at, ReceiverModel, ReceiverPlan, SaveLabel, SocketKind, SocketModel};
use crate::receiver::ReceiverConfig;
use crate::zmq_helpers::hwm;

verus! {

/// What a receiving dealer is told.
#[derive(Debug, Clone)]
pub struct Args {
    pub payload_size: usize,
    pub num_messages: usize,
    pub bind_address: String,
}

/// The receiving dealer of `args` as the contracts see it.
pub open spec fn receiver_model(args: Args, hello_ack: bool) -> ReceiverModel {
    ReceiverModel {
        socket: SocketModel {
            kind: SocketKind::Dealer,
            sndhwm: Some((args.num_messages + crate::zmq_helpers::HWM_HEADROOM) as i32),
            rcvhwm: Some((args.num_messages + crate::zmq_helpers::HWM_HEADROOM) as i32),
            identity: None,
            bind: true,
            addresses: seq![args.bind_address@],
        },
        payload_size: args.payload_size,
        config: ReceiverConfig {
            num_messages: args.num_messages,
            drain: true,
            replies: true,
            hello_ack,
            begin_ack: false,
            drain_failure_ends_drain: false,
            collect_failure_ends_collection: false,
        },
        drain_timeout_ms: None,
        collect_timeout_ms: None,
        end_barrier: false,
        warn_short: false,
        label: Some(("Dealer"@, crate::endpoints::transport_name(args.bind_address@))),
        remove: crate::endpoints::file_behind(args.bind_address@),
    }
}

/// The receiving dealer of `args`; the flag says whether somebody waits to hear of the first
/// hello.
pub fn plan(args: &Args, hello_ack: bool) -> (r: ReceiverPlan)
    requires
        args.num_messages + crate::zmq_helpers::HWM_HEADROOM <= usize::MAX,
    ensures
        r@ == (ReceiverModel {
            socket: SocketModel {
                kind: SocketKind::Dealer,
                sndhwm: Some((args.num_messages + crate::zmq_helpers::HWM_HEADROOM) as i32),
                rcvhwm: Some((args.num_messages + crate::zmq_helpers::HWM_HEADROOM) as i32),
                identity: None,
                bind: true,
                addresses: seq![args.bind_address@],
            },
            payload_size: args.payload_size,
            config: ReceiverConfig {
                num_messages: args.num_messages,
                drain: true,
                replies: true,
                hello_ack,
                begin_ack: false,
                drain_failure_ends_drain: false,
                collect_failure_ends_collection: false,
            },
            drain_timeout_ms: None,
            collect_timeout_ms: None,
            end_barrier: false,
            warn_short: false,
            label: Some(("Dealer"@, crate::endpoints::transport_name(args.bind_address@))),
            remove: crate::endpoints::file_behind(args.bind_address@),
        }),
        r@ == receiver_model(*args, hello_ack),
{
    let mark: i32 = hwm(args.num_messages);
    ReceiverPlan {
        socket: socket_at(
            SocketKind::Dealer,
            Some(mark),
            Some(mark),
            true,
            args.bind_address.as_str(),
        ),
        payload_size: args.payload_size,
        config: ReceiverConfig {
            num_messages: args.num_messages,
            drain: true,
            replies: true,
            hello_ack,
            begin_ack: false,
            drain_failure_ends_drain: false,
            collect_failure_ends_collection: false,
        },
        drain_timeout_ms: None,
        collect_timeout_ms: None,
        end_barrier: false,
        warn_short: false,
        label: Some(
            SaveLabel {
                pattern: "Dealer",
                transport: transport_label(args.bind_address.as_str()),
            },
        ),
        remove: ipc_file(args.bind_address.as_str()),
    }
}

} // verus!
