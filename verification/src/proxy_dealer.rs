//! The dealers on both sides of a proxy. They need no handshake: barriers hold them together.
use vstd::prelude::*;

use crate::endpoints::ipc_file;
use crate::plans::{
    socket_at, ReceiverModel, ReceiverPlan, SenderModel, SenderPlan, SocketKind, SocketModel,
};
use crate::receiver::ReceiverConfig;
use crate::records::proxy_histogram_file;
use crate::sender::SenderConfig;

verus! {

/// What a pair of dealers is told.
#[derive(Debug, Clone)]
pub struct Args {
    pub frontend_address: String,
    pub backend_address: String,
    pub payload_size: usize,
    pub num_messages: usize,
    pub pair_id: usize,
    pub benchmark_name: String,
    pub hwm: Option<i32>,
}

/// The timestamp of a benchmark message.
pub fn extract_timestamp(buffer: &[u8]) -> (r: u64)
    requires
        buffer@.len() >= crate::zmq_helpers::header_len(),
    ensures
        r == crate::zmq_helpers::header(buffer@),
{
    crate::zmq_helpers::extract_timestamp(buffer)
}

/// The receiving dealer of `args` as the contracts see it.
pub open spec fn receiver_model(args: Args) -> ReceiverModel {
    ReceiverModel {
        socket: SocketModel {
            kind: SocketKind::Dealer,
            sndhwm: None,
            rcvhwm: args.hwm,
            identity: None,
            bind: true,
            addresses: seq![args.backend_address@],
        },
        payload_size: args.payload_size,
        config: ReceiverConfig {
            num_messages: args.num_messages,
            drain: false,
            replies: false,
            hello_ack: false,
            begin_ack: false,
            drain_failure_ends_drain: false,
            collect_failure_ends_collection: false,
        },
        drain_timeout_ms: None,
        collect_timeout_ms: None,
        end_barrier: true,
        warn_short: false,
        label: None,
        remove: crate::endpoints::file_behind(args.backend_address@),
    }
}

/// The receiving dealer of `args`.
pub fn receiver_plan(args: &Args) -> (r: ReceiverPlan)
    ensures
        r@ == (ReceiverModel {
            socket: SocketModel {
                kind: SocketKind::Dealer,
                sndhwm: None,
                rcvhwm: args.hwm,
                identity: None,
                bind: true,
                addresses: seq![args.backend_address@],
            },
            payload_size: args.payload_size,
            config: ReceiverConfig {
                num_messages: args.num_messages,
                drain: false,
                replies: false,
                hello_ack: false,
                begin_ack: false,
                drain_failure_ends_drain: false,
                collect_failure_ends_collection: false,
            },
            drain_timeout_ms: None,
            collect_timeout_ms: None,
            end_barrier: true,
            warn_short: false,
            label: None,
            remove: crate::endpoints::file_behind(args.backend_address@),
        }),
        r@ == receiver_model(*args),
{
    ReceiverPlan {
        socket: socket_at(
            SocketKind::Dealer,
            None,
            args.hwm,
            true,
            args.backend_address.as_str(),
        ),
        payload_size: args.payload_size,
        config: ReceiverConfig {
            num_messages: args.num_messages,
            drain: false,
            replies: false,
            hello_ack: false,
            begin_ack: false,
            drain_failure_ends_drain: false,
            collect_failure_ends_collection: false,
        },
        drain_timeout_ms: None,
        collect_timeout_ms: None,
        end_barrier: true,
        warn_short: false,
        label: None,
        remove: ipc_file(args.backend_address.as_str()),
    }
}

/// The sending dealer of `args` as the contracts see it.
pub open spec fn sender_model(args: Args) -> SenderModel {
    SenderModel {
        socket: SocketModel {
            kind: SocketKind::Dealer,
            sndhwm: args.hwm,
            rcvhwm: None,
            identity: None,
            bind: false,
            addresses: seq![args.frontend_address@],
        },
        payload_size: args.payload_size,
        config: SenderConfig {
            num_messages: args.num_messages,
            handshake: false,
            replies: false,
            phase_flag: false,
            records_hello: false,
            records_start: false,
            release: true,
            pacing: None,
        },
        destination: None,
        remove: None,
    }
}

/// The sending dealer of `args`.
pub fn sender_plan(args: &Args) -> (r: SenderPlan)
    ensures
        r@ == (SenderModel {
            socket: SocketModel {
                kind: SocketKind::Dealer,
                sndhwm: args.hwm,
                rcvhwm: None,
                identity: None,
                bind: false,
                addresses: seq![args.frontend_address@],
            },
            payload_size: args.payload_size,
            config: SenderConfig {
                num_messages: args.num_messages,
                handshake: false,
                replies: false,
                phase_flag: false,
                records_hello: false,
                records_start: false,
                release: true,
                pacing: None,
            },
            destination: None,
            remove: None,
        }),
        r@ == sender_model(*args),
        r.config.valid_for(r.payload_size as nat) <==> (args.num_messages > 0 ==> args.payload_size
            >= crate::zmq_helpers::header_len()),
{
    SenderPlan {
        socket: socket_at(
            SocketKind::Dealer,
            args.hwm,
            None,
            false,
            args.frontend_address.as_str(),
        ),
        payload_size: args.payload_size,
        config: SenderConfig {
            num_messages: args.num_messages,
            handshake: false,
            replies: false,
            phase_flag: false,
            records_hello: false,
            records_start: false,
            release: true,
            pacing: None,
        },
        destination: None,
        remove: None,
    }
}

/// The name of the file for the histogram of the pair of `args`.
pub fn histogram_file(args: &Args) -> (r: String)
    ensures
        r@ == args.benchmark_name@ + "_"@ + crate::text::decimal(args.payload_size as nat)
            + "_pair_"@ + crate::text::decimal(args.pair_id as nat) + ".hgrm"@,
{
    proxy_histogram_file(args.benchmark_name.as_str(), args.payload_size, args.pair_id)
}

} // verus!
