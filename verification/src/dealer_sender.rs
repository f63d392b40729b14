//! The sending dealer of a pair.
use vstd::prelude::*;

use crate::plans::{socket_at, SenderModel, SenderPlan, SocketKind, SocketModel};
use crate::sender::SenderConfig;
use crate::zmq_helpers::hwm;

verus! {

/// What a sending dealer is told.
#[derive(Debug, Clone)]
pub struct Args {
    pub payload_size: usize,
    pub num_messages: usize,
    pub receiver_address: String,
}

/// The sending dealer of `args` as the contracts see it.
pub open spec fn sender_model(
    args: Args,
    bench_phase: bool,
    first_hello: bool,
    bench_start: bool,
) -> SenderModel {
    SenderModel {
        socket: SocketModel {
            kind: SocketKind::Dealer,
            sndhwm: Some((args.num_messages + crate::zmq_helpers::HWM_HEADROOM) as i32),
            rcvhwm: Some((args.num_messages + crate::zmq_helpers::HWM_HEADROOM) as i32),
            identity: None,
            bind: false,
            addresses: seq![args.receiver_address@],
        },
        payload_size: args.payload_size,
        config: SenderConfig {
            num_messages: args.num_messages,
            handshake: true,
            replies: true,
            phase_flag: bench_phase,
            records_hello: first_hello,
            records_start: bench_start,
            release: false,
            pacing: None,
        },
        destination: None,
        remove: None,
    }
}

/// The sending dealer of `args`. The flags say whether something tells it to stop greeting,
/// whether the time of the first hello is wanted, and whether that of the first benchmark message
/// is.
pub fn plan(args: &Args, bench_phase: bool, first_hello: bool, bench_start: bool) -> (r: SenderPlan)
    requires
        args.num_messages + crate::zmq_helpers::HWM_HEADROOM <= usize::MAX,
    ensures
        r@ == (SenderModel {
            socket: SocketModel {
                kind: SocketKind::Dealer,
                sndhwm: Some((args.num_messages + crate::zmq_helpers::HWM_HEADROOM) as i32),
                rcvhwm: Some((args.num_messages + crate::zmq_helpers::HWM_HEADROOM) as i32),
                identity: None,
                bind: false,
                addresses: seq![args.receiver_address@],
            },
            payload_size: args.payload_size,
            config: SenderConfig {
                num_messages: args.num_messages,
                handshake: true,
                replies: true,
                phase_flag: bench_phase,
                records_hello: first_hello,
                records_start: bench_start,
                release: false,
                pacing: None,
            },
            destination: None,
            remove: None,
        }),
        r@ == sender_model(*args, bench_phase, first_hello, bench_start),
        r.config.valid_for(r.payload_size as nat) <==> r.payload_size
            >= crate::zmq_helpers::header_len(),
{
    let mark: i32 = hwm(args.num_messages);
    SenderPlan {
        socket: socket_at(
            SocketKind::Dealer,
            Some(mark),
            Some(mark),
            false,
            args.receiver_address.as_str(),
        ),
        payload_size: args.payload_size,
        config: SenderConfig {
            num_messages: args.num_messages,
            handshake: true,
            replies: true,
            phase_flag: bench_phase,
            records_hello: first_hello,
            records_start: bench_start,
            release: false,
            pacing: None,
        },
        destination: None,
        remove: None,
    }
}

} // verus!
