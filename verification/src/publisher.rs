//! A publisher with a high-water mark of its own and pauses between batches.
use vstd::prelude::*;

use crate::endpoints::ipc_file;
use crate::plans::{socket_at, SenderModel, SenderPlan, SocketKind, SocketModel};
use crate::sender::{Pacing, SenderConfig};

verus! {

/// What a publisher is told.
#[derive(Debug, Clone)]
pub struct Args {
    pub payload_size: usize,
    pub num_messages: usize,
    pub address: String,
    pub hwm: i32,
    pub batch_sleep_ms: u64,
}

/// The pauses of a publisher: as many messages apart as its queue holds, if there are any.
pub open spec fn batches(hwm: i32, batch_sleep_ms: u64) -> Option<Pacing> {
    if batch_sleep_ms > 0 {
        Some(Pacing { every: hwm as usize, millis: batch_sleep_ms })
    } else {
        None
    }
}

/// The publisher of `args` as the contracts see it.
pub open spec fn publisher_model(
    args: Args,
    bench_phase: bool,
    first_hello: bool,
    bench_start: bool,
) -> SenderModel {
    SenderModel {
        socket: SocketModel {
            kind: SocketKind::Pub,
            sndhwm: Some(args.hwm),
            rcvhwm: None,
            identity: None,
            bind: true,
            addresses: seq![args.address@],
        },
        payload_size: args.payload_size,
        config: SenderConfig {
            num_messages: args.num_messages,
            handshake: true,
            replies: false,
            phase_flag: bench_phase,
            records_hello: first_hello,
            records_start: bench_start,
            release: false,
            pacing: batches(args.hwm, args.batch_sleep_ms),
        },
        destination: None,
        remove: crate::endpoints::file_behind(args.address@),
    }
}

/// The publisher of `args`. The flags say whether something tells it to stop greeting, whether
/// the time of the first hello is wanted, and whether that of the first benchmark message is.
pub fn plan(args: &Args, bench_phase: bool, first_hello: bool, bench_start: bool) -> (r: SenderPlan)
    ensures
        r@ == (SenderModel {
            socket: SocketModel {
                kind: SocketKind::Pub,
                sndhwm: Some(args.hwm),
                rcvhwm: None,
                identity: None,
                bind: true,
                addresses: seq![args.address@],
            },
            payload_size: args.payload_size,
            config: SenderConfig {
                num_messages: args.num_messages,
                handshake: true,
                replies: false,
                phase_flag: bench_phase,
                records_hello: first_hello,
                records_start: bench_start,
                release: false,
                pacing: batches(args.hwm, args.batch_sleep_ms),
            },
            destination: None,
            remove: crate::endpoints::file_behind(args.address@),
        }),
        r@ == publisher_model(*args, bench_phase, first_hello, bench_start),
        r.config.valid_for(r.payload_size as nat) <==> args.payload_size
            >= crate::zmq_helpers::header_len() && (args.batch_sleep_ms > 0 && args.num_messages > 0
            ==> args.hwm != 0),
{
    let pacing: Option<Pacing> = if args.batch_sleep_ms > 0 {
        let every: usize = args.hwm as usize;
        proof {
            let hwm: i32 = args.hwm;
            assert(hwm != 0 <==> (hwm as usize) != 0) by (bit_vector);
        }
        Some(Pacing { every, millis: args.batch_sleep_ms })
    } else {
        None
    };
    SenderPlan {
        socket: socket_at(SocketKind::Pub, Some(args.hwm), None, true, args.address.as_str()),
        payload_size: args.payload_size,
        config: SenderConfig {
            num_messages: args.num_messages,
            handshake: true,
            replies: false,
            phase_flag: bench_phase,
            records_hello: first_hello,
            records_start: bench_start,
            release: false,
            pacing,
        },
        destination: None,
        remove: ipc_file(args.address.as_str()),
    }
}

} // verus!
