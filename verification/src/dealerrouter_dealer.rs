//! The dealers around a router. Each has a sending and a receiving socket, and sends to the
//! receiving socket of the next dealer, the last one to that of the first.
use vstd::prelude::*;
use vstd::string::*;

use crate::endpoints::transport_label;
use crate::plans::{
    socket_at, ReceiverModel, ReceiverPlan, SaveLabel, SenderModel, SenderPlan, SocketKind,
    SocketModel, SocketPlan,
};
use crate::receiver::ReceiverConfig;
use crate::sender::SenderConfig;
use crate::text::append_decimal;
use crate::zmq_helpers::hwm;

verus! {

/// What a dealer is told.
#[derive(Debug, Clone)]
pub struct Args {
    pub payload_size: usize,
    pub num_messages: usize,
    pub router_address: String,
    pub dealer_id: usize,
    pub num_dealers: usize,
}

/// Number of the sending socket of a dealer.
pub open spec fn sender_number(dealer: nat) -> nat {
    2 * dealer
}

/// Number of the receiving socket of a dealer.
pub open spec fn receiver_number(dealer: nat) -> nat {
    2 * dealer + 1
}

/// The dealer after `dealer` in the ring.
pub open spec fn next_dealer(dealer: nat, num_dealers: nat) -> nat {
    (dealer + 1) % num_dealers
}

/// Number of the receiving socket that a dealer sends to.
pub open spec fn target_number(dealer: nat, num_dealers: nat) -> nat {
    receiver_number(next_dealer(dealer, num_dealers))
}

/// The name by which the router knows a socket.
pub open spec fn socket_identity(number: nat) -> Seq<char> {
    "dealer_"@ + crate::text::decimal(number)
}

/// The name of the receiving socket that a dealer sends to.
pub open spec fn target_identity(dealer: nat, num_dealers: nat) -> Seq<char> {
    socket_identity(target_number(dealer, num_dealers))
}

/// The numbers of a dealer's sockets can be computed.
pub open spec fn in_range(dealer: usize, num_dealers: usize) -> bool {
    &&& num_dealers > 0
    &&& receiver_number(dealer as nat) <= usize::MAX
    &&& target_number(dealer as nat, num_dealers as nat) <= usize::MAX
}

/// Whether the numbers of a dealer's sockets can be computed.
pub fn is_in_range(dealer: usize, num_dealers: usize) -> (r: bool)
    ensures
        r == in_range(dealer, num_dealers),
{
    if num_dealers == 0 || dealer > (usize::MAX - 1) / 2 {
        return false;
    }
    (dealer + 1) % num_dealers <= (usize::MAX - 1) / 2
}

fn make_identity(number: usize) -> (r: String)
    ensures
        r@ == socket_identity(number as nat),
{
    let mut r: String = "dealer_".to_owned();
    append_decimal(&mut r, number as u64);
    r
}

/// The receiving side of the dealer of `args` as the contracts see it.
pub open spec fn receiver_model(args: Args) -> ReceiverModel {
    ReceiverModel {
        socket: SocketModel {
            kind: SocketKind::Dealer,
            sndhwm: None,
            rcvhwm: Some((args.num_messages + crate::zmq_helpers::HWM_HEADROOM) as i32),
            identity: Some(socket_identity(receiver_number(args.dealer_id as nat))),
            bind: false,
            addresses: seq![args.router_address@],
        },
        payload_size: args.payload_size,
        config: ReceiverConfig {
            num_messages: args.num_messages,
            drain: true,
            replies: false,
            hello_ack: true,
            begin_ack: false,
            drain_failure_ends_drain: false,
            collect_failure_ends_collection: false,
        },
        drain_timeout_ms: None,
        collect_timeout_ms: None,
        end_barrier: true,
        warn_short: false,
        label: Some(
            ("DealerRouter"@, crate::endpoints::transport_name(args.router_address@)),
        ),
        remove: None,
    }
}

/// The receiving side of the dealer of `args`.
pub fn receiver_plan(args: &Args) -> (r: ReceiverPlan)
    requires
        in_range(args.dealer_id, args.num_dealers),
        args.num_messages + crate::zmq_helpers::HWM_HEADROOM <= usize::MAX,
    ensures
        r@ == (ReceiverModel {
            socket: SocketModel {
                kind: SocketKind::Dealer,
                sndhwm: None,
                rcvhwm: Some((args.num_messages + crate::zmq_helpers::HWM_HEADROOM) as i32),
                identity: Some(socket_identity(receiver_number(args.dealer_id as nat))),
                bind: false,
                addresses: seq![args.router_address@],
            },
            payload_size: args.payload_size,
            config: ReceiverConfig {
                num_messages: args.num_messages,
                drain: true,
                replies: false,
                hello_ack: true,
                begin_ack: false,
                drain_failure_ends_drain: false,
                collect_failure_ends_collection: false,
            },
            drain_timeout_ms: None,
            collect_timeout_ms: None,
            end_barrier: true,
            warn_short: false,
            label: Some(
                ("DealerRouter"@, crate::endpoints::transport_name(args.router_address@)),
            ),
            remove: None,
        }),
        r@ == receiver_model(*args),
{
    let mut socket: SocketPlan = socket_at(
        SocketKind::Dealer,
        None,
        Some(hwm(args.num_messages)),
        false,
        args.router_address.as_str(),
    );
    socket.identity = Some(make_identity(args.dealer_id * 2 + 1));
    ReceiverPlan {
        socket,
        payload_size: args.payload_size,
        config: ReceiverConfig {
            num_messages: args.num_messages,
            drain: true,
            replies: false,
            hello_ack: true,
            begin_ack: false,
            drain_failure_ends_drain: false,
            collect_failure_ends_collection: false,
        },
        drain_timeout_ms: None,
        collect_timeout_ms: None,
        end_barrier: true,
        warn_short: false,
        label: Some(
            SaveLabel {
                pattern: "DealerRouter",
                transport: transport_label(args.router_address.as_str()),
            },
        ),
        remove: None,
    }
}

/// The sending side of the dealer of `args` as the contracts see it.
pub open spec fn sender_model(
    args: Args,
    bench_phase: bool,
    first_hello: bool,
    bench_start: bool,
) -> SenderModel {
    SenderModel {
        socket: SocketModel {
            kind: SocketKind::Dealer,
            sndhwm: Some((args.num_messages + crate::zmq_helpers::HWM_HEADROOM) as i32),
            rcvhwm: None,
            identity: Some(socket_identity(sender_number(args.dealer_id as nat))),
            bind: false,
            addresses: seq![args.router_address@],
        },
        payload_size: args.payload_size,
        config: SenderConfig {
            num_messages: args.num_messages,
            handshake: true,
            replies: false,
            phase_flag: bench_phase,
            records_hello: first_hello,
            records_start: bench_start,
            release: false,
            pacing: None,
        },
        destination: Some(target_identity(args.dealer_id as nat, args.num_dealers as nat)),
        remove: None,
    }
}

/// The sending side of the dealer of `args`. The flags say whether something tells it to stop
/// greeting, whether the time of the first hello is wanted, and whether that of the first
/// benchmark message is.
pub fn sender_plan(args: &Args, bench_phase: bool, first_hello: bool, bench_start: bool) -> (r:
    SenderPlan)
    requires
        in_range(args.dealer_id, args.num_dealers),
        args.num_messages + crate::zmq_helpers::HWM_HEADROOM <= usize::MAX,
    ensures
        r@ == (SenderModel {
            socket: SocketModel {
                kind: SocketKind::Dealer,
                sndhwm: Some((args.num_messages + crate::zmq_helpers::HWM_HEADROOM) as i32),
                rcvhwm: None,
                identity: Some(socket_identity(sender_number(args.dealer_id as nat))),
                bind: false,
                addresses: seq![args.router_address@],
            },
            payload_size: args.payload_size,
            config: SenderConfig {
                num_messages: args.num_messages,
                handshake: true,
                replies: false,
                phase_flag: bench_phase,
                records_hello: first_hello,
                records_start: bench_start,
                release: false,
                pacing: None,
            },
            destination: Some(target_identity(args.dealer_id as nat, args.num_dealers as nat)),
            remove: None,
        }),
        r@ == sender_model(*args, bench_phase, first_hello, bench_start),
        r.config.valid_for(r.payload_size as nat) <==> r.payload_size
            >= crate::zmq_helpers::header_len(),
        args.dealer_id + 1 < args.num_dealers ==> r@.destination == Some(
            "dealer_"@ + crate::text::decimal((2 * (args.dealer_id + 1) + 1) as nat),
        ),
        args.dealer_id + 1 == args.num_dealers ==> r@.destination == Some(
            "dealer_"@ + crate::text::decimal(1),
        ),
{
    let mut socket: SocketPlan = socket_at(
        SocketKind::Dealer,
        Some(hwm(args.num_messages)),
        None,
        false,
        args.router_address.as_str(),
    );
    socket.identity = Some(make_identity(args.dealer_id * 2));
    proof {
        if args.dealer_id < args.num_dealers {
            dealers_send_to_the_next(args.dealer_id as nat, args.num_dealers as nat);
        }
    }
    let target: usize = ((args.dealer_id + 1) % args.num_dealers) * 2 + 1;
    SenderPlan {
        socket,
        payload_size: args.payload_size,
        config: SenderConfig {
            num_messages: args.num_messages,
            handshake: true,
            replies: false,
            phase_flag: bench_phase,
            records_hello: first_hello,
            records_start: bench_start,
            release: false,
            pacing: None,
        },
        destination: Some(make_identity(target)),
        remove: None,
    }
}

/// Sockets with different numbers have different names.
pub proof fn identities_differ(a: nat, b: nat)
    requires
        socket_identity(a) == socket_identity(b),
    ensures
        a == b,
{
    let lead = "dealer_"@;
    let x = crate::text::decimal(a);
    let y = crate::text::decimal(b);
    assert(x =~= (lead + x).skip(lead.len() as int));
    assert(y =~= (lead + y).skip(lead.len() as int));
    crate::text::lemma_decimal_injective(a, b);
}

/// No two sockets around the router share a name: not those of different dealers, and not the two
/// of one dealer.
pub proof fn no_name_is_taken_twice(a: nat, b: nat)
    ensures
        socket_identity(sender_number(a)) != socket_identity(receiver_number(b)),
        a != b ==> socket_identity(sender_number(a)) != socket_identity(sender_number(b)),
        a != b ==> socket_identity(receiver_number(a)) != socket_identity(receiver_number(b)),
{
    if socket_identity(sender_number(a)) == socket_identity(receiver_number(b)) {
        identities_differ(sender_number(a), receiver_number(b));
    }
    if socket_identity(sender_number(a)) == socket_identity(sender_number(b)) {
        identities_differ(sender_number(a), sender_number(b));
    }
    if socket_identity(receiver_number(a)) == socket_identity(receiver_number(b)) {
        identities_differ(receiver_number(a), receiver_number(b));
    }
}

/// The dealers form a ring: every receiving socket is the target of exactly one dealer, and of a
/// dealer's own only where it is the only one.
pub proof fn dealers_form_a_ring(num_dealers: nat, receiver: nat)
    requires
        receiver < num_dealers,
    ensures
        exists|d: nat|
            d < num_dealers && #[trigger] target_number(d, num_dealers) == receiver_number(receiver),
        forall|a: nat, b: nat|
            a < num_dealers && b < num_dealers && #[trigger] target_number(a, num_dealers)
                == #[trigger] target_number(b, num_dealers) ==> a == b,
        forall|d: nat|
            d < num_dealers ==> next_dealer(d, num_dealers) < num_dealers && (
            #[trigger] target_number(d, num_dealers) == receiver_number(d) <==> num_dealers == 1),
{
    assert forall|d: nat| d < num_dealers implies #[trigger] next_dealer(d, num_dealers) == (if d + 1
        == num_dealers {
        0
    } else {
        d + 1
    }) by {
        if d + 1 == num_dealers {
            vstd::arithmetic::div_mod::lemma_mod_self_0(num_dealers as int);
        } else {
            vstd::arithmetic::div_mod::lemma_small_mod(d + 1, num_dealers);
        }
    }
    let d: nat = if receiver == 0 {
        (num_dealers - 1) as nat
    } else {
        (receiver - 1) as nat
    };
    assert(next_dealer(d, num_dealers) == receiver);
    assert(target_number(d, num_dealers) == receiver_number(receiver));
    assert forall|a: nat, b: nat|
        a < num_dealers && b < num_dealers && #[trigger] target_number(a, num_dealers)
            == #[trigger] target_number(b, num_dealers) implies a == b by {
        assert(next_dealer(a, num_dealers) == next_dealer(b, num_dealers));
    }
    assert forall|d: nat| d < num_dealers implies next_dealer(d, num_dealers) < num_dealers && (
    #[trigger] target_number(d, num_dealers) == receiver_number(d) <==> num_dealers == 1) by {
        assert(next_dealer(d, num_dealers) < num_dealers);
    }
}

/// The dealers send around one circle: each to the receiving socket of the dealer with the next
/// number, and the last one to that of the first. Dealer `d` sends from socket `2 * d` and receives
/// at socket `2 * d + 1`, and a socket goes by the name of its number.
pub proof fn dealers_send_to_the_next(dealer: nat, num_dealers: nat)
    requires
        dealer < num_dealers,
    ensures
        sender_number(dealer) == 2 * dealer,
        receiver_number(dealer) == 2 * dealer + 1,
        dealer + 1 < num_dealers ==> target_number(dealer, num_dealers) == 2 * (dealer + 1) + 1,
        dealer + 1 == num_dealers ==> target_number(dealer, num_dealers) == 1,
        dealer + 1 < num_dealers ==> target_identity(dealer, num_dealers) == "dealer_"@
            + crate::text::decimal((2 * (dealer + 1) + 1) as nat),
        dealer + 1 == num_dealers ==> target_identity(dealer, num_dealers) == "dealer_"@
            + crate::text::decimal(1),
        socket_identity(sender_number(dealer)) == "dealer_"@ + crate::text::decimal(2 * dealer),
        socket_identity(receiver_number(dealer)) == "dealer_"@ + crate::text::decimal(
            2 * dealer + 1,
        ),
{
    if dealer + 1 == num_dealers {
        vstd::arithmetic::div_mod::lemma_mod_self_0(num_dealers as int);
    } else {
        vstd::arithmetic::div_mod::lemma_small_mod(dealer + 1, num_dealers);
    }
}

/// The dealer that gets a message which was passed on `steps` times, starting from `dealer`.
pub open spec fn passed_on(dealer: nat, num_dealers: nat, steps: nat) -> nat
    decreases steps,
{
    if steps == 0 {
        dealer
    } else {
        next_dealer(passed_on(dealer, num_dealers, (steps - 1) as nat), num_dealers)
    }
}

proof fn lemma_passed_on(num_dealers: nat, steps: nat)
    requires
        steps < num_dealers,
    ensures
        passed_on(0, num_dealers, steps) == steps,
    decreases steps,
{
    if steps > 0 {
        lemma_passed_on(num_dealers, (steps - 1) as nat);
        dealers_send_to_the_next((steps - 1) as nat, num_dealers);
    }
}

/// There is a single ring: passed on from the first dealer, a message comes by every other one, in
/// the order of their numbers, and then back to the first.
pub proof fn ring_visits_every_dealer(num_dealers: nat, dealer: nat)
    requires
        dealer < num_dealers,
    ensures
        passed_on(0, num_dealers, dealer) == dealer,
        passed_on(0, num_dealers, num_dealers) == 0,
{
    lemma_passed_on(num_dealers, dealer);
    lemma_passed_on(num_dealers, (num_dealers - 1) as nat);
    dealers_send_to_the_next((num_dealers - 1) as nat, num_dealers);
}

/// Who comes next depends on the place in the ring alone, and the numbers of a dealer's sockets
/// can be computed where there is a ring and none of the numbers is too large.
pub proof fn places_repeat_around_the_ring(dealer: nat, num_dealers: nat, id: usize, n: usize)
    requires
        num_dealers > 0,
    ensures
        next_dealer(dealer + num_dealers, num_dealers) == next_dealer(dealer, num_dealers),
        target_number(dealer, num_dealers) == 2 * next_dealer(dealer, num_dealers) + 1,
        in_range(id, n) && id < n ==> 2 * id + 1 <= usize::MAX,
        0 < n <= usize::MAX / 2 && id < n ==> in_range(id, n),
        !in_range(id, 0),
{
    vstd::arithmetic::div_mod::lemma_mod_add_multiples_vanish(
        (dealer + 1) as int,
        num_dealers as int,
    );
    assert((dealer + num_dealers + 1) as int == num_dealers + (dealer + 1));
    if 0 < n <= usize::MAX / 2 && id < n {
        dealers_send_to_the_next(id as nat, n as nat);
    }
}

} // verus!
