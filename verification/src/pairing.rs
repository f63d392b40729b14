//! The plans of those who take part in a run fit together: they meet at the same place, speak the
//! same protocol, and are meant for the same messages.
use vstd::prelude::*;

use crate::dealerrouter_dealer;
use crate::plans::SocketKind;
use crate::protocol::preamble_len;
use crate::receiver::{Arrival, ReceiverPhase};
use crate::sender::{Pacing, SenderEvent, SenderStage};
use crate::{
    dealer_receiver, dealer_sender, proxy_dealer, proxy_router, publisher, roles, subscriber,
};

verus! {

/// The name of the transport of an address, by how the address starts.
pub open spec fn transport_by_start(address: Seq<char>) -> Seq<char> {
    if address.len() >= 3 && address.take(3) == "ipc"@ {
        "IPC"@
    } else {
        "TCP"@
    }
}

proof fn lemma_transport(address: Seq<char>)
    ensures
        crate::endpoints::transport_name(address) == transport_by_start(address),
{
    reveal_strlit("ipc");
}

/// A publisher and its subscribers fit together, whatever the size and the number of the messages:
/// the publisher sends as many benchmark messages as each subscriber collects, of the size that the
/// subscriber expects, and greets where the subscriber drains; they meet at one address, which the
/// publisher binds and leaves no file behind for; and the queues hold all messages.
pub proof fn publisher_and_subscriber_fit(
    payload_size: usize,
    num_messages: usize,
    address: Seq<char>,
    bench_phase: bool,
    reals_start: bool,
    hello_ack: bool,
    begin_ack: bool,
    hot_timeout_ms: i32,
)
    ensures
        ({
            let s = roles::publisher_model(
                payload_size,
                num_messages,
                address,
                bench_phase,
                reals_start,
            );
            let r = roles::subscriber_model(
                seq![address],
                num_messages,
                payload_size,
                hello_ack,
                begin_ack,
                hot_timeout_ms,
            );
            &&& s.socket.kind == SocketKind::Pub
            &&& s.socket.sndhwm == Some((num_messages + 1000) as i32)
            &&& s.socket.rcvhwm is None
            &&& s.socket.identity == None::<Seq<char>>
            &&& s.socket.bind
            &&& s.socket.addresses == seq![address]
            &&& s.payload_size == payload_size
            &&& s.config.num_messages == num_messages
            &&& s.config.handshake
            &&& !s.config.replies
            &&& s.config.phase_flag == bench_phase
            &&& s.config.records_hello
            &&& s.config.records_start
            &&& s.config.release == reals_start
            &&& s.config.pacing is None
            &&& s.destination == None::<Seq<char>>
            &&& s.remove == crate::endpoints::file_behind(address)
            &&& r.socket.kind == SocketKind::Sub
            &&& r.socket.sndhwm is None
            &&& r.socket.rcvhwm == Some((num_messages + 1000) as i32)
            &&& r.socket.identity == None::<Seq<char>>
            &&& !r.socket.bind
            &&& r.socket.addresses == seq![address]
            &&& r.payload_size == payload_size
            &&& r.config.num_messages == num_messages
            &&& r.config.drain
            &&& !r.config.replies
            &&& r.config.hello_ack == hello_ack
            &&& r.config.begin_ack == begin_ack
            &&& !r.config.drain_failure_ends_drain
            &&& r.config.collect_failure_ends_collection
            &&& r.drain_timeout_ms == Some(2000i32)
            &&& r.collect_timeout_ms == Some(hot_timeout_ms)
            &&& !r.end_barrier
            &&& r.warn_short
            &&& r.label == Some(("PubSub"@, transport_by_start(address)))
            &&& r.remove == None::<Seq<char>>
        }),
{
    lemma_transport(address);
}

/// The two dealers of a pair fit together, whatever the size and the number of the messages: one
/// sends as many benchmark messages as the other collects; one awaits a reply where the other
/// answers; they meet at one address, which the receiving one binds.
pub proof fn dealers_of_a_pair_fit(
    payload_size: usize,
    num_messages: usize,
    address: Seq<char>,
    bench_phase: bool,
    hello_ack: bool,
    hot_timeout_ms: i32,
)
    ensures
        ({
            let s = roles::sender_model(payload_size, num_messages, address, bench_phase);
            let r = roles::receiver_model(
                payload_size,
                num_messages,
                address,
                hello_ack,
                hot_timeout_ms,
            );
            &&& s.socket.kind == SocketKind::Dealer
            &&& s.socket.sndhwm == Some((num_messages + 1000) as i32)
            &&& s.socket.rcvhwm == Some((num_messages + 1000) as i32)
            &&& s.socket.identity == None::<Seq<char>>
            &&& !s.socket.bind
            &&& s.socket.addresses == seq![address]
            &&& s.payload_size == payload_size
            &&& s.config.num_messages == num_messages
            &&& s.config.handshake
            &&& s.config.replies
            &&& s.config.phase_flag == bench_phase
            &&& s.config.records_hello
            &&& s.config.records_start
            &&& !s.config.release
            &&& s.config.pacing is None
            &&& s.destination == None::<Seq<char>>
            &&& s.remove == None::<Seq<char>>
            &&& r.socket.kind == SocketKind::Dealer
            &&& r.socket.sndhwm == Some((num_messages + 1000) as i32)
            &&& r.socket.rcvhwm == Some((num_messages + 1000) as i32)
            &&& r.socket.identity == None::<Seq<char>>
            &&& r.socket.bind
            &&& r.socket.addresses == seq![address]
            &&& r.payload_size == payload_size
            &&& r.config.num_messages == num_messages
            &&& r.config.drain
            &&& r.config.replies
            &&& r.config.hello_ack == hello_ack
            &&& !r.config.begin_ack
            &&& !r.config.drain_failure_ends_drain
            &&& r.config.collect_failure_ends_collection
            &&& r.drain_timeout_ms == Some(2000i32)
            &&& r.collect_timeout_ms == Some(hot_timeout_ms)
            &&& !r.end_barrier
            &&& r.warn_short
            &&& r.label == Some(("Dealer"@, transport_by_start(address)))
            &&& r.remove == crate::endpoints::file_behind(address)
        }),
{
    lemma_transport(address);
}

/// A dealer of a ring and the next one fit together: what the first sends is addressed to the
/// receiving socket of the second, and is as many messages of the same size as that one collects.
/// Both go to the same router.
pub proof fn neighbours_in_a_ring_fit(
    from: dealerrouter_dealer::Args,
    to: dealerrouter_dealer::Args,
    bench_phase: bool,
    hot_timeout_ms: i32,
)
    requires
        from.num_dealers == to.num_dealers,
        from.dealer_id < from.num_dealers,
        to.dealer_id == if from.dealer_id + 1 == from.num_dealers {
            0
        } else {
            from.dealer_id + 1
        },
        from.payload_size == to.payload_size,
        from.num_messages == to.num_messages,
        from.router_address@ == to.router_address@,
    ensures
        ({
            let s = roles::dealer_sender_model(from, bench_phase);
            let r = roles::dealer_receiver_model(to, hot_timeout_ms);
            &&& s.socket.kind == SocketKind::Dealer
            &&& s.socket.sndhwm == Some((from.num_messages + 1000) as i32)
            &&& s.socket.rcvhwm is None
            &&& s.socket.identity == Some(
                "dealer_"@ + crate::text::decimal((2 * from.dealer_id) as nat),
            )
            &&& !s.socket.bind
            &&& s.socket.addresses == seq![from.router_address@]
            &&& s.payload_size == from.payload_size
            &&& s.config.num_messages == from.num_messages
            &&& s.config.handshake
            &&& !s.config.replies
            &&& s.config.phase_flag == bench_phase
            &&& s.config.records_hello
            &&& s.config.records_start
            &&& !s.config.release
            &&& s.config.pacing is None
            &&& s.destination == Some(
                "dealer_"@ + crate::text::decimal((2 * to.dealer_id + 1) as nat),
            )
            &&& s.remove == None::<Seq<char>>
            &&& s.destination == r.socket.identity
            &&& r.socket.kind == SocketKind::Dealer
            &&& r.socket.sndhwm is None
            &&& r.socket.rcvhwm == Some((from.num_messages + 1000) as i32)
            &&& r.socket.identity == Some(
                "dealer_"@ + crate::text::decimal((2 * to.dealer_id + 1) as nat),
            )
            &&& !r.socket.bind
            &&& r.socket.addresses == seq![from.router_address@]
            &&& r.payload_size == from.payload_size
            &&& r.config.num_messages == from.num_messages
            &&& r.config.drain
            &&& !r.config.replies
            &&& r.config.hello_ack
            &&& !r.config.begin_ack
            &&& !r.config.drain_failure_ends_drain
            &&& r.config.collect_failure_ends_collection
            &&& r.drain_timeout_ms == Some(2000i32)
            &&& r.collect_timeout_ms == Some(hot_timeout_ms)
            &&& r.end_barrier
            &&& !r.warn_short
            &&& r.label == Some(("DealerRouter"@, transport_by_start(from.router_address@)))
            &&& r.remove == None::<Seq<char>>
        }),
{
    lemma_transport(to.router_address@);
    dealerrouter_dealer::dealers_send_to_the_next(from.dealer_id as nat, from.num_dealers as nat);
    dealerrouter_dealer::dealers_send_to_the_next(to.dealer_id as nat, to.num_dealers as nat);
}

/// A publisher that runs by itself and a subscriber that runs by itself fit together where they are
/// told of the same messages and the same address. The publisher's queue holds as much as it was
/// told, and where it pauses it does so each time its queue has been filled once.
pub proof fn lone_publisher_and_subscriber_fit(
    sending: publisher::Args,
    receiving: subscriber::Args,
    bench_phase: bool,
    first_hello: bool,
    bench_start: bool,
    hello_ack: bool,
    begin_ack: bool,
)
    requires
        sending.payload_size == receiving.payload_size,
        sending.num_messages == receiving.num_messages,
        crate::endpoints::texts(receiving.addresses@) == seq![sending.address@],
    ensures
        ({
            let s = publisher::publisher_model(sending, bench_phase, first_hello, bench_start);
            let r = subscriber::subscriber_model(receiving, hello_ack, begin_ack);
            &&& s.socket.kind == SocketKind::Pub
            &&& s.socket.sndhwm == Some(sending.hwm)
            &&& s.socket.rcvhwm is None
            &&& s.socket.identity == None::<Seq<char>>
            &&& s.socket.bind
            &&& s.socket.addresses == seq![sending.address@]
            &&& s.payload_size == sending.payload_size
            &&& s.config.num_messages == sending.num_messages
            &&& s.config.handshake
            &&& !s.config.replies
            &&& s.config.phase_flag == bench_phase
            &&& s.config.records_hello == first_hello
            &&& s.config.records_start == bench_start
            &&& !s.config.release
            &&& s.config.pacing == if sending.batch_sleep_ms > 0 {
                Some(Pacing { every: sending.hwm as usize, millis: sending.batch_sleep_ms })
            } else {
                None
            }
            &&& s.destination == None::<Seq<char>>
            &&& s.remove == crate::endpoints::file_behind(sending.address@)
            &&& r.socket.kind == SocketKind::Sub
            &&& r.socket.sndhwm is None
            &&& r.socket.rcvhwm == Some((sending.num_messages + 1000) as i32)
            &&& r.socket.identity == None::<Seq<char>>
            &&& !r.socket.bind
            &&& r.socket.addresses == seq![sending.address@]
            &&& r.payload_size == sending.payload_size
            &&& r.config.num_messages == sending.num_messages
            &&& r.config.drain
            &&& !r.config.replies
            &&& r.config.hello_ack == hello_ack
            &&& r.config.begin_ack == begin_ack
            &&& r.config.drain_failure_ends_drain
            &&& r.config.collect_failure_ends_collection
            &&& r.drain_timeout_ms == Some(30000i32)
            &&& r.collect_timeout_ms == Some(60000i32)
            &&& !r.end_barrier
            &&& r.warn_short
            &&& r.label == Some(("PubSub"@, transport_by_start(sending.address@)))
            &&& r.remove == None::<Seq<char>>
        }),
{
    lemma_transport(sending.address@);
}

/// Two dealers that run by themselves fit together where they are told of the same messages and the
/// same address.
pub proof fn lone_dealers_fit(
    sending: dealer_sender::Args,
    receiving: dealer_receiver::Args,
    bench_phase: bool,
    first_hello: bool,
    bench_start: bool,
    hello_ack: bool,
)
    requires
        sending.payload_size == receiving.payload_size,
        sending.num_messages == receiving.num_messages,
        sending.receiver_address@ == receiving.bind_address@,
    ensures
        ({
            let s = dealer_sender::sender_model(sending, bench_phase, first_hello, bench_start);
            let r = dealer_receiver::receiver_model(receiving, hello_ack);
            &&& s.socket.kind == SocketKind::Dealer
            &&& s.socket.sndhwm == Some((sending.num_messages + 1000) as i32)
            &&& s.socket.rcvhwm == Some((sending.num_messages + 1000) as i32)
            &&& s.socket.identity == None::<Seq<char>>
            &&& !s.socket.bind
            &&& s.socket.addresses == seq![sending.receiver_address@]
            &&& s.payload_size == sending.payload_size
            &&& s.config.num_messages == sending.num_messages
            &&& s.config.handshake
            &&& s.config.replies
            &&& s.config.phase_flag == bench_phase
            &&& s.config.records_hello == first_hello
            &&& s.config.records_start == bench_start
            &&& !s.config.release
            &&& s.config.pacing is None
            &&& s.destination == None::<Seq<char>>
            &&& s.remove == None::<Seq<char>>
            &&& r.socket.kind == SocketKind::Dealer
            &&& r.socket.sndhwm == Some((sending.num_messages + 1000) as i32)
            &&& r.socket.rcvhwm == Some((sending.num_messages + 1000) as i32)
            &&& r.socket.identity == None::<Seq<char>>
            &&& r.socket.bind
            &&& r.socket.addresses == seq![sending.receiver_address@]
            &&& r.payload_size == sending.payload_size
            &&& r.config.num_messages == sending.num_messages
            &&& r.config.drain
            &&& r.config.replies
            &&& r.config.hello_ack == hello_ack
            &&& !r.config.begin_ack
            &&& !r.config.drain_failure_ends_drain
            &&& !r.config.collect_failure_ends_collection
            &&& r.drain_timeout_ms == None::<i32>
            &&& r.collect_timeout_ms == None::<i32>
            &&& !r.end_barrier
            &&& !r.warn_short
            &&& r.label == Some(("Dealer"@, transport_by_start(sending.receiver_address@)))
            &&& r.remove == crate::endpoints::file_behind(sending.receiver_address@)
        }),
{
    lemma_transport(receiving.bind_address@);
}

/// A dealer around a router that runs by itself and the next one fit together: what the first sends
/// is addressed to the receiving socket of the second, and is as many messages of the same size as
/// that one collects.
pub proof fn lone_neighbours_in_a_ring_fit(
    from: dealerrouter_dealer::Args,
    to: dealerrouter_dealer::Args,
    bench_phase: bool,
    first_hello: bool,
    bench_start: bool,
)
    requires
        from.num_dealers == to.num_dealers,
        from.dealer_id < from.num_dealers,
        to.dealer_id == if from.dealer_id + 1 == from.num_dealers {
            0
        } else {
            from.dealer_id + 1
        },
        from.payload_size == to.payload_size,
        from.num_messages == to.num_messages,
        from.router_address@ == to.router_address@,
    ensures
        ({
            let s = dealerrouter_dealer::sender_model(from, bench_phase, first_hello, bench_start);
            let r = dealerrouter_dealer::receiver_model(to);
            &&& s.socket.kind == SocketKind::Dealer
            &&& s.socket.sndhwm == Some((from.num_messages + 1000) as i32)
            &&& s.socket.rcvhwm is None
            &&& s.socket.identity == Some(
                "dealer_"@ + crate::text::decimal((2 * from.dealer_id) as nat),
            )
            &&& !s.socket.bind
            &&& s.socket.addresses == seq![from.router_address@]
            &&& s.payload_size == from.payload_size
            &&& s.config.num_messages == from.num_messages
            &&& s.config.handshake
            &&& !s.config.replies
            &&& s.config.phase_flag == bench_phase
            &&& s.config.records_hello == first_hello
            &&& s.config.records_start == bench_start
            &&& !s.config.release
            &&& s.config.pacing is None
            &&& s.destination == Some(
                "dealer_"@ + crate::text::decimal((2 * to.dealer_id + 1) as nat),
            )
            &&& s.remove == None::<Seq<char>>
            &&& s.destination == r.socket.identity
            &&& r.socket.kind == SocketKind::Dealer
            &&& r.socket.sndhwm is None
            &&& r.socket.rcvhwm == Some((from.num_messages + 1000) as i32)
            &&& r.socket.identity == Some(
                "dealer_"@ + crate::text::decimal((2 * to.dealer_id + 1) as nat),
            )
            &&& !r.socket.bind
            &&& r.socket.addresses == seq![from.router_address@]
            &&& r.payload_size == from.payload_size
            &&& r.config.num_messages == from.num_messages
            &&& r.config.drain
            &&& !r.config.replies
            &&& r.config.hello_ack
            &&& !r.config.begin_ack
            &&& !r.config.drain_failure_ends_drain
            &&& !r.config.collect_failure_ends_collection
            &&& r.drain_timeout_ms == None::<i32>
            &&& r.collect_timeout_ms == None::<i32>
            &&& r.end_barrier
            &&& !r.warn_short
            &&& r.label == Some(("DealerRouter"@, transport_by_start(from.router_address@)))
            &&& r.remove == None::<Seq<char>>
        }),
{
    lemma_transport(to.router_address@);
    dealerrouter_dealer::dealers_send_to_the_next(from.dealer_id as nat, from.num_dealers as nat);
    dealerrouter_dealer::dealers_send_to_the_next(to.dealer_id as nat, to.num_dealers as nat);
}

/// The dealers on both sides of a proxy and the proxy itself fit together: the sending dealer goes
/// to the frontend, which the proxy binds; the proxy's backend goes to the receiving dealer, which
/// binds its address; neither side has a handshake, and what one sends the other collects.
pub proof fn dealers_and_proxy_fit(
    args: proxy_dealer::Args,
    proxy: proxy_router::Args,
)
    requires
        proxy.frontend_address@ == args.frontend_address@,
        proxy.backend_address@ == args.backend_address@,
        proxy.hwm == args.hwm,
    ensures
        ({
            let s = proxy_dealer::sender_model(args);
            let r = proxy_dealer::receiver_model(args);
            let front = proxy_router::frontend_model(proxy);
            let back = proxy_router::backend_model(proxy);
            &&& s.socket.kind == SocketKind::Dealer
            &&& s.socket.sndhwm == args.hwm
            &&& s.socket.rcvhwm is None
            &&& s.socket.identity == None::<Seq<char>>
            &&& !s.socket.bind
            &&& s.socket.addresses == seq![args.frontend_address@]
            &&& s.payload_size == args.payload_size
            &&& s.config.num_messages == args.num_messages
            &&& !s.config.handshake
            &&& !s.config.replies
            &&& !s.config.phase_flag
            &&& !s.config.records_hello
            &&& !s.config.records_start
            &&& s.config.release
            &&& s.config.pacing is None
            &&& s.destination == None::<Seq<char>>
            &&& s.remove == None::<Seq<char>>
            &&& r.socket.kind == SocketKind::Dealer
            &&& r.socket.sndhwm is None
            &&& r.socket.rcvhwm == args.hwm
            &&& r.socket.identity == None::<Seq<char>>
            &&& r.socket.bind
            &&& r.socket.addresses == seq![args.backend_address@]
            &&& r.payload_size == args.payload_size
            &&& r.config.num_messages == args.num_messages
            &&& !r.config.drain
            &&& !r.config.replies
            &&& !r.config.hello_ack
            &&& !r.config.begin_ack
            &&& !r.config.drain_failure_ends_drain
            &&& !r.config.collect_failure_ends_collection
            &&& r.drain_timeout_ms == None::<i32>
            &&& r.collect_timeout_ms == None::<i32>
            &&& r.end_barrier
            &&& !r.warn_short
            &&& r.label == None::<(Seq<char>, Seq<char>)>
            &&& r.remove == crate::endpoints::file_behind(args.backend_address@)
            &&& front.kind == SocketKind::Router
            &&& back.kind == SocketKind::Dealer
            &&& front.bind
            &&& !back.bind
            &&& front.addresses == s.socket.addresses
            &&& back.addresses == r.socket.addresses
            &&& front.sndhwm == args.hwm
            &&& front.rcvhwm == args.hwm
            &&& back.sndhwm == args.hwm
            &&& back.rcvhwm == args.hwm
            &&& front.identity is None
            &&& back.identity is None
        }),
{
}

/// Of a run with a publisher, every subscriber measures every message: exactly as many latencies as
/// messages were asked for, each the time from the stamp of its message to its arrival.
pub proof fn subscribers_measure_every_message(
    payload_size: usize,
    num_messages: usize,
    address: Seq<char>,
    bench_phase: bool,
    reals_start: bool,
    hello_ack: bool,
    begin_ack: bool,
    hot_timeout_ms: i32,
    events: Seq<SenderEvent>,
    arrivals: Seq<Arrival>,
)
    requires
        payload_size >= 8,
        roles::publisher_model(
            payload_size,
            num_messages,
            address,
            bench_phase,
            reals_start,
        ).config.initial(payload_size as nat).expects_all(events),
        roles::publisher_model(
            payload_size,
            num_messages,
            address,
            bench_phase,
            reals_start,
        ).config.initial(payload_size as nat).after_all(events).stage
            == SenderStage::Finished,
        arrivals.len() == num_messages,
        forall|i: int|
            #![trigger arrivals[i]]
            0 <= i < arrivals.len() ==> {
                let sender = roles::publisher_model(
                    payload_size,
                    num_messages,
                    address,
                    bench_phase,
                    reals_start,
                ).config;
                let wire = sender.initial(payload_size as nat).transcript(events);
                &&& arrivals[i].message == wire[wire.len() - num_messages + i]
                &&& arrivals[i].clock >= crate::sender::clock_readings(events)[i]
            },
    ensures
        ({
            let sender = roles::publisher_model(
                payload_size,
                num_messages,
                address,
                bench_phase,
                reals_start,
            ).config;
            let receiver = roles::subscriber_model(
                seq![address],
                num_messages,
                payload_size,
                hello_ack,
                begin_ack,
                hot_timeout_ms,
            ).config;
            let wire = sender.initial(payload_size as nat).transcript(events);
            let clocks = crate::sender::clock_readings(events);
            let end = receiver.initial().after_all_drained(wire).after_all_collected(arrivals);
            &&& clocks.len() == num_messages
            &&& end.phase == ReceiverPhase::Finished
            &&& end.latencies.len() == num_messages
            &&& forall|i: int|
                0 <= i < num_messages ==> #[trigger] end.latencies[i] == arrivals[i].clock
                    - clocks[i]
        }),
{
    let sender = roles::publisher_model(
        payload_size,
        num_messages,
        address,
        bench_phase,
        reals_start,
    ).config;
    let receiver = roles::subscriber_model(
        seq![address],
        num_messages,
        payload_size,
        hello_ack,
        begin_ack,
        hot_timeout_ms,
    ).config;
    publisher_and_subscriber_fit(
        payload_size,
        num_messages,
        address,
        bench_phase,
        reals_start,
        hello_ack,
        begin_ack,
        hot_timeout_ms,
    );
    crate::protocol::greeting_is_drained(sender, payload_size as nat, events, receiver);
    crate::sender::finished_sender_message_by_message(sender, payload_size as nat, events);
    assert(sender.initial(payload_size as nat).transcript(events).len() == preamble_len(
        sender,
        events,
    ) + num_messages);
    crate::protocol::every_benchmark_message_is_measured(
        sender,
        payload_size as nat,
        events,
        receiver,
        arrivals,
    );
}

/// Of a run with a pair of dealers, the receiving one measures every message: exactly as many
/// latencies as messages were asked for, each the time from the stamp of its message to its
/// arrival.
pub proof fn receiving_dealer_measures_every_message(
    payload_size: usize,
    num_messages: usize,
    address: Seq<char>,
    bench_phase: bool,
    hello_ack: bool,
    hot_timeout_ms: i32,
    events: Seq<SenderEvent>,
    arrivals: Seq<Arrival>,
)
    requires
        payload_size >= 8,
        roles::sender_model(
            payload_size,
            num_messages,
            address,
            bench_phase,
        ).config.initial(payload_size as nat).expects_all(events),
        roles::sender_model(
            payload_size,
            num_messages,
            address,
            bench_phase,
        ).config.initial(payload_size as nat).after_all(events).stage
            == SenderStage::Finished,
        arrivals.len() == num_messages,
        forall|i: int|
            #![trigger arrivals[i]]
            0 <= i < arrivals.len() ==> {
                let sender = roles::sender_model(
                    payload_size,
                    num_messages,
                    address,
                    bench_phase,
                ).config;
                let wire = sender.initial(payload_size as nat).transcript(events);
                &&& arrivals[i].message == wire[wire.len() - num_messages + i]
                &&& arrivals[i].clock >= crate::sender::clock_readings(events)[i]
            },
    ensures
        ({
            let sender = roles::sender_model(
                payload_size,
                num_messages,
                address,
                bench_phase,
            ).config;
            let receiver = roles::receiver_model(
                payload_size,
                num_messages,
                address,
                hello_ack,
                hot_timeout_ms,
            ).config;
            let wire = sender.initial(payload_size as nat).transcript(events);
            let clocks = crate::sender::clock_readings(events);
            let end = receiver.initial().after_all_drained(wire).after_all_collected(arrivals);
            &&& clocks.len() == num_messages
            &&& end.phase == ReceiverPhase::Finished
            &&& end.latencies.len() == num_messages
            &&& forall|i: int|
                0 <= i < num_messages ==> #[trigger] end.latencies[i] == arrivals[i].clock
                    - clocks[i]
        }),
{
    let sender = roles::sender_model(payload_size, num_messages, address, bench_phase).config;
    let receiver = roles::receiver_model(
        payload_size,
        num_messages,
        address,
        hello_ack,
        hot_timeout_ms,
    ).config;
    dealers_of_a_pair_fit(
        payload_size,
        num_messages,
        address,
        bench_phase,
        hello_ack,
        hot_timeout_ms,
    );
    crate::protocol::greeting_is_drained(sender, payload_size as nat, events, receiver);
    crate::sender::finished_sender_message_by_message(sender, payload_size as nat, events);
    assert(sender.initial(payload_size as nat).transcript(events).len() == preamble_len(
        sender,
        events,
    ) + num_messages);
    crate::protocol::every_benchmark_message_is_measured(
        sender,
        payload_size as nat,
        events,
        receiver,
        arrivals,
    );
}

/// Of a run around a router, every dealer measures every message of the dealer before it: exactly
/// as many latencies as messages were asked for, each the time from the stamp of its message to its
/// arrival.
pub proof fn next_dealer_measures_every_message(
    from: dealerrouter_dealer::Args,
    to: dealerrouter_dealer::Args,
    bench_phase: bool,
    hot_timeout_ms: i32,
    events: Seq<SenderEvent>,
    arrivals: Seq<Arrival>,
)
    requires
        from.num_dealers == to.num_dealers,
        from.dealer_id < from.num_dealers,
        to.dealer_id == if from.dealer_id + 1 == from.num_dealers {
            0
        } else {
            from.dealer_id + 1
        },
        from.payload_size == to.payload_size,
        from.num_messages == to.num_messages,
        from.router_address@ == to.router_address@,
        from.payload_size >= 8,
        roles::dealer_sender_model(
            from,
            bench_phase,
        ).config.initial(from.payload_size as nat).expects_all(events),
        roles::dealer_sender_model(
            from,
            bench_phase,
        ).config.initial(from.payload_size as nat).after_all(events).stage
            == SenderStage::Finished,
        arrivals.len() == from.num_messages,
        forall|i: int|
            #![trigger arrivals[i]]
            0 <= i < arrivals.len() ==> {
                let sender = roles::dealer_sender_model(from, bench_phase).config;
                let wire = sender.initial(from.payload_size as nat).transcript(events);
                &&& arrivals[i].message == wire[wire.len() - from.num_messages + i]
                &&& arrivals[i].clock >= crate::sender::clock_readings(events)[i]
            },
    ensures
        ({
            let sender = roles::dealer_sender_model(from, bench_phase).config;
            let receiver = roles::dealer_receiver_model(to, hot_timeout_ms).config;
            let wire = sender.initial(from.payload_size as nat).transcript(events);
            let clocks = crate::sender::clock_readings(events);
            let end = receiver.initial().after_all_drained(wire).after_all_collected(arrivals);
            &&& clocks.len() == from.num_messages
            &&& end.phase == ReceiverPhase::Finished
            &&& end.latencies.len() == from.num_messages
            &&& forall|i: int|
                0 <= i < from.num_messages ==> #[trigger] end.latencies[i] == arrivals[i].clock
                    - clocks[i]
        }),
{
    let sender = roles::dealer_sender_model(from, bench_phase).config;
    let receiver = roles::dealer_receiver_model(to, hot_timeout_ms).config;
    neighbours_in_a_ring_fit(from, to, bench_phase, hot_timeout_ms);
    crate::protocol::greeting_is_drained(sender, from.payload_size as nat, events, receiver);
    crate::sender::finished_sender_message_by_message(sender, from.payload_size as nat, events);
    assert(sender.initial(from.payload_size as nat).transcript(events).len() == preamble_len(
        sender,
        events,
    ) + from.num_messages);
    crate::protocol::every_benchmark_message_is_measured(
        sender,
        from.payload_size as nat,
        events,
        receiver,
        arrivals,
    );
}

/// The router of a ring is bound to the address that all dealers go to, and its queues hold as much
/// in both directions as it was told.
pub proof fn router_and_dealers_meet(
    args: dealerrouter_dealer::Args,
    hwm: i32,
    bench_phase: bool,
    hot_timeout_ms: i32,
)
    ensures
        ({
            let router = crate::dealerrouter_router::router_socket(args.router_address@, hwm);
            let s = roles::dealer_sender_model(args, bench_phase);
            let r = roles::dealer_receiver_model(args, hot_timeout_ms);
            &&& router.kind == SocketKind::Router
            &&& router.bind
            &&& router.addresses == seq![args.router_address@]
            &&& router.addresses == s.socket.addresses
            &&& router.addresses == r.socket.addresses
            &&& router.sndhwm == Some(hwm)
            &&& router.rcvhwm == Some(hwm)
            &&& router.identity is None
        }),
{
}

} // verus!
