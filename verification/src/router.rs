//! The router between dealers: it passes every message on to the dealer that the message names,
//! until it has seen all benchmark messages.
use vstd::prelude::*;

use crate::sender::{SenderConfig, SenderEvent, SenderStage};
use crate::zmq_helpers::{is_begin_marker, is_hello_marker};

verus! {

/// A message as the router receives it, frame by frame.
#[derive(Debug)]
pub struct Envelope {
    /// Identity of the dealer that sent the message.
    pub sender: Vec<u8>,
    /// Identity of the dealer that the message is for.
    pub destination: Vec<u8>,
    /// The message itself.
    pub payload: Vec<u8>,
}

/// A message as the router sends it, frame by frame.
#[derive(Debug)]
pub struct Forward {
    /// Identity of the dealer that gets the message.
    pub destination: Vec<u8>,
    /// The message itself.
    pub payload: Vec<u8>,
}

/// The benchmark messages among `payloads`.
pub open spec fn data_count(payloads: Seq<Seq<u8>>) -> nat
    decreases payloads.len(),
{
    if payloads.len() == 0 {
        0
    } else {
        data_count(payloads.drop_last()) + if crate::zmq_helpers::is_control(payloads.last()) {
            0nat
        } else {
            1nat
        }
    }
}

/// A router as its contracts see it.
pub struct RouterState {
    /// Benchmark messages that will come.
    pub total: nat,
    /// Benchmark messages that were forwarded.
    pub forwarded: nat,
}

impl RouterState {
    /// No more was forwarded than will come.
    pub open spec fn wf(self) -> bool {
        self.forwarded <= self.total
    }

    /// More benchmark messages will come.
    pub open spec fn pending(self) -> bool {
        self.forwarded < self.total
    }

    /// The router after a message.
    pub open spec fn after(self, payload: Seq<u8>) -> RouterState {
        RouterState {
            forwarded: if crate::zmq_helpers::is_control(payload) {
                self.forwarded
            } else {
                self.forwarded + 1
            },
            ..self
        }
    }

    /// The router after all of `payloads`, as far as it waits for them.
    pub open spec fn after_all(self, payloads: Seq<Seq<u8>>) -> RouterState
        decreases payloads.len(),
    {
        if payloads.len() == 0 {
            self
        } else {
            let before = self.after_all(payloads.drop_last());
            if before.pending() {
                before.after(payloads.last())
            } else {
                before
            }
        }
    }
}

/// A router that `num_dealers` dealers send `num_messages_per_dealer` benchmark messages each.
pub open spec fn router_for(num_dealers: nat, num_messages_per_dealer: nat) -> RouterState {
    RouterState { total: num_dealers * num_messages_per_dealer, forwarded: 0 }
}

/// A router.
pub struct Router {
    total: usize,
    forwarded: usize,
}

impl View for Router {
    type V = RouterState;

    closed spec fn view(&self) -> RouterState {
        RouterState { total: self.total as nat, forwarded: self.forwarded as nat }
    }
}

impl Router {
    /// A router that has not forwarded anything yet.
    pub fn new(num_dealers: usize, num_messages_per_dealer: usize) -> (r: Router)
        requires
            num_dealers * num_messages_per_dealer <= usize::MAX,
        ensures
            r@.wf(),
            r@ == router_for(num_dealers as nat, num_messages_per_dealer as nat),
    {
        Router { total: num_dealers * num_messages_per_dealer, forwarded: 0 }
    }

    /// Whether more benchmark messages will come.
    pub fn pending(&self) -> (r: bool)
        ensures
            r == self@.pending(),
    {
        self.forwarded < self.total
    }

    /// Takes a message and hands back what is to be sent: the message, addressed to the dealer
    /// that it names. Messages of the synchronization phase are forwarded like all others, but
    /// not counted.
    pub fn forward(&mut self, envelope: Envelope) -> (r: Forward)
        requires
            old(self)@.wf(),
            old(self)@.pending(),
        ensures
            final(self)@.wf(),
            final(self)@ == old(self)@.after(envelope.payload@),
            r.destination == envelope.destination,
            r.payload == envelope.payload,
    {
        let control: bool = is_hello_marker(envelope.payload.as_slice()) || is_begin_marker(
            envelope.payload.as_slice(),
        );
        if !control {
            self.forwarded = self.forwarded + 1;
        }
        Forward { destination: envelope.destination, payload: envelope.payload }
    }
}

/// The high-water mark of the router: room for the benchmark messages of all dealers, and
/// headroom for the messages of the synchronization phase.
pub fn router_hwm(num_dealers: usize, num_messages_per_dealer: usize) -> (r: i32)
    requires
        num_dealers * num_messages_per_dealer + crate::zmq_helpers::HWM_HEADROOM <= usize::MAX,
    ensures
        r == (num_dealers * num_messages_per_dealer + crate::zmq_helpers::HWM_HEADROOM) as i32,
        num_dealers * num_messages_per_dealer + crate::zmq_helpers::HWM_HEADROOM <= i32::MAX ==> r
            == num_dealers * num_messages_per_dealer + crate::zmq_helpers::HWM_HEADROOM,
{
    crate::zmq_helpers::hwm(num_dealers * num_messages_per_dealer)
}

/// Whether the benchmark messages of all dealers together can be counted.
pub fn is_countable(num_dealers: usize, num_messages_per_dealer: usize) -> (r: bool)
    ensures
        r == (num_dealers * num_messages_per_dealer <= usize::MAX),
{
    num_dealers.checked_mul(num_messages_per_dealer).is_some()
}

/// Whether there is a high-water mark for the benchmark messages of all dealers.
pub fn has_router_mark(num_dealers: usize, num_messages_per_dealer: usize) -> (r: bool)
    ensures
        r == (num_dealers * num_messages_per_dealer + crate::zmq_helpers::HWM_HEADROOM
            <= usize::MAX),
{
    match num_dealers.checked_mul(num_messages_per_dealer) {
        Some(total) => crate::zmq_helpers::has_mark(total),
        None => false,
    }
}

/// While the router waits it has counted exactly the benchmark messages that came, and it stops
/// waiting with the last one that is to come, however many control messages are in between.
pub proof fn router_counts_data(start: RouterState, payloads: Seq<Seq<u8>>)
    requires
        start.forwarded == 0,
    ensures
        start.after_all(payloads).total == start.total,
        start.after_all(payloads).forwarded == crate::zmq_helpers::smaller(
            start.total,
            data_count(payloads),
        ),
        start.after_all(payloads).pending() <==> data_count(payloads) < start.total,
    decreases payloads.len(),
{
    if payloads.len() > 0 {
        router_counts_data(start, payloads.drop_last());
    }
}

proof fn lemma_data_count_concat(a: Seq<Seq<u8>>, b: Seq<Seq<u8>>)
    ensures
        data_count(a + b) == data_count(a) + data_count(b),
    decreases b.len(),
{
    if b.len() == 0 {
        assert(a + b =~= a);
    } else {
        assert((a + b).drop_last() =~= a + b.drop_last());
        lemma_data_count_concat(a, b.drop_last());
    }
}

proof fn lemma_data_count_uniform(payloads: Seq<Seq<u8>>, control: bool)
    requires
        forall|i: int|
            0 <= i < payloads.len() ==> crate::zmq_helpers::is_control(#[trigger] payloads[i])
                == control,
    ensures
        data_count(payloads) == if control {
            0
        } else {
            payloads.len()
        },
    decreases payloads.len(),
{
    if payloads.len() > 0 {
        let earlier = payloads.drop_last();
        assert forall|i: int| 0 <= i < earlier.len() implies crate::zmq_helpers::is_control(
            #[trigger] earlier[i],
        ) == control by {
            assert(earlier[i] == payloads[i]);
        }
        lemma_data_count_uniform(earlier, control);
        assert(payloads.last() == payloads[payloads.len() - 1]);
    }
}

/// No reading of the clock is one of the markers.
pub open spec fn no_marker_among(clocks: Seq<u64>) -> bool {
    forall|i: int|
        0 <= i < clocks.len() ==> #[trigger] clocks[i] != crate::zmq_helpers::HELLO_MARKER
            && clocks[i] != crate::zmq_helpers::BEGIN_BENCHMARK_MARKER
}

/// What a finished sender has sent counts as many benchmark messages as it was told to send: its
/// greeting does not count.
pub proof fn sender_is_counted_right(
    config: SenderConfig,
    payload_size: nat,
    events: Seq<SenderEvent>,
)
    requires
        config.valid_for(payload_size),
        config.initial(payload_size).expects_all(events),
        config.initial(payload_size).after_all(events).stage == SenderStage::Finished,
        no_marker_among(crate::sender::clock_readings(events)),
    ensures
        data_count(config.initial(payload_size).transcript(events)) == config.num_messages,
{
    let body = Seq::new(payload_size, |i: int| 0u8);
    let clocks = crate::sender::clock_readings(events);
    let preamble = crate::sender::preamble(config, body, events);
    let data = crate::sender::data_messages(body, clocks);
    crate::sender::finished_sender_has_sent_everything(config, payload_size, events);
    lemma_data_count_concat(preamble, data);
    if config.handshake {
        crate::zmq_helpers::stamp_decides_kind(body, crate::zmq_helpers::HELLO_MARKER);
        crate::zmq_helpers::stamp_decides_kind(body, crate::zmq_helpers::BEGIN_BENCHMARK_MARKER);
    }
    lemma_data_count_uniform(preamble, true);
    assert forall|i: int| 0 <= i < data.len() implies !crate::zmq_helpers::is_control(
        #[trigger] data[i],
    ) by {
        crate::zmq_helpers::stamp_decides_kind(body, clocks[i]);
    }
    lemma_data_count_uniform(data, false);
}

/// A message on its way to the router, with the number of the dealer that it comes from.
pub struct Routed {
    pub dealer: nat,
    pub payload: Seq<u8>,
}

/// The messages in the order in which the router gets them.
pub open spec fn payloads_of(messages: Seq<Routed>) -> Seq<Seq<u8>> {
    Seq::new(messages.len(), |i: int| messages[i].payload)
}

/// The messages of one dealer, in the order in which the router gets them.
pub open spec fn payloads_from(messages: Seq<Routed>, dealer: nat) -> Seq<Seq<u8>>
    decreases messages.len(),
{
    if messages.len() == 0 {
        Seq::empty()
    } else {
        let earlier = payloads_from(messages.drop_last(), dealer);
        if messages.last().dealer == dealer {
            earlier.push(messages.last().payload)
        } else {
            earlier
        }
    }
}

/// The benchmark messages of the dealers below `n`.
pub open spec fn data_from_below(messages: Seq<Routed>, n: nat) -> nat
    decreases n,
{
    if n == 0 {
        0
    } else {
        data_from_below(messages, (n - 1) as nat) + data_count(
            payloads_from(messages, (n - 1) as nat),
        )
    }
}

proof fn lemma_data_from_below_push(messages: Seq<Routed>, n: nat)
    requires
        messages.len() > 0,
    ensures
        data_from_below(messages, n) == data_from_below(messages.drop_last(), n) + if messages.last(
        ).dealer < n && !crate::zmq_helpers::is_control(messages.last().payload) {
            1nat
        } else {
            0nat
        },
    decreases n,
{
    if n > 0 {
        lemma_data_from_below_push(messages, (n - 1) as nat);
        let dealer = (n - 1) as nat;
        let earlier = payloads_from(messages.drop_last(), dealer);
        if messages.last().dealer == dealer {
            assert(earlier.push(messages.last().payload).drop_last() =~= earlier);
        }
    }
}

proof fn lemma_data_from_none(n: nat)
    ensures
        data_from_below(Seq::empty(), n) == 0,
    decreases n,
{
    if n > 0 {
        lemma_data_from_none((n - 1) as nat);
    }
}

/// The benchmark messages of all dealers together are those of each of them.
proof fn lemma_data_by_dealer(messages: Seq<Routed>, n: nat)
    requires
        forall|i: int| 0 <= i < messages.len() ==> (#[trigger] messages[i]).dealer < n,
    ensures
        data_count(payloads_of(messages)) == data_from_below(messages, n),
    decreases messages.len(),
{
    if messages.len() == 0 {
        assert(messages =~= Seq::empty());
        lemma_data_from_none(n);
    } else {
        let earlier = messages.drop_last();
        assert forall|i: int| 0 <= i < earlier.len() implies (#[trigger] earlier[i]).dealer < n by {
            assert(earlier[i] == messages[i]);
        }
        lemma_data_by_dealer(earlier, n);
        lemma_data_from_below_push(messages, n);
        assert(payloads_of(messages).drop_last() =~= payloads_of(earlier));
        assert(messages.last() == messages[messages.len() - 1]);
    }
}

proof fn lemma_equal_shares(messages: Seq<Routed>, n: nat, share: nat)
    requires
        forall|d: nat| d < n ==> data_count(#[trigger] payloads_from(messages, d)) == share,
    ensures
        data_from_below(messages, n) == n * share,
    decreases n,
{
    if n > 0 {
        lemma_equal_shares(messages, (n - 1) as nat, share);
        assert(data_count(payloads_from(messages, (n - 1) as nat)) == share);
        assert(n * share == (n - 1) * share + share) by (nonlinear_arith);
    } else {
        assert(n * share == 0) by (nonlinear_arith)
            requires
                n == 0,
        ;
    }
}

proof fn lemma_data_count_of_prefix(payloads: Seq<Seq<u8>>, k: int)
    requires
        0 <= k <= payloads.len(),
    ensures
        data_count(payloads.take(k)) <= data_count(payloads),
    decreases payloads.len(),
{
    if k == payloads.len() {
        assert(payloads.take(k) =~= payloads);
    } else {
        assert(payloads.take(k) =~= payloads.drop_last().take(k));
        lemma_data_count_of_prefix(payloads.drop_last(), k);
    }
}

/// The last message of a sender that sends any benchmark messages is one of them.
proof fn lemma_last_is_data(config: SenderConfig, payload_size: nat, events: Seq<SenderEvent>)
    requires
        config.valid_for(payload_size),
        config.num_messages > 0,
        config.initial(payload_size).expects_all(events),
        config.initial(payload_size).after_all(events).stage == SenderStage::Finished,
        no_marker_among(crate::sender::clock_readings(events)),
    ensures
        config.initial(payload_size).transcript(events).len() > 0,
        !crate::zmq_helpers::is_control(config.initial(payload_size).transcript(events).last()),
{
    let body = Seq::new(payload_size, |i: int| 0u8);
    let clocks = crate::sender::clock_readings(events);
    crate::sender::finished_sender_has_sent_everything(config, payload_size, events);
    crate::zmq_helpers::stamp_decides_kind(body, clocks[clocks.len() - 1]);
    assert(config.initial(payload_size).transcript(events).last() == crate::sender::data_messages(
        body,
        clocks,
    ).last());
}

/// However the messages of the dealers interleave, the router is done when it has forwarded what
/// all of them sent, and not before the last benchmark message. Where the dealers send benchmark
/// messages at all, it still waits when each of the messages comes, so that none is left over.
pub proof fn router_serves_every_dealer(
    senders: Seq<SenderConfig>,
    payload_size: nat,
    events: Seq<Seq<SenderEvent>>,
    num_messages: nat,
    messages: Seq<Routed>,
)
    requires
        events.len() == senders.len(),
        forall|d: nat|
            #![trigger payloads_from(messages, d)]
            d < senders.len() ==> {
                let start = senders[d as int].initial(payload_size);
                &&& senders[d as int].valid_for(payload_size)
                &&& senders[d as int].num_messages == num_messages
                &&& start.expects_all(events[d as int])
                &&& start.after_all(events[d as int]).stage == SenderStage::Finished
                &&& no_marker_among(crate::sender::clock_readings(events[d as int]))
                &&& payloads_from(messages, d) == start.transcript(events[d as int])
            },
        forall|i: int| 0 <= i < messages.len() ==> (#[trigger] messages[i]).dealer < senders.len(),
    ensures
        ({
            let router = router_for(senders.len(), num_messages);
            let payloads = payloads_of(messages);
            &&& !router.after_all(payloads).pending()
            &&& router.after_all(payloads).forwarded == data_count(payloads)
            &&& forall|k: int|
                0 <= k <= payloads.len() && data_count(payloads.take(k)) < data_count(payloads)
                    ==> #[trigger] router.after_all(payloads.take(k)).pending()
            &&& num_messages > 0 ==> forall|k: int|
                0 <= k < payloads.len() ==> #[trigger] router.after_all(payloads.take(k)).pending()
        }),
{
    let n = senders.len();
    let payloads = payloads_of(messages);
    let router = router_for(n, num_messages);
    assert forall|d: nat| d < n implies data_count(#[trigger] payloads_from(messages, d))
        == num_messages by {
        assert(payloads_from(messages, d) == senders[d as int].initial(payload_size).transcript(
            events[d as int],
        ));
        sender_is_counted_right(senders[d as int], payload_size, events[d as int]);
    }
    lemma_equal_shares(messages, n, num_messages);
    lemma_data_by_dealer(messages, n);
    router_counts_data(router, payloads);
    assert forall|k: int|
        0 <= k <= payloads.len() && data_count(payloads.take(k)) < data_count(
            payloads,
        ) implies #[trigger] router.after_all(payloads.take(k)).pending() by {
        router_counts_data(router, payloads.take(k));
    }
    if num_messages > 0 && messages.len() > 0 {
        let d = messages.last().dealer;
        assert(messages.last() == messages[messages.len() - 1]);
        assert(payloads_from(messages, d) == senders[d as int].initial(payload_size).transcript(
            events[d as int],
        ));
        lemma_last_is_data(senders[d as int], payload_size, events[d as int]);
        assert(payloads.last() == payloads_from(messages, d).last());
        assert forall|k: int| 0 <= k < payloads.len() implies #[trigger] router.after_all(
            payloads.take(k),
        ).pending() by {
            assert(payloads.take(k) =~= payloads.drop_last().take(k));
            lemma_data_count_of_prefix(payloads.drop_last(), k);
        }
    }
}

/// Each message counts for itself, in whatever order and grouping: one that starts with a marker
/// for nothing, and every other one for one.
pub proof fn messages_count_for_themselves(a: Seq<Seq<u8>>, b: Seq<Seq<u8>>, payload: Seq<u8>)
    ensures
        data_count(a + b) == data_count(a) + data_count(b),
        data_count(seq![payload]) == if crate::zmq_helpers::is_hello(payload)
            || crate::zmq_helpers::is_begin(payload) {
            0
        } else {
            1nat
        },
        data_count(Seq::empty()) == 0,
{
    lemma_data_count_concat(a, b);
    reveal_with_fuel(data_count, 2);
    assert(seq![payload].drop_last() =~= Seq::empty());
}

/// A router waits until it has seen as many benchmark messages as all dealers send together, and
/// no longer: that is the number of dealers times the number of messages of each.
pub proof fn router_waits_for_all_dealers(
    num_dealers: nat,
    num_messages: nat,
    payloads: Seq<Seq<u8>>,
)
    ensures
        router_for(num_dealers, num_messages).after_all(payloads).pending() <==> data_count(
            payloads,
        ) < num_dealers * num_messages,
{
    router_counts_data(router_for(num_dealers, num_messages), payloads);
}

/// The messages of one dealer are picked out in their order: a further message is added to those of
/// its own dealer, and changes nothing for the others.
pub proof fn messages_are_told_apart(messages: Seq<Routed>, next: Routed, dealer: nat)
    ensures
        payloads_from(Seq::empty(), dealer).len() == 0,
        next.dealer == dealer ==> payloads_from(messages.push(next), dealer) == payloads_from(
            messages,
            dealer,
        ).push(next.payload),
        next.dealer != dealer ==> payloads_from(messages.push(next), dealer) == payloads_from(
            messages,
            dealer,
        ),
        payloads_of(messages.push(next)) == payloads_of(messages).push(next.payload),
{
    assert(messages.push(next).drop_last() =~= messages);
    assert(payloads_of(messages.push(next)) =~= payloads_of(messages).push(next.payload));
}

} // verus!
