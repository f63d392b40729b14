//! What a sender and a receiver achieve together.
use vstd::prelude::*;

use crate::dealerrouter_dealer;
use crate::receiver::{Arrival, ReceiverConfig, ReceiverPhase, ReceiverState};
use crate::roles::{CoordinatorState, Verdict};
use crate::router::Routed;
use crate::sender::{SenderConfig, SenderEvent, SenderStage};

verus! {

/// The messages of a run before its first benchmark message.
pub open spec fn preamble_len(config: SenderConfig, events: Seq<SenderEvent>) -> nat {
    crate::sender::hellos_sent(config, events) + 1
}

/// A receiver that gets what a finished sender has sent, in that order, has drained the greeting
/// and nothing but the greeting when the begin marker has passed. The first hello was passed on
/// and no other, the begin marker was passed on, and every message was answered where the
/// receiver answers.
pub proof fn greeting_is_drained(
    sender: SenderConfig,
    payload_size: nat,
    events: Seq<SenderEvent>,
    receiver: ReceiverConfig,
)
    requires
        sender.handshake,
        sender.valid_for(payload_size),
        sender.initial(payload_size).expects_all(events),
        sender.initial(payload_size).after_all(events).stage == SenderStage::Finished,
        receiver.drain,
    ensures
        ({
            let wire = sender.initial(payload_size).transcript(events);
            let drained = receiver.initial().after_all_drained(wire);
            let outcomes = receiver.initial().drain_outcomes(wire);
            &&& wire.len() == preamble_len(sender, events) + sender.num_messages
            &&& drained == (ReceiverState {
                hello_pending: false,
                begin_pending: false,
                ..receiver.initial()
            }).collecting()
            &&& outcomes.len() == preamble_len(sender, events)
            &&& outcomes.first().ack_hello == receiver.hello_ack
            &&& outcomes.last().ack_begin == receiver.begin_ack
            &&& forall|i: int|
                0 <= i < outcomes.len() ==> (#[trigger] outcomes[i]).reply == receiver.replies
            &&& forall|i: int| 1 <= i < outcomes.len() ==> !(#[trigger] outcomes[i]).ack_hello
            &&& crate::zmq_helpers::is_hello(wire[0])
            &&& crate::zmq_helpers::is_begin(wire[preamble_len(sender, events) - 1])
        }),
{
    let body = Seq::new(payload_size, |i: int| 0u8);
    let wire = sender.initial(payload_size).transcript(events);
    let hellos = crate::sender::hellos_sent(sender, events);
    crate::sender::finished_sender_has_sent_everything(sender, payload_size, events);
    crate::zmq_helpers::stamp_decides_kind(body, crate::zmq_helpers::HELLO_MARKER);
    crate::zmq_helpers::stamp_decides_kind(body, crate::zmq_helpers::BEGIN_BENCHMARK_MARKER);
    assert forall|j: int| 0 <= j < hellos implies !crate::zmq_helpers::is_begin(
        #[trigger] wire[j],
    ) && crate::zmq_helpers::is_hello(wire[j]) by {
        assert(wire[j] == crate::sender::hellos(body, hellos)[j]);
    }
    assert(wire[hellos as int] == crate::zmq_helpers::stamped(
        body,
        crate::zmq_helpers::BEGIN_BENCHMARK_MARKER,
    ));
    assert(crate::zmq_helpers::is_hello(wire[0]));
    crate::receiver::drain_ends_at_begin(receiver, wire, hellos as int);
}

/// Where both sides use replies there is one for each message that awaits one: the sender has
/// received as many replies when it has finished as the receiver has sent.
pub proof fn replies_match(
    sender: SenderConfig,
    payload_size: nat,
    events: Seq<SenderEvent>,
    receiver: ReceiverConfig,
)
    requires
        sender.handshake,
        sender.replies,
        sender.valid_for(payload_size),
        sender.initial(payload_size).expects_all(events),
        sender.initial(payload_size).after_all(events).stage == SenderStage::Finished,
        receiver.drain,
        receiver.replies,
    ensures
        ({
            let start = sender.initial(payload_size);
            let outcomes = receiver.initial().drain_outcomes(start.transcript(events));
            &&& crate::sender::replies_received(start, events) == outcomes.len()
            &&& forall|i: int| 0 <= i < outcomes.len() ==> (#[trigger] outcomes[i]).reply
        }),
{
    greeting_is_drained(sender, payload_size, events, receiver);
    crate::sender::sender_awaits_one_reply_each(sender, payload_size, events);
}

/// Every message that a sender stamps with its clock is measured, and nothing else is: the
/// receiver ends with exactly as many latencies as there are benchmark messages, and each of them
/// is the time between the timestamp of its message and its arrival.
pub proof fn every_benchmark_message_is_measured(
    sender: SenderConfig,
    payload_size: nat,
    events: Seq<SenderEvent>,
    receiver: ReceiverConfig,
    arrivals: Seq<Arrival>,
)
    requires
        sender.handshake,
        sender.valid_for(payload_size),
        sender.initial(payload_size).expects_all(events),
        sender.initial(payload_size).after_all(events).stage == SenderStage::Finished,
        receiver.drain,
        receiver.num_messages == sender.num_messages,
        arrivals.len() == sender.num_messages,
        forall|i: int|
            #![trigger arrivals[i]]
            0 <= i < arrivals.len() ==> {
                &&& arrivals[i].message == sender.initial(payload_size).transcript(
                    events,
                )[preamble_len(sender, events) + i]
                &&& arrivals[i].clock >= crate::sender::clock_readings(events)[i]
            },
    ensures
        ({
            let wire = sender.initial(payload_size).transcript(events);
            let clocks = crate::sender::clock_readings(events);
            let end = receiver.initial().after_all_drained(wire).after_all_collected(arrivals);
            &&& end.phase == ReceiverPhase::Finished
            &&& end.latencies.len() == sender.num_messages
            &&& forall|i: int|
                0 <= i < sender.num_messages ==> #[trigger] end.latencies[i] == arrivals[i].clock
                    - clocks[i]
        }),
{
    let body = Seq::new(payload_size, |i: int| 0u8);
    let wire = sender.initial(payload_size).transcript(events);
    let clocks = crate::sender::clock_readings(events);
    greeting_is_drained(sender, payload_size, events, receiver);
    crate::sender::finished_sender_has_sent_everything(sender, payload_size, events);
    let drained = receiver.initial().after_all_drained(wire);
    if sender.num_messages > 0 {
        assert forall|i: int| 0 <= i < arrivals.len() implies ReceiverState::measurable(
            #[trigger] arrivals[i],
        ) && crate::zmq_helpers::header(arrivals[i].message) == clocks[i] by {
            assert(arrivals[i].message == crate::sender::data_messages(body, clocks)[i]);
            crate::zmq_helpers::stamp_is_read_back(body, clocks[i]);
        }
        crate::receiver::collection_is_exact(drained, arrivals);
        let end = drained.after_all_collected(arrivals);
        assert forall|i: int| 0 <= i < sender.num_messages implies #[trigger] end.latencies[i]
            == arrivals[i].clock - clocks[i] by {
            assert(ReceiverState::measurable(arrivals[i]));
        }
    }
}

/// Behind a proxy, where barriers stand in for the handshake, every message is a benchmark message
/// and is measured: the receiver ends with exactly as many latencies as the sender has sent
/// messages.
pub proof fn every_proxied_message_is_measured(
    sender: SenderConfig,
    payload_size: nat,
    events: Seq<SenderEvent>,
    receiver: ReceiverConfig,
    arrivals: Seq<Arrival>,
)
    requires
        !sender.handshake,
        sender.valid_for(payload_size),
        sender.initial(payload_size).expects_all(events),
        sender.initial(payload_size).after_all(events).stage == SenderStage::Finished,
        !receiver.drain,
        receiver.num_messages == sender.num_messages,
        arrivals.len() == sender.num_messages,
        forall|i: int|
            #![trigger arrivals[i]]
            0 <= i < arrivals.len() ==> {
                &&& arrivals[i].message == sender.initial(payload_size).transcript(events)[i]
                &&& arrivals[i].clock >= crate::sender::clock_readings(events)[i]
            },
    ensures
        ({
            let clocks = crate::sender::clock_readings(events);
            let end = receiver.initial().after_all_collected(arrivals);
            &&& sender.initial(payload_size).transcript(events).len() == sender.num_messages
            &&& end.phase == ReceiverPhase::Finished
            &&& end.latencies.len() == sender.num_messages
            &&& forall|i: int|
                0 <= i < sender.num_messages ==> #[trigger] end.latencies[i] == arrivals[i].clock
                    - clocks[i]
        }),
{
    let body = Seq::new(payload_size, |i: int| 0u8);
    let clocks = crate::sender::clock_readings(events);
    crate::sender::finished_sender_has_sent_everything(sender, payload_size, events);
    if sender.num_messages > 0 {
        assert forall|i: int| 0 <= i < arrivals.len() implies ReceiverState::measurable(
            #[trigger] arrivals[i],
        ) && crate::zmq_helpers::header(arrivals[i].message) == clocks[i] by {
            assert(arrivals[i].message == crate::sender::data_messages(body, clocks)[i]);
            crate::zmq_helpers::stamp_is_read_back(body, clocks[i]);
        }
        crate::receiver::collection_is_exact(receiver.initial(), arrivals);
        let end = receiver.initial().after_all_collected(arrivals);
        assert forall|i: int| 0 <= i < sender.num_messages implies #[trigger] end.latencies[i]
            == arrivals[i].clock - clocks[i] by {
            assert(ReceiverState::measurable(arrivals[i]));
        }
    }
}

/// The messages that a router sends to the socket named `identity`, where `num_dealers` dealers
/// around it send to their successors.
pub open spec fn delivered(
    messages: Seq<Routed>,
    num_dealers: nat,
    identity: Seq<char>,
) -> Seq<Seq<u8>>
    decreases messages.len(),
{
    if messages.len() == 0 {
        Seq::empty()
    } else {
        let earlier = delivered(messages.drop_last(), num_dealers, identity);
        if dealerrouter_dealer::target_identity(messages.last().dealer, num_dealers) == identity {
            earlier.push(messages.last().payload)
        } else {
            earlier
        }
    }
}

/// A dealer around a router receives everything that its predecessor has sent, in that order, and
/// nothing else, however the messages of the dealers interleave.
pub proof fn dealers_hear_their_predecessor(
    messages: Seq<Routed>,
    num_dealers: nat,
    dealer: nat,
)
    requires
        dealer < num_dealers,
        forall|i: int| 0 <= i < messages.len() ==> (#[trigger] messages[i]).dealer < num_dealers,
    ensures
        delivered(
            messages,
            num_dealers,
            dealerrouter_dealer::target_identity(dealer, num_dealers),
        ) == crate::router::payloads_from(messages, dealer),
    decreases messages.len(),
{
    if messages.len() > 0 {
        let earlier = messages.drop_last();
        assert forall|i: int| 0 <= i < earlier.len() implies (#[trigger] earlier[i]).dealer
            < num_dealers by {
            assert(earlier[i] == messages[i]);
        }
        dealers_hear_their_predecessor(earlier, num_dealers, dealer);
        let other = messages[messages.len() - 1].dealer;
        if dealerrouter_dealer::target_identity(other, num_dealers)
            == dealerrouter_dealer::target_identity(dealer, num_dealers) {
            dealerrouter_dealer::identities_differ(
                dealerrouter_dealer::target_number(other, num_dealers),
                dealerrouter_dealer::target_number(dealer, num_dealers),
            );
            dealerrouter_dealer::dealers_form_a_ring(num_dealers, dealer);
        }
    }
}

/// Around a router, too, every message that a dealer stamps with its clock is measured by the next
/// dealer, and nothing else is.
pub proof fn ring_measures_every_message(
    sender: SenderConfig,
    payload_size: nat,
    events: Seq<SenderEvent>,
    messages: Seq<Routed>,
    num_dealers: nat,
    dealer: nat,
    receiver: ReceiverConfig,
    arrivals: Seq<Arrival>,
)
    requires
        sender.handshake,
        sender.valid_for(payload_size),
        sender.initial(payload_size).expects_all(events),
        sender.initial(payload_size).after_all(events).stage == SenderStage::Finished,
        dealer < num_dealers,
        forall|i: int| 0 <= i < messages.len() ==> (#[trigger] messages[i]).dealer < num_dealers,
        crate::router::payloads_from(messages, dealer) == sender.initial(payload_size).transcript(
            events,
        ),
        receiver.drain,
        receiver.num_messages == sender.num_messages,
        arrivals.len() == sender.num_messages,
        forall|i: int|
            #![trigger arrivals[i]]
            0 <= i < arrivals.len() ==> {
                &&& arrivals[i].message == delivered(
                    messages,
                    num_dealers,
                    dealerrouter_dealer::target_identity(dealer, num_dealers),
                )[preamble_len(sender, events) + i]
                &&& arrivals[i].clock >= crate::sender::clock_readings(events)[i]
            },
    ensures
        ({
            let wire = delivered(
                messages,
                num_dealers,
                dealerrouter_dealer::target_identity(dealer, num_dealers),
            );
            let clocks = crate::sender::clock_readings(events);
            let end = receiver.initial().after_all_drained(wire).after_all_collected(arrivals);
            &&& end.phase == ReceiverPhase::Finished
            &&& end.latencies.len() == sender.num_messages
            &&& forall|i: int|
                0 <= i < sender.num_messages ==> #[trigger] end.latencies[i] == arrivals[i].clock
                    - clocks[i]
        }),
{
    dealers_hear_their_predecessor(messages, num_dealers, dealer);
    every_benchmark_message_is_measured(sender, payload_size, events, receiver, arrivals);
}

/// How often a receiver that has drained `messages` has told of a hello.
pub open spec fn hello_acks(config: ReceiverConfig, messages: Seq<Seq<u8>>) -> nat
    decreases messages.len(),
{
    if messages.len() == 0 {
        0
    } else {
        let before = config.initial().after_all_drained(messages.drop_last());
        hello_acks(config, messages.drop_last()) + if before.phase == ReceiverPhase::Draining
            && before.drain_outcome(messages.last()).ack_hello {
            1nat
        } else {
            0nat
        }
    }
}

/// How often several receivers have told of a hello, all of them together.
pub open spec fn all_hello_acks(
    configs: Seq<ReceiverConfig>,
    messages: Seq<Seq<Seq<u8>>>,
) -> nat
    decreases configs.len(),
{
    if configs.len() == 0 {
        0
    } else {
        all_hello_acks(configs.drop_last(), messages.drop_last()) + hello_acks(
            configs.last(),
            messages.last(),
        )
    }
}

/// There is a hello among `messages`.
pub open spec fn has_hello(messages: Seq<Seq<u8>>) -> bool {
    exists|i: int| 0 <= i < messages.len() && crate::zmq_helpers::is_hello(#[trigger] messages[i])
}

proof fn lemma_hello_acks(config: ReceiverConfig, messages: Seq<Seq<u8>>)
    ensures
        hello_acks(config, messages) == if config.hello_ack
            && !config.initial().after_all_drained(messages).hello_pending {
            1
        } else {
            0nat
        },
        config.initial().after_all_drained(messages).hello_pending ==> config.hello_ack,
        hello_acks(config, messages) > 0 ==> has_hello(messages),
    decreases messages.len(),
{
    if messages.len() > 0 {
        let earlier = messages.drop_last();
        lemma_hello_acks(config, earlier);
        if hello_acks(config, messages) > 0 {
            if hello_acks(config, earlier) > 0 {
                let i = choose|i: int|
                    0 <= i < earlier.len() && crate::zmq_helpers::is_hello(#[trigger] earlier[i]);
                assert(crate::zmq_helpers::is_hello(messages[i]));
            } else {
                assert(crate::zmq_helpers::is_hello(messages[messages.len() - 1]));
            }
        }
    }
}

proof fn lemma_all_acks(configs: Seq<ReceiverConfig>, messages: Seq<Seq<Seq<u8>>>)
    requires
        configs.len() == messages.len(),
    ensures
        all_hello_acks(configs, messages) <= configs.len(),
        all_hello_acks(configs, messages) == configs.len() ==> forall|i: int|
            0 <= i < messages.len() ==> has_hello(#[trigger] messages[i]),
    decreases configs.len(),
{
    if configs.len() > 0 {
        lemma_all_acks(configs.drop_last(), messages.drop_last());
        lemma_hello_acks(configs.last(), messages.last());
        if all_hello_acks(configs, messages) == configs.len() {
            assert forall|i: int| 0 <= i < messages.len() implies has_hello(
                #[trigger] messages[i],
            ) by {
                if i < messages.len() - 1 {
                    assert(messages.drop_last()[i] == messages[i]);
                }
            }
        }
    }
}

/// The greeting of a run goes on until every receiver has got a hello: a coordinator that waits
/// for as many receivers as there are does not act before each of them has drained one.
pub proof fn greeting_lasts_until_all_have_heard(
    configs: Seq<ReceiverConfig>,
    messages: Seq<Seq<Seq<u8>>>,
)
    requires
        configs.len() == messages.len(),
        crate::roles::heard_of(
            CoordinatorState { missing: configs.len(), late: false },
            all_hello_acks(configs, messages),
        ).verdict() == Verdict::Act,
    ensures
        forall|i: int| 0 <= i < messages.len() ==> has_hello(#[trigger] messages[i]),
{
    lemma_all_acks(configs, messages);
    crate::roles::coordinator_waits_for_everybody(
        configs.len(),
        all_hello_acks(configs, messages),
    );
}

/// How often a receiver that has drained `messages` has told of the begin marker.
pub open spec fn begin_acks(config: ReceiverConfig, messages: Seq<Seq<u8>>) -> nat
    decreases messages.len(),
{
    if messages.len() == 0 {
        0
    } else {
        let before = config.initial().after_all_drained(messages.drop_last());
        begin_acks(config, messages.drop_last()) + if before.phase == ReceiverPhase::Draining
            && before.drain_outcome(messages.last()).ack_begin {
            1nat
        } else {
            0nat
        }
    }
}

/// How often several receivers have told of the begin marker, all of them together.
pub open spec fn all_begin_acks(
    configs: Seq<ReceiverConfig>,
    messages: Seq<Seq<Seq<u8>>>,
) -> nat
    decreases configs.len(),
{
    if configs.len() == 0 {
        0
    } else {
        all_begin_acks(configs.drop_last(), messages.drop_last()) + begin_acks(
            configs.last(),
            messages.last(),
        )
    }
}

/// A receiver is past the synchronization phase.
pub open spec fn has_begun(config: ReceiverConfig, messages: Seq<Seq<u8>>) -> bool {
    config.initial().after_all_drained(messages).phase != ReceiverPhase::Draining
}

proof fn lemma_begin_acks(config: ReceiverConfig, messages: Seq<Seq<u8>>)
    ensures
        begin_acks(config, messages) <= 1,
        begin_acks(config, messages) > 0 ==> has_begun(config, messages),
    decreases messages.len(),
{
    if messages.len() > 0 {
        lemma_begin_acks(config, messages.drop_last());
        crate::zmq_helpers::markers_are_distinct(messages.last());
    }
}

proof fn lemma_all_begin_acks(configs: Seq<ReceiverConfig>, messages: Seq<Seq<Seq<u8>>>)
    requires
        configs.len() == messages.len(),
    ensures
        all_begin_acks(configs, messages) <= configs.len(),
        all_begin_acks(configs, messages) == configs.len() ==> forall|i: int|
            0 <= i < messages.len() ==> has_begun(configs[i], #[trigger] messages[i]),
    decreases configs.len(),
{
    if configs.len() > 0 {
        lemma_all_begin_acks(configs.drop_last(), messages.drop_last());
        lemma_begin_acks(configs.last(), messages.last());
        if all_begin_acks(configs, messages) == configs.len() {
            assert forall|i: int| 0 <= i < messages.len() implies has_begun(
                configs[i],
                #[trigger] messages[i],
            ) by {
                if i < messages.len() - 1 {
                    assert(messages.drop_last()[i] == messages[i]);
                    assert(configs.drop_last()[i] == configs[i]);
                }
            }
        }
    }
}

/// Benchmark messages that wait for their release find every receiver ready for them: a
/// coordinator that waits to hear of as many begin markers as there are receivers does not act
/// before each of them is past the synchronization phase.
pub proof fn release_waits_until_all_have_begun(
    configs: Seq<ReceiverConfig>,
    messages: Seq<Seq<Seq<u8>>>,
)
    requires
        configs.len() == messages.len(),
        crate::roles::heard_of(
            CoordinatorState { missing: configs.len(), late: false },
            all_begin_acks(configs, messages),
        ).verdict() == Verdict::Act,
    ensures
        forall|i: int| 0 <= i < messages.len() ==> has_begun(configs[i], #[trigger] messages[i]),
{
    lemma_all_begin_acks(configs, messages);
    crate::roles::coordinator_waits_for_everybody(
        configs.len(),
        all_begin_acks(configs, messages),
    );
}

} // verus!
