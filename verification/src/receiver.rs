//! The receiving side of a benchmark: drain the messages of the synchronization phase up to the
//! begin marker, then collect exactly as many benchmark messages as there are to be.
//!
//! A [`Receiver`] is told of every message and every failure to receive one, and decides what
//! comes of it; its owner does the receiving.
use vstd::prelude::*;

use crate::zmq_helpers::{extract_timestamp, is_begin_marker, is_hello_marker};

verus! {

/// How a receiver behaves.
#[derive(Debug, Clone, Copy, PartialEq, Eq)]
pub struct ReceiverConfig {
    /// Benchmark messages to collect.
    pub num_messages: usize,
    /// Whether messages of a synchronization phase come before the benchmark messages.
    pub drain: bool,
    /// Whether every message of the synchronization phase is answered.
    pub replies: bool,
    /// Whether somebody waits to hear of the first hello.
    pub hello_ack: bool,
    /// Whether somebody waits to hear of the begin marker.
    pub begin_ack: bool,
    /// Whether a failure to receive ends the synchronization phase, and not the whole run.
    pub drain_failure_ends_drain: bool,
    /// Whether a failure to receive ends the collection, and not the whole run.
    pub collect_failure_ends_collection: bool,
}

/// What a receiver is at.
#[derive(Debug, Clone, Copy, PartialEq, Eq)]
pub enum ReceiverPhase {
    /// Messages are part of the synchronization phase.
    Draining,
    /// Messages are benchmark messages.
    Collecting,
    /// No more messages are needed.
    Finished,
}

/// What comes of a message of the synchronization phase, in this order.
#[derive(Debug, Clone, Copy, PartialEq, Eq)]
pub struct DrainOutcome {
    /// Tell whoever waits for it that a hello has come.
    pub ack_hello: bool,
    /// Tell whoever waits for it that the begin marker has come.
    pub ack_begin: bool,
    /// Answer the message.
    pub reply: bool,
}

/// A receiver as its contracts see it.
#[verifier::ext_equal]
pub struct ReceiverState {
    pub config: ReceiverConfig,
    pub phase: ReceiverPhase,
    /// Nobody has been told of a hello yet, and somebody waits for it.
    pub hello_pending: bool,
    /// Nobody has been told of the begin marker yet, and somebody waits for it.
    pub begin_pending: bool,
    /// Clock ticks between the timestamp and the reception of each benchmark message.
    pub latencies: Seq<u64>,
    /// The CPU on which each benchmark message was received.
    pub cpus: Seq<i32>,
}

/// A benchmark message, as it was received.
pub struct Arrival {
    pub message: Seq<u8>,
    pub clock: u64,
    pub cpu: i32,
}

impl ReceiverConfig {
    /// A receiver with this configuration that has not received anything yet.
    pub open spec fn initial(self) -> ReceiverState {
        let blank = ReceiverState {
            config: self,
            phase: ReceiverPhase::Draining,
            hello_pending: self.hello_ack,
            begin_pending: self.begin_ack,
            latencies: Seq::empty(),
            cpus: Seq::empty(),
        };
        if self.drain {
            blank
        } else {
            blank.collecting()
        }
    }
}

impl ReceiverState {
    /// There are no more measurements than there are to be, and it is finished when it has them
    /// all.
    pub open spec fn wf(self) -> bool {
        &&& self.latencies.len() == self.cpus.len()
        &&& self.latencies.len() <= self.config.num_messages
        &&& self.phase == ReceiverPhase::Draining ==> self.latencies.len() == 0
        &&& self.phase == ReceiverPhase::Collecting ==> self.latencies.len()
            < self.config.num_messages
    }

    /// Collecting, unless there is nothing left to collect.
    pub open spec fn collecting(self) -> ReceiverState {
        ReceiverState {
            phase: if self.latencies.len() < self.config.num_messages {
                ReceiverPhase::Collecting
            } else {
                ReceiverPhase::Finished
            },
            ..self
        }
    }

    /// The receiver after a message of the synchronization phase.
    pub open spec fn after_drained(self, message: Seq<u8>) -> ReceiverState {
        if crate::zmq_helpers::is_hello(message) {
            ReceiverState { hello_pending: false, ..self }
        } else if crate::zmq_helpers::is_begin(message) {
            ReceiverState { begin_pending: false, ..self }.collecting()
        } else {
            self
        }
    }

    /// What comes of a message of the synchronization phase.
    pub open spec fn drain_outcome(self, message: Seq<u8>) -> DrainOutcome {
        DrainOutcome {
            ack_hello: crate::zmq_helpers::is_hello(message) && self.hello_pending,
            ack_begin: crate::zmq_helpers::is_begin(message) && self.begin_pending,
            reply: self.config.replies,
        }
    }

    /// A benchmark message can be measured: it has a timestamp, and one that is not in the future.
    pub open spec fn measurable(arrival: Arrival) -> bool {
        arrival.message.len() >= crate::zmq_helpers::header_len() && crate::zmq_helpers::header(
            arrival.message,
        ) <= arrival.clock
    }

    /// The receiver after a benchmark message.
    pub open spec fn after_collected(self, arrival: Arrival) -> ReceiverState {
        ReceiverState {
            latencies: self.latencies.push(
                (arrival.clock - crate::zmq_helpers::header(arrival.message)) as u64,
            ),
            cpus: self.cpus.push(arrival.cpu),
            ..self
        }.collecting()
    }

    /// The receiver after all of `messages`, as far as they belong to the synchronization phase.
    pub open spec fn after_all_drained(self, messages: Seq<Seq<u8>>) -> ReceiverState
        decreases messages.len(),
    {
        if messages.len() == 0 {
            self
        } else {
            let before = self.after_all_drained(messages.drop_last());
            if before.phase == ReceiverPhase::Draining {
                before.after_drained(messages.last())
            } else {
                before
            }
        }
    }

    /// What comes of each of `messages` that belongs to the synchronization phase.
    pub open spec fn drain_outcomes(self, messages: Seq<Seq<u8>>) -> Seq<DrainOutcome>
        decreases messages.len(),
    {
        if messages.len() == 0 {
            Seq::empty()
        } else {
            let before = self.after_all_drained(messages.drop_last());
            let earlier = self.drain_outcomes(messages.drop_last());
            if before.phase == ReceiverPhase::Draining {
                earlier.push(before.drain_outcome(messages.last()))
            } else {
                earlier
            }
        }
    }

    /// The receiver after all of `arrivals`, as far as it needs them.
    pub open spec fn after_all_collected(self, arrivals: Seq<Arrival>) -> ReceiverState
        decreases arrivals.len(),
    {
        if arrivals.len() == 0 {
            self
        } else {
            let before = self.after_all_collected(arrivals.drop_last());
            if before.phase == ReceiverPhase::Collecting {
                before.after_collected(arrivals.last())
            } else {
                before
            }
        }
    }
}

/// A receiver.
pub struct Receiver {
    config: ReceiverConfig,
    phase: ReceiverPhase,
    hello_pending: bool,
    begin_pending: bool,
    latencies: Vec<u64>,
    cpus: Vec<i32>,
}

impl View for Receiver {
    type V = ReceiverState;

    closed spec fn view(&self) -> ReceiverState {
        ReceiverState {
            config: self.config,
            phase: self.phase,
            hello_pending: self.hello_pending,
            begin_pending: self.begin_pending,
            latencies: self.latencies@,
            cpus: self.cpus@,
        }
    }
}

impl Receiver {
    /// A receiver that has not received anything yet.
    pub fn new(config: ReceiverConfig) -> (r: Receiver)
        ensures
            r@.wf(),
            r@ == config.initial(),
    {
        let mut r: Receiver = Receiver {
            config,
            phase: ReceiverPhase::Draining,
            hello_pending: config.hello_ack,
            begin_pending: config.begin_ack,
            latencies: Vec::new(),
            cpus: Vec::new(),
        };
        if !config.drain {
            r.collect_rest();
        }
        assert(r@ =~= config.initial());
        r
    }

    /// What the next message will be taken for.
    pub fn phase(&self) -> (r: ReceiverPhase)
        ensures
            r == self@.phase,
    {
        self.phase
    }

    /// How many benchmark messages were received.
    pub fn received(&self) -> (r: usize)
        ensures
            r == self@.latencies.len(),
    {
        self.latencies.len()
    }

    /// Takes a message of the synchronization phase: a hello is passed on once, the begin marker
    /// ends the phase, and anything else is swallowed, so that the collection sees benchmark
    /// messages from the begin marker on only.
    pub fn drain_message(&mut self, buffer: &[u8]) -> (r: DrainOutcome)
        requires
            old(self)@.wf(),
            old(self)@.phase == ReceiverPhase::Draining,
        ensures
            final(self)@.wf(),
            final(self)@ == old(self)@.after_drained(buffer@),
            r == old(self)@.drain_outcome(buffer@),
    {
        let mut r: DrainOutcome = DrainOutcome {
            ack_hello: false,
            ack_begin: false,
            reply: self.config.replies,
        };
        if is_hello_marker(buffer) {
            r.ack_hello = self.hello_pending;
            self.hello_pending = false;
        } else if is_begin_marker(buffer) {
            r.ack_begin = self.begin_pending;
            self.begin_pending = false;
            self.collect_rest();
        }
        r
    }

    /// Takes a failure to receive during the synchronization phase. The result says whether the
    /// run goes on, with the collection.
    pub fn drain_failed(&mut self) -> (goes_on: bool)
        requires
            old(self)@.wf(),
            old(self)@.phase == ReceiverPhase::Draining,
        ensures
            final(self)@.wf(),
            goes_on == old(self)@.config.drain_failure_ends_drain,
            final(self)@ == if goes_on {
                old(self)@.collecting()
            } else {
                old(self)@
            },
    {
        if self.config.drain_failure_ends_drain {
            self.collect_rest();
            true
        } else {
            false
        }
    }

    /// Takes a benchmark message that was received on `cpu` when the clock showed `clock`.
    pub fn collect_message(&mut self, buffer: &[u8], clock: u64, cpu: i32)
        requires
            old(self)@.wf(),
            old(self)@.phase == ReceiverPhase::Collecting,
            ReceiverState::measurable(Arrival { message: buffer@, clock, cpu }),
        ensures
            final(self)@.wf(),
            final(self)@ == old(self)@.after_collected(Arrival { message: buffer@, clock, cpu }),
    {
        let timestamp: u64 = extract_timestamp(buffer);
        self.latencies.push(clock - timestamp);
        self.cpus.push(cpu);
        self.collect_rest();
    }

    /// Takes a failure to receive during the collection. The result says whether the run goes on,
    /// with what was collected.
    pub fn collect_failed(&mut self) -> (goes_on: bool)
        requires
            old(self)@.wf(),
            old(self)@.phase == ReceiverPhase::Collecting,
        ensures
            final(self)@.wf(),
            goes_on == old(self)@.config.collect_failure_ends_collection,
            final(self)@ == if goes_on {
                ReceiverState { phase: ReceiverPhase::Finished, ..old(self)@ }
            } else {
                old(self)@
            },
    {
        if self.config.collect_failure_ends_collection {
            self.phase = ReceiverPhase::Finished;
            true
        } else {
            false
        }
    }

    /// The latencies in clock ticks and the CPUs, one of each for every benchmark message.
    pub fn into_measurements(self) -> (r: (Vec<u64>, Vec<i32>))
        ensures
            r.0@ == self@.latencies,
            r.1@ == self@.cpus,
    {
        (self.latencies, self.cpus)
    }

    fn collect_rest(&mut self)
        requires
            old(self)@.latencies.len() == old(self)@.cpus.len(),
            old(self)@.latencies.len() <= old(self)@.config.num_messages,
        ensures
            final(self)@.wf(),
            final(self)@ == old(self)@.collecting(),
    {
        if self.latencies.len() < self.config.num_messages {
            self.phase = ReceiverPhase::Collecting;
        } else {
            self.phase = ReceiverPhase::Finished;
        }
    }
}

/// Whether a benchmark message that came when the clock showed `clock` can be measured: it has a
/// timestamp, and one that is not in the future.
pub fn is_measurable(buffer: &[u8], clock: u64) -> (r: bool)
    ensures
        forall|cpu: i32|
            r == #[trigger] ReceiverState::measurable(Arrival { message: buffer@, clock, cpu }),
{
    buffer.len() >= 8 && extract_timestamp(buffer) <= clock
}

/// Message `i` belongs to the synchronization phase: no begin marker comes before it.
pub open spec fn in_sync_phase(messages: Seq<Seq<u8>>, i: int) -> bool {
    forall|j: int| 0 <= j < i ==> !crate::zmq_helpers::is_begin(#[trigger] messages[j])
}

/// Message `i` is the first hello.
pub open spec fn is_first_hello(messages: Seq<Seq<u8>>, i: int) -> bool {
    &&& crate::zmq_helpers::is_hello(messages[i])
    &&& forall|j: int| 0 <= j < i ==> !crate::zmq_helpers::is_hello(#[trigger] messages[j])
}

/// Until the begin marker comes a receiver keeps draining. It passes on the first hello and no
/// other, and answers every message where it is to answer them.
pub proof fn drain_goes_on_until_begin(config: ReceiverConfig, messages: Seq<Seq<u8>>)
    requires
        config.drain,
        in_sync_phase(messages, messages.len() as int),
    ensures
        config.initial().after_all_drained(messages) == (ReceiverState {
            hello_pending: config.hello_ack && forall|j: int|
                0 <= j < messages.len() ==> !crate::zmq_helpers::is_hello(#[trigger] messages[j]),
            ..config.initial()
        }),
        config.initial().drain_outcomes(messages).len() == messages.len(),
        forall|i: int|
            0 <= i < messages.len() ==> #[trigger] config.initial().drain_outcomes(messages)[i] == (
            DrainOutcome {
                ack_hello: config.hello_ack && is_first_hello(messages, i),
                ack_begin: false,
                reply: config.replies,
            }),
    decreases messages.len(),
{
    let start = config.initial();
    if messages.len() > 0 {
        let earlier = messages.drop_last();
        let last: int = messages.len() - 1;
        assert forall|j: int| 0 <= j < earlier.len() implies !crate::zmq_helpers::is_begin(
            #[trigger] earlier[j],
        ) by {
            assert(earlier[j] == messages[j]);
        }
        drain_goes_on_until_begin(config, earlier);
        let before = start.after_all_drained(earlier);
        assert(!crate::zmq_helpers::is_begin(messages[last]));
        assert(before.hello_pending == (config.hello_ack && forall|j: int|
            0 <= j < last ==> !crate::zmq_helpers::is_hello(#[trigger] messages[j]))) by {
            assert(forall|j: int| 0 <= j < last ==> earlier[j] == #[trigger] messages[j]);
            assert(forall|j: int| 0 <= j < last ==> #[trigger] earlier[j] == messages[j]);
        }
        let outcomes = start.drain_outcomes(messages);
        assert(outcomes == start.drain_outcomes(earlier).push(before.drain_outcome(messages.last())));
        assert forall|i: int| 0 <= i < messages.len() implies #[trigger] outcomes[i] == (
        DrainOutcome {
            ack_hello: config.hello_ack && is_first_hello(messages, i),
            ack_begin: false,
            reply: config.replies,
        }) by {
            if i < last {
                assert(outcomes[i] == start.drain_outcomes(earlier)[i]);
                assert(is_first_hello(earlier, i) == is_first_hello(messages, i)) by {
                    assert(forall|j: int| 0 <= j <= i ==> earlier[j] == #[trigger] messages[j]);
                    assert(forall|j: int| 0 <= j <= i ==> #[trigger] earlier[j] == messages[j]);
                }
            }
        }
    }
}

/// Which message is the first hello does not depend on what follows it.
proof fn lemma_first_hello_of_prefix(messages: Seq<Seq<u8>>, n: int)
    requires
        0 <= n <= messages.len(),
    ensures
        forall|i: int|
            0 <= i < n ==> is_first_hello(messages.take(n), i) == #[trigger] is_first_hello(
                messages,
                i,
            ),
        n == messages.len() - 1 ==> messages.take(n) == messages.drop_last(),
{
    assert(messages.len() > 0 ==> messages.take(messages.len() - 1) =~= messages.drop_last());
    assert forall|i: int| 0 <= i < n implies is_first_hello(messages.take(n), i)
        == #[trigger] is_first_hello(messages, i) by {
        assert(forall|j: int| 0 <= j <= i ==> messages.take(n)[j] == #[trigger] messages[j]);
        assert(forall|j: int| 0 <= j <= i ==> #[trigger] messages.take(n)[j] == messages[j]);
    }
}

/// The begin marker ends the draining: it is the last message that is drained, whatever follows
/// it, and the one that is passed on and answered as such.
pub proof fn drain_ends_at_begin(config: ReceiverConfig, messages: Seq<Seq<u8>>, begin: int)
    requires
        config.drain,
        0 <= begin < messages.len(),
        in_sync_phase(messages, begin),
        crate::zmq_helpers::is_begin(messages[begin]),
    ensures
        config.initial().after_all_drained(messages) == (ReceiverState {
            hello_pending: config.hello_ack && forall|j: int|
                0 <= j < begin ==> !crate::zmq_helpers::is_hello(#[trigger] messages[j]),
            begin_pending: false,
            ..config.initial()
        }).collecting(),
        config.initial().drain_outcomes(messages).len() == begin + 1,
        config.initial().drain_outcomes(messages)[begin] == (DrainOutcome {
            ack_hello: false,
            ack_begin: config.begin_ack,
            reply: config.replies,
        }),
        forall|i: int|
            0 <= i < begin ==> #[trigger] config.initial().drain_outcomes(messages)[i] == (
            DrainOutcome {
                ack_hello: config.hello_ack && is_first_hello(messages, i),
                ack_begin: false,
                reply: config.replies,
            }),
    decreases messages.len(),
{
    let earlier = messages.drop_last();
    if begin == messages.len() - 1 {
        assert forall|j: int| 0 <= j < earlier.len() implies !crate::zmq_helpers::is_begin(
            #[trigger] earlier[j],
        ) by {
            assert(earlier[j] == messages[j]);
        }
        drain_goes_on_until_begin(config, earlier);
        assert(forall|j: int| 0 <= j < begin ==> earlier[j] == #[trigger] messages[j]);
        assert(forall|j: int| 0 <= j < begin ==> #[trigger] earlier[j] == messages[j]);
        crate::zmq_helpers::markers_are_distinct(messages[begin]);
        lemma_first_hello_of_prefix(messages, begin);
    } else {
        assert forall|j: int| 0 <= j < begin implies !crate::zmq_helpers::is_begin(
            #[trigger] earlier[j],
        ) by {
            assert(earlier[j] == messages[j]);
        }
        drain_ends_at_begin(config, earlier, begin);
        lemma_first_hello_of_prefix(messages, messages.len() - 1);
        assert(forall|j: int| 0 <= j < begin ==> earlier[j] == #[trigger] messages[j]);
        assert(forall|j: int| 0 <= j < begin ==> #[trigger] earlier[j] == messages[j]);
    }
}

/// The collection measures the messages in the order in which they come, takes no more of them
/// than there are to be, and is finished when it has them all.
pub proof fn collection_is_exact(start: ReceiverState, arrivals: Seq<Arrival>)
    requires
        start.wf(),
        start.phase == ReceiverPhase::Collecting,
        start.latencies.len() == 0,
        forall|i: int|
            0 <= i < arrivals.len() ==> ReceiverState::measurable(#[trigger] arrivals[i]),
    ensures
        ({
            let now = start.after_all_collected(arrivals);
            let taken = crate::zmq_helpers::smaller(
                arrivals.len(),
                start.config.num_messages as nat,
            );
            &&& now.wf()
            &&& now.config == start.config
            &&& now.latencies.len() == taken
            &&& now.phase == if taken == start.config.num_messages {
                ReceiverPhase::Finished
            } else {
                ReceiverPhase::Collecting
            }
            &&& forall|i: int|
                0 <= i < taken ==> #[trigger] now.latencies[i] == arrivals[i].clock
                    - crate::zmq_helpers::header(arrivals[i].message)
            &&& forall|i: int| 0 <= i < taken ==> #[trigger] now.cpus[i] == arrivals[i].cpu
        }),
    decreases arrivals.len(),
{
    if arrivals.len() > 0 {
        let earlier = arrivals.drop_last();
        let last: int = arrivals.len() - 1;
        assert forall|i: int| 0 <= i < earlier.len() implies ReceiverState::measurable(
            #[trigger] earlier[i],
        ) by {
            assert(earlier[i] == arrivals[i]);
        }
        collection_is_exact(start, earlier);
        let before = start.after_all_collected(earlier);
        let now = start.after_all_collected(arrivals);
        assert(forall|i: int| 0 <= i < last ==> #[trigger] earlier[i] == arrivals[i]);
        assert(ReceiverState::measurable(arrivals[last]));
        if before.phase == ReceiverPhase::Collecting {
            assert(now.latencies.drop_last() =~= before.latencies);
            assert(now.cpus.drop_last() =~= before.cpus);
            assert(before.latencies.len() == last);
            assert forall|i: int| 0 <= i < now.latencies.len() implies #[trigger] now.latencies[i]
                == arrivals[i].clock - crate::zmq_helpers::header(arrivals[i].message) by {
                if i < last {
                    assert(now.latencies[i] == before.latencies[i]);
                    assert(earlier[i] == arrivals[i]);
                }
            }
            assert forall|i: int| 0 <= i < now.cpus.len() implies #[trigger] now.cpus[i]
                == arrivals[i].cpu by {
                if i < last {
                    assert(now.cpus[i] == before.cpus[i]);
                    assert(earlier[i] == arrivals[i]);
                }
            }
        } else {
            assert forall|i: int| 0 <= i < now.latencies.len() implies #[trigger] now.latencies[i]
                == arrivals[i].clock - crate::zmq_helpers::header(arrivals[i].message) by {
                assert(earlier[i] == arrivals[i]);
            }
        }
    }
}

/// A benchmark message can be measured exactly where it is long enough for a timestamp, and that
/// timestamp is not later than the clock.
pub proof fn timestamps_make_messages_measurable(arrival: Arrival)
    ensures
        ReceiverState::measurable(arrival) <==> arrival.message.len() >= 8
            && crate::zmq_helpers::header(arrival.message) <= arrival.clock,
{
}

/// A receiver that goes on after a failed synchronization phase is where it would be after the
/// begin marker: it collects, unless there is nothing to collect, and has lost no measurement.
pub proof fn collection_starts_with_what_is_there(state: ReceiverState)
    ensures
        state.collecting().phase == if state.latencies.len() < state.config.num_messages {
            ReceiverPhase::Collecting
        } else {
            ReceiverPhase::Finished
        },
        state.collecting().latencies == state.latencies,
        state.collecting().cpus == state.cpus,
        state.collecting().config == state.config,
        state.collecting().hello_pending == state.hello_pending,
        state.collecting().begin_pending == state.begin_pending,
{
}

/// A receiver starts with nothing measured, and is to tell of a hello and of the begin marker
/// exactly where somebody waits for it. It starts with the synchronization phase where there is
/// one, and with the collection otherwise.
pub proof fn receivers_start_empty(config: ReceiverConfig)
    ensures
        config.initial().config == config,
        config.initial().latencies.len() == 0,
        config.initial().cpus.len() == 0,
        config.initial().hello_pending == config.hello_ack,
        config.initial().begin_pending == config.begin_ack,
        config.drain ==> config.initial().phase == ReceiverPhase::Draining,
        !config.drain ==> config.initial().phase == if config.num_messages > 0 {
            ReceiverPhase::Collecting
        } else {
            ReceiverPhase::Finished
        },
{
}

/// What is measured of a message is the time from its stamp to its arrival, and the CPU that it
/// came in on, added behind all that was measured before.
pub proof fn measurements_are_added_one_by_one(state: ReceiverState, arrival: Arrival)
    requires
        ReceiverState::measurable(arrival),
    ensures
        state.after_collected(arrival).latencies.drop_last() == state.latencies,
        state.after_collected(arrival).latencies.last() == arrival.clock
            - crate::zmq_helpers::header(arrival.message),
        state.after_collected(arrival).cpus == state.cpus.push(arrival.cpu),
        state.after_collected(arrival).config == state.config,
{
    assert(state.after_collected(arrival).latencies.drop_last() =~= state.latencies);
}

} // verus!
