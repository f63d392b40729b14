//! The sending side of a benchmark: greet until the receivers are known to listen, announce the
//! cutover, then send timestamped messages.
//!
//! A [`Sender`] decides what happens next; its owner does it and reports back.
use vstd::prelude::*;

use crate::zmq_helpers::{write_header, BEGIN_BENCHMARK_MARKER, HELLO_MARKER};

verus! {

/// A pause after every so many benchmark messages.
#[derive(Debug, Clone, Copy, PartialEq, Eq)]
pub struct Pacing {
    /// Messages between two pauses.
    pub every: usize,
    /// Length of a pause in milliseconds.
    pub millis: u64,
}

/// How a sender behaves.
#[derive(Debug, Clone, Copy, PartialEq, Eq)]
pub struct SenderConfig {
    /// Benchmark messages to send.
    pub num_messages: usize,
    /// Whether hellos and the begin marker come before the benchmark messages.
    pub handshake: bool,
    /// Whether the receiver answers each hello and the begin marker.
    pub replies: bool,
    /// Whether a flag says when to stop greeting; without one a single hello is sent.
    pub phase_flag: bool,
    /// Whether the time of each hello is recorded.
    pub records_hello: bool,
    /// Whether the time is recorded at which the benchmark messages may start.
    pub records_start: bool,
    /// Whether the sender waits to be released before the first benchmark message.
    pub release: bool,
    /// The pauses between benchmark messages, if any.
    pub pacing: Option<Pacing>,
}

/// Where a sender stands: each stage names what is to be done next.
#[derive(Debug, Clone, Copy, PartialEq, Eq)]
pub enum SenderStage {
    RecordHello,
    SendHello,
    AwaitHelloReply,
    PollPhase,
    SendBegin,
    AwaitBeginReply,
    RecordStart,
    AwaitRelease,
    ReadClock { sent: usize },
    SendData { sent: usize },
    Pause { sent: usize },
    Finished,
}

/// What the owner of a sender has to do.
#[derive(Debug, Clone, Copy, PartialEq, Eq)]
pub enum SenderAction {
    /// Record the present time as that of a hello.
    RecordHello,
    /// Send the payload.
    Send,
    /// Receive the reply to what was sent last.
    AwaitReply,
    /// Read the flag that ends the greeting.
    PollPhase,
    /// Record the present time as that of the start of the benchmark messages.
    RecordStart,
    /// Wait until the benchmark messages may start.
    AwaitRelease,
    /// Read the clock for the timestamp of the next benchmark message.
    ReadClock,
    /// Sleep for so many milliseconds.
    Pause(u64),
    /// Nothing: everything is sent.
    Finish,
}

/// What came of an action.
#[derive(Debug, Clone, Copy, PartialEq, Eq)]
pub enum SenderEvent {
    /// It was done.
    Done,
    /// The flag was read.
    Phase(bool),
    /// The clock was read.
    Clock(u64),
}

/// A sender as its contracts see it.
#[verifier::ext_equal]
pub struct SenderState {
    pub config: SenderConfig,
    pub stage: SenderStage,
    pub payload: Seq<u8>,
}

impl SenderState {
    /// The stage is one of this configuration, and there is room for a header wherever one is
    /// written.
    pub open spec fn wf(self) -> bool {
        &&& self.config.valid_for(self.payload.len())
        &&& match self.stage {
            SenderStage::ReadClock { sent } => sent < self.config.num_messages,
            SenderStage::SendData { sent } => sent < self.config.num_messages,
            SenderStage::Pause { sent } => sent < self.config.num_messages
                && self.config.pacing is Some,
            SenderStage::AwaitRelease => true,
            SenderStage::Finished => true,
            _ => self.config.handshake,
        }
    }

    /// What is to be done at this stage.
    pub open spec fn action(self) -> SenderAction {
        match self.stage {
            SenderStage::RecordHello => SenderAction::RecordHello,
            SenderStage::SendHello => SenderAction::Send,
            SenderStage::AwaitHelloReply => SenderAction::AwaitReply,
            SenderStage::PollPhase => SenderAction::PollPhase,
            SenderStage::SendBegin => SenderAction::Send,
            SenderStage::AwaitBeginReply => SenderAction::AwaitReply,
            SenderStage::RecordStart => SenderAction::RecordStart,
            SenderStage::AwaitRelease => SenderAction::AwaitRelease,
            SenderStage::ReadClock { sent } => SenderAction::ReadClock,
            SenderStage::SendData { sent } => SenderAction::Send,
            SenderStage::Pause { sent } => SenderAction::Pause(self.config.pacing->0.millis),
            SenderStage::Finished => SenderAction::Finish,
        }
    }

    /// `event` can come of what is to be done at this stage.
    pub open spec fn expects(self, event: SenderEvent) -> bool {
        match self.action() {
            SenderAction::PollPhase => event is Phase,
            SenderAction::ReadClock => event is Clock,
            SenderAction::Finish => false,
            _ => event is Done,
        }
    }

    /// The next hello.
    pub open spec fn greet(self) -> SenderState {
        SenderState {
            stage: if self.config.records_hello {
                SenderStage::RecordHello
            } else {
                SenderStage::SendHello
            },
            payload: crate::zmq_helpers::stamped(self.payload, HELLO_MARKER),
            ..self
        }
    }

    /// After a hello that needs no reply, or has it: ask the flag, if there is one.
    pub open spec fn greeted(self) -> SenderState {
        if self.config.phase_flag {
            SenderState { stage: SenderStage::PollPhase, ..self }
        } else {
            self.cut_over()
        }
    }

    /// The end of the greeting.
    pub open spec fn cut_over(self) -> SenderState {
        SenderState {
            stage: SenderStage::SendBegin,
            payload: crate::zmq_helpers::stamped(self.payload, BEGIN_BENCHMARK_MARKER),
            ..self
        }
    }

    /// After a begin marker that needs no reply, or has it.
    pub open spec fn begun(self) -> SenderState {
        if self.config.records_start {
            SenderState { stage: SenderStage::RecordStart, ..self }
        } else {
            self.ready()
        }
    }

    /// Ready for the benchmark messages, once released.
    pub open spec fn ready(self) -> SenderState {
        if self.config.release {
            SenderState { stage: SenderStage::AwaitRelease, ..self }
        } else {
            self.with_sent(0)
        }
    }

    /// With `sent` benchmark messages sent.
    pub open spec fn with_sent(self, sent: int) -> SenderState {
        SenderState {
            stage: if sent < self.config.num_messages {
                SenderStage::ReadClock { sent: sent as usize }
            } else {
                SenderStage::Finished
            },
            ..self
        }
    }

    /// A pause is due after the benchmark message that is number `sent`, counted from 0.
    pub open spec fn pause_due(self, sent: int) -> bool {
        self.config.pacing is Some && (sent + 1) % (self.config.pacing->0.every as int) == 0
    }

    /// The sender after `event`.
    pub open spec fn after(self, event: SenderEvent) -> SenderState {
        match self.stage {
            SenderStage::RecordHello => SenderState { stage: SenderStage::SendHello, ..self },
            SenderStage::SendHello => if self.config.replies {
                SenderState { stage: SenderStage::AwaitHelloReply, ..self }
            } else {
                self.greeted()
            },
            SenderStage::AwaitHelloReply => self.greeted(),
            SenderStage::PollPhase => if event == SenderEvent::Phase(true) {
                self.cut_over()
            } else {
                self.greet()
            },
            SenderStage::SendBegin => if self.config.replies {
                SenderState { stage: SenderStage::AwaitBeginReply, ..self }
            } else {
                self.begun()
            },
            SenderStage::AwaitBeginReply => self.begun(),
            SenderStage::RecordStart => self.ready(),
            SenderStage::AwaitRelease => self.with_sent(0),
            SenderStage::ReadClock { sent } => SenderState {
                stage: SenderStage::SendData { sent },
                payload: crate::zmq_helpers::stamped(self.payload, event->Clock_0),
                ..self
            },
            SenderStage::SendData { sent } => if self.pause_due(sent as int) {
                SenderState { stage: SenderStage::Pause { sent }, ..self }
            } else {
                self.with_sent(sent + 1)
            },
            SenderStage::Pause { sent } => self.with_sent(sent + 1),
            SenderStage::Finished => self,
        }
    }

    /// What the owner puts on the wire at this stage.
    pub open spec fn emitted(self) -> Seq<Seq<u8>> {
        if self.action() == SenderAction::Send {
            seq![self.payload]
        } else {
            Seq::empty()
        }
    }

    /// The sender after a sequence of events.
    pub open spec fn after_all(self, events: Seq<SenderEvent>) -> SenderState
        decreases events.len(),
    {
        if events.len() == 0 {
            self
        } else {
            self.after_all(events.drop_last()).after(events.last())
        }
    }

    /// Each of `events` can come of what is to be done when it comes.
    pub open spec fn expects_all(self, events: Seq<SenderEvent>) -> bool
        decreases events.len(),
    {
        events.len() > 0 ==> self.expects_all(events.drop_last()) && self.after_all(
            events.drop_last(),
        ).expects(events.last())
    }

    /// Everything that goes on the wire during `events`.
    pub open spec fn transcript(self, events: Seq<SenderEvent>) -> Seq<Seq<u8>>
        decreases events.len(),
    {
        if events.len() == 0 {
            Seq::empty()
        } else {
            self.transcript(events.drop_last()) + self.after_all(events.drop_last()).emitted()
        }
    }
}

impl SenderConfig {
    /// There is room for a header wherever one is written, and where there are messages the pauses
    /// are a number of them apart.
    pub open spec fn valid_for(self, payload_size: nat) -> bool {
        &&& self.handshake || self.num_messages > 0 ==> payload_size
            >= crate::zmq_helpers::header_len()
        &&& self.pacing is Some && self.num_messages > 0 ==> self.pacing->0.every > 0
    }

    /// Whether a sender with this configuration can send messages of `payload_size` bytes.
    pub fn is_valid_for(&self, payload_size: usize) -> (r: bool)
        ensures
            r == self.valid_for(payload_size as nat),
    {
        let paced: bool = match self.pacing {
            Some(pacing) => self.num_messages == 0 || pacing.every > 0,
            None => true,
        };
        (!self.handshake && self.num_messages == 0 || payload_size >= 8) && paced
    }

    /// A sender with this configuration that has not done anything yet.
    pub open spec fn initial(self, payload_size: nat) -> SenderState {
        let blank = SenderState {
            config: self,
            stage: SenderStage::Finished,
            payload: Seq::new(payload_size, |i: int| 0u8),
        };
        if self.handshake {
            blank.greet()
        } else {
            blank.ready()
        }
    }
}

/// A sender.
pub struct Sender {
    config: SenderConfig,
    stage: SenderStage,
    payload: Vec<u8>,
}

impl View for Sender {
    type V = SenderState;

    closed spec fn view(&self) -> SenderState {
        SenderState { config: self.config, stage: self.stage, payload: self.payload@ }
    }
}

impl Sender {
    /// A sender of messages of `payload_size` bytes, all of them zero but for the header.
    pub fn new(config: SenderConfig, payload_size: usize) -> (r: Sender)
        requires
            config.valid_for(payload_size as nat),
        ensures
            r@.wf(),
            r@ == config.initial(payload_size as nat),
    {
        let mut payload: Vec<u8> = Vec::new();
        let mut i: usize = 0;
        while i < payload_size
            invariant
                i <= payload_size,
                payload@ == Seq::new(i as nat, |k: int| 0u8),
            decreases payload_size - i,
        {
            payload.push(0);
            i = i + 1;
            assert(payload@ =~= Seq::new(i as nat, |k: int| 0u8));
        }
        let mut r: Sender = Sender { config, stage: SenderStage::Finished, payload };
        if config.handshake {
            r.greet();
        } else {
            r.ready();
        }
        r
    }

    /// What is to be done next.
    pub fn action(&self) -> (r: SenderAction)
        requires
            self@.wf(),
        ensures
            r == self@.action(),
    {
        match self.stage {
            SenderStage::RecordHello => SenderAction::RecordHello,
            SenderStage::SendHello => SenderAction::Send,
            SenderStage::AwaitHelloReply => SenderAction::AwaitReply,
            SenderStage::PollPhase => SenderAction::PollPhase,
            SenderStage::SendBegin => SenderAction::Send,
            SenderStage::AwaitBeginReply => SenderAction::AwaitReply,
            SenderStage::RecordStart => SenderAction::RecordStart,
            SenderStage::AwaitRelease => SenderAction::AwaitRelease,
            SenderStage::ReadClock { sent } => SenderAction::ReadClock,
            SenderStage::SendData { sent } => SenderAction::Send,
            SenderStage::Pause { sent } => match self.config.pacing {
                Some(pacing) => SenderAction::Pause(pacing.millis),
                None => SenderAction::Finish,
            },
            SenderStage::Finished => SenderAction::Finish,
        }
    }

    /// The message as it now stands.
    pub fn payload(&self) -> (r: &Vec<u8>)
        ensures
            r@ == self@.payload,
    {
        &self.payload
    }

    /// Moves on after what was to be done has been done.
    pub fn advance(&mut self, event: SenderEvent)
        requires
            old(self)@.wf(),
            old(self)@.expects(event),
        ensures
            final(self)@.wf(),
            final(self)@ == old(self)@.after(event),
    {
        match self.stage {
            SenderStage::RecordHello => {
                self.stage = SenderStage::SendHello;
            },
            SenderStage::SendHello => {
                if self.config.replies {
                    self.stage = SenderStage::AwaitHelloReply;
                } else {
                    self.greeted();
                }
            },
            SenderStage::AwaitHelloReply => {
                self.greeted();
            },
            SenderStage::PollPhase => {
                if let SenderEvent::Phase(true) = event {
                    self.cut_over();
                } else {
                    self.greet();
                }
            },
            SenderStage::SendBegin => {
                if self.config.replies {
                    self.stage = SenderStage::AwaitBeginReply;
                } else {
                    self.begun();
                }
            },
            SenderStage::AwaitBeginReply => {
                self.begun();
            },
            SenderStage::RecordStart => {
                self.ready();
            },
            SenderStage::AwaitRelease => {
                self.set_sent(0);
            },
            SenderStage::ReadClock { sent } => {
                if let SenderEvent::Clock(timestamp) = event {
                    write_header(&mut self.payload, timestamp);
                    proof {
                        crate::zmq_helpers::stamp_is_read_back(old(self).payload@, timestamp);
                    }
                    self.stage = SenderStage::SendData { sent };
                }
            },
            SenderStage::SendData { sent } => {
                let pause: bool = match self.config.pacing {
                    Some(pacing) => (sent + 1) % pacing.every == 0,
                    None => false,
                };
                if pause {
                    self.stage = SenderStage::Pause { sent };
                } else {
                    self.set_sent(sent + 1);
                }
            },
            SenderStage::Pause { sent } => {
                self.set_sent(sent + 1);
            },
            SenderStage::Finished => {},
        }
    }

    fn greet(&mut self)
        requires
            old(self)@.config.handshake,
            old(self)@.config.valid_for(old(self)@.payload.len()),
        ensures
            final(self)@.wf(),
            final(self)@ == old(self)@.greet(),
    {
        write_header(&mut self.payload, HELLO_MARKER);
        proof {
            crate::zmq_helpers::stamp_is_read_back(old(self).payload@, HELLO_MARKER);
        }
        if self.config.records_hello {
            self.stage = SenderStage::RecordHello;
        } else {
            self.stage = SenderStage::SendHello;
        }
    }

    fn greeted(&mut self)
        requires
            old(self)@.config.handshake,
            old(self)@.config.valid_for(old(self)@.payload.len()),
        ensures
            final(self)@.wf(),
            final(self)@ == old(self)@.greeted(),
    {
        if self.config.phase_flag {
            self.stage = SenderStage::PollPhase;
        } else {
            self.cut_over();
        }
    }

    fn cut_over(&mut self)
        requires
            old(self)@.config.handshake,
            old(self)@.config.valid_for(old(self)@.payload.len()),
        ensures
            final(self)@.wf(),
            final(self)@ == old(self)@.cut_over(),
    {
        write_header(&mut self.payload, BEGIN_BENCHMARK_MARKER);
        proof {
            crate::zmq_helpers::stamp_is_read_back(old(self).payload@, BEGIN_BENCHMARK_MARKER);
        }
        self.stage = SenderStage::SendBegin;
    }

    fn begun(&mut self)
        requires
            old(self)@.config.handshake,
            old(self)@.config.valid_for(old(self)@.payload.len()),
        ensures
            final(self)@.wf(),
            final(self)@ == old(self)@.begun(),
    {
        if self.config.records_start {
            self.stage = SenderStage::RecordStart;
        } else {
            self.ready();
        }
    }

    fn ready(&mut self)
        requires
            old(self)@.config.valid_for(old(self)@.payload.len()),
        ensures
            final(self)@.wf(),
            final(self)@ == old(self)@.ready(),
    {
        if self.config.release {
            self.stage = SenderStage::AwaitRelease;
        } else {
            self.set_sent(0);
        }
    }

    fn set_sent(&mut self, sent: usize)
        requires
            old(self)@.config.valid_for(old(self)@.payload.len()),
        ensures
            final(self)@.wf(),
            final(self)@ == old(self)@.with_sent(sent as int),
    {
        if sent < self.config.num_messages {
            self.stage = SenderStage::ReadClock { sent };
        } else {
            self.stage = SenderStage::Finished;
        }
    }
}

/// The flag readings among `events`.
pub open spec fn phase_readings(events: Seq<SenderEvent>) -> Seq<bool>
    decreases events.len(),
{
    if events.len() == 0 {
        Seq::empty()
    } else {
        let earlier = phase_readings(events.drop_last());
        match events.last() {
            SenderEvent::Phase(reading) => earlier.push(reading),
            _ => earlier,
        }
    }
}

/// The clock readings among `events`.
pub open spec fn clock_readings(events: Seq<SenderEvent>) -> Seq<u64>
    decreases events.len(),
{
    if events.len() == 0 {
        Seq::empty()
    } else {
        let earlier = clock_readings(events.drop_last());
        match events.last() {
            SenderEvent::Clock(reading) => earlier.push(reading),
            _ => earlier,
        }
    }
}

/// `n` hellos with the body of `payload`.
pub open spec fn hellos(payload: Seq<u8>, n: nat) -> Seq<Seq<u8>> {
    Seq::new(n, |i: int| crate::zmq_helpers::stamped(payload, HELLO_MARKER))
}

/// Benchmark messages with the body of `payload` and `timestamps` as headers.
pub open spec fn data_messages(payload: Seq<u8>, timestamps: Seq<u64>) -> Seq<Seq<u8>> {
    Seq::new(timestamps.len(), |i: int| crate::zmq_helpers::stamped(payload, timestamps[i]))
}

/// The greeting and the announcement of the cutover.
pub open spec fn handshake_messages(payload: Seq<u8>, num_hellos: nat) -> Seq<Seq<u8>> {
    hellos(payload, num_hellos).push(
        crate::zmq_helpers::stamped(payload, BEGIN_BENCHMARK_MARKER),
    )
}

/// Readings of the flag that end a greeting: only the last of them is true.
pub open spec fn greeting_ends(readings: Seq<bool>) -> bool {
    readings.len() > 0 && readings.last() && still_greeting(readings.drop_last())
}

/// Readings of the flag during a greeting: none of them is true.
pub open spec fn still_greeting(readings: Seq<bool>) -> bool {
    forall|i: int| 0 <= i < readings.len() ==> !#[trigger] readings[i]
}

/// The hellos of a greeting: one for each reading of the flag, or one where there is no flag.
pub open spec fn hellos_sent(config: SenderConfig, events: Seq<SenderEvent>) -> nat {
    if config.phase_flag {
        phase_readings(events).len()
    } else {
        1
    }
}

/// What is on the wire before the first benchmark message.
pub open spec fn preamble(
    config: SenderConfig,
    payload: Seq<u8>,
    events: Seq<SenderEvent>,
) -> Seq<Seq<u8>> {
    if config.handshake {
        handshake_messages(payload, hellos_sent(config, events))
    } else {
        Seq::empty()
    }
}

/// What holds of a sender at every stage of its work.
pub open spec fn sender_invariant(
    config: SenderConfig,
    payload_size: nat,
    events: Seq<SenderEvent>,
) -> bool {
    let start = config.initial(payload_size);
    let now = start.after_all(events);
    let wire = start.transcript(events);
    let body = Seq::new(payload_size, |i: int| 0u8);
    let readings = phase_readings(events);
    let clocks = clock_readings(events);
    &&& now.config == config
    &&& now.wf()
    &&& now.payload.len() == payload_size
    &&& now.payload.skip(8) == body.skip(8)
    &&& match now.stage {
        SenderStage::RecordHello | SenderStage::SendHello => {
            &&& wire == hellos(body, readings.len())
            &&& now.payload == crate::zmq_helpers::stamped(body, HELLO_MARKER)
            &&& still_greeting(readings)
            &&& clocks.len() == 0
            &&& !config.phase_flag ==> readings.len() == 0
        },
        SenderStage::AwaitHelloReply | SenderStage::PollPhase => {
            &&& wire == hellos(body, readings.len() + 1)
            &&& still_greeting(readings)
            &&& clocks.len() == 0
            &&& !config.phase_flag ==> readings.len() == 0
        },
        SenderStage::SendBegin => {
            &&& wire == hellos(body, hellos_sent(config, events))
            &&& now.payload == crate::zmq_helpers::stamped(body, BEGIN_BENCHMARK_MARKER)
            &&& config.phase_flag ==> greeting_ends(readings)
            &&& clocks.len() == 0
        },
        SenderStage::AwaitBeginReply | SenderStage::RecordStart | SenderStage::AwaitRelease => {
            &&& wire == preamble(config, body, events)
            &&& config.handshake && config.phase_flag ==> greeting_ends(readings)
            &&& clocks.len() == 0
        },
        SenderStage::ReadClock { sent } => {
            &&& wire == preamble(config, body, events) + data_messages(body, clocks)
            &&& config.handshake && config.phase_flag ==> greeting_ends(readings)
            &&& clocks.len() == sent
        },
        SenderStage::SendData { sent } => {
            &&& wire == preamble(config, body, events) + data_messages(body, clocks.drop_last())
            &&& now.payload == crate::zmq_helpers::stamped(body, clocks.last())
            &&& config.handshake && config.phase_flag ==> greeting_ends(readings)
            &&& clocks.len() == sent + 1
        },
        SenderStage::Pause { sent } => {
            &&& wire == preamble(config, body, events) + data_messages(body, clocks)
            &&& config.handshake && config.phase_flag ==> greeting_ends(readings)
            &&& clocks.len() == sent + 1
        },
        SenderStage::Finished => {
            &&& wire == preamble(config, body, events) + data_messages(body, clocks)
            &&& config.handshake && config.phase_flag ==> greeting_ends(readings)
            &&& clocks.len() == config.num_messages
        },
    }
}

/// At every moment of every run a sender has put on the wire what its stage says: hellos while
/// it greets, then the begin marker, then benchmark messages in the order of their timestamps.
pub proof fn sender_keeps_protocol(
    config: SenderConfig,
    payload_size: nat,
    events: Seq<SenderEvent>,
)
    requires
        config.valid_for(payload_size),
        config.initial(payload_size).expects_all(events),
    ensures
        sender_invariant(config, payload_size, events),
    decreases events.len(),
{
    let start = config.initial(payload_size);
    let body = Seq::new(payload_size, |i: int| 0u8);
    if events.len() == 0 {
        if config.handshake {
            crate::zmq_helpers::stamp_is_read_back(body, HELLO_MARKER);
            assert(hellos(body, 0) =~= Seq::<Seq<u8>>::empty());
        } else {
            assert(data_messages(body, Seq::empty()) =~= Seq::<Seq<u8>>::empty());
        }
    } else {
        let earlier = events.drop_last();
        sender_keeps_protocol(config, payload_size, earlier);
        let before = start.after_all(earlier);
        let event = events.last();
        let wire = start.transcript(earlier);
        let readings = phase_readings(earlier);
        let clocks = clock_readings(earlier);
        if config.handshake || config.num_messages > 0 {
            lemma_restamp(before.payload, body, HELLO_MARKER);
            lemma_restamp(before.payload, body, BEGIN_BENCHMARK_MARKER);
        }
        assert(wire + Seq::<Seq<u8>>::empty() =~= wire);
        assert(data_messages(body, Seq::empty()) =~= Seq::<Seq<u8>>::empty());
        assert(preamble(config, body, events) + Seq::<Seq<u8>>::empty() =~= preamble(
            config,
            body,
            events,
        ));
        match before.stage {
            SenderStage::SendHello => {
                assert(wire.push(before.payload) =~= hellos(body, readings.len() + 1));
                assert(wire + seq![before.payload] =~= wire.push(before.payload));
            },
            SenderStage::PollPhase => {
                assert(phase_readings(events).drop_last() =~= readings);
            },
            SenderStage::SendBegin => {
                assert(wire + seq![before.payload] =~= wire.push(before.payload));
                assert(clocks =~= Seq::empty());
            },
            SenderStage::AwaitBeginReply | SenderStage::RecordStart | SenderStage::AwaitRelease => {
                assert(clocks =~= Seq::empty());
            },
            SenderStage::ReadClock { sent } => {
                lemma_restamp(before.payload, body, event->Clock_0);
                assert(clock_readings(events).drop_last() =~= clocks);
            },
            SenderStage::SendData { sent } => {
                assert(data_messages(body, clocks) =~= data_messages(
                    body,
                    clocks.drop_last(),
                ).push(before.payload));
                let lead = preamble(config, body, events);
                assert((lead + data_messages(body, clocks.drop_last())) + seq![before.payload]
                    =~= lead + data_messages(body, clocks.drop_last()).push(before.payload));
            },
            _ => {},
        }
    }
}

/// Payloads of one size that agree behind the header agree after a stamp.
proof fn lemma_restamp(a: Seq<u8>, b: Seq<u8>, value: u64)
    requires
        a.len() == b.len(),
        a.len() >= crate::zmq_helpers::header_len(),
        a.skip(8) == b.skip(8),
    ensures
        crate::zmq_helpers::stamped(a, value) == crate::zmq_helpers::stamped(b, value),
        crate::zmq_helpers::stamped(a, value).len() == a.len(),
        crate::zmq_helpers::stamped(a, value).skip(8) == a.skip(8),
{
    crate::zmq_helpers::stamp_is_read_back(a, value);
}

/// How often the owner of a sender has done `action` during `events`.
pub open spec fn times_done(
    start: SenderState,
    events: Seq<SenderEvent>,
    action: SenderAction,
) -> nat
    decreases events.len(),
{
    if events.len() == 0 {
        0
    } else {
        let earlier = times_done(start, events.drop_last(), action);
        if start.after_all(events.drop_last()).action() == action {
            earlier + 1
        } else {
            earlier
        }
    }
}

/// The replies that the owner of a sender has received during `events`.
pub open spec fn replies_received(start: SenderState, events: Seq<SenderEvent>) -> nat {
    times_done(start, events, SenderAction::AwaitReply)
}

/// A sender that waits for replies waits for one after each hello and after the begin marker, and
/// for none after benchmark messages: it never sends a message of the synchronization phase
/// before the last one was answered.
pub proof fn sender_awaits_one_reply_each(
    config: SenderConfig,
    payload_size: nat,
    events: Seq<SenderEvent>,
)
    requires
        config.valid_for(payload_size),
        config.handshake,
        config.initial(payload_size).expects_all(events),
    ensures
        ({
            let start = config.initial(payload_size);
            let sent = start.transcript(events).len();
            let replies = replies_received(start, events);
            match start.after_all(events).stage {
                SenderStage::AwaitHelloReply | SenderStage::AwaitBeginReply => config.replies
                    && replies + 1 == sent,
                SenderStage::ReadClock { .. }
                | SenderStage::SendData { .. }
                | SenderStage::Pause { .. }
                | SenderStage::Finished => replies == if config.replies {
                    hellos_sent(config, events) + 1
                } else {
                    0
                },
                _ => replies == if config.replies {
                    sent
                } else {
                    0
                },
            }
        }),
    decreases events.len(),
{
    if events.len() > 0 {
        let earlier = events.drop_last();
        sender_awaits_one_reply_each(config, payload_size, earlier);
        sender_keeps_protocol(config, payload_size, earlier);
        sender_keeps_protocol(config, payload_size, events);
    }
}

/// A sender that has finished has sent its greeting, the begin marker, and then exactly as many
/// benchmark messages as it was told to, each with its own reading of the clock. With a flag it
/// sent a hello for every reading, and stopped at the first that was true; without one it sent a
/// single hello. A sender without handshake sent the benchmark messages alone.
pub proof fn finished_sender_has_sent_everything(
    config: SenderConfig,
    payload_size: nat,
    events: Seq<SenderEvent>,
)
    requires
        config.valid_for(payload_size),
        config.initial(payload_size).expects_all(events),
        config.initial(payload_size).after_all(events).stage == SenderStage::Finished,
    ensures
        clock_readings(events).len() == config.num_messages,
        config.initial(payload_size).transcript(events) == preamble(
            config,
            Seq::new(payload_size, |i: int| 0u8),
            events,
        ) + data_messages(Seq::new(payload_size, |i: int| 0u8), clock_readings(events)),
        config.handshake && config.phase_flag ==> greeting_ends(phase_readings(events)),
{
    sender_keeps_protocol(config, payload_size, events);
}

/// The recordings of hellos that are due: one for each hello that was sent, and one more where the
/// next hello is about to be sent.
pub open spec fn hello_recordings(
    config: SenderConfig,
    payload_size: nat,
    events: Seq<SenderEvent>,
) -> nat {
    let start = config.initial(payload_size);
    let wire = start.transcript(events);
    if !config.handshake || !config.records_hello {
        0
    } else {
        match start.after_all(events).stage {
            SenderStage::SendHello => wire.len() + 1,
            SenderStage::RecordHello
            | SenderStage::AwaitHelloReply
            | SenderStage::PollPhase
            | SenderStage::SendBegin => wire.len(),
            _ => hellos_sent(config, events),
        }
    }
}

/// The begin marker is on the wire, behind the hellos.
pub open spec fn has_announced(
    config: SenderConfig,
    payload_size: nat,
    events: Seq<SenderEvent>,
) -> bool {
    let wire = config.initial(payload_size).transcript(events);
    wire.len() > hellos_sent(config, events) && crate::zmq_helpers::is_begin(
        wire[hellos_sent(config, events) as int],
    )
}

/// A sender whose times are recorded has its time recorded once before each hello, and once after
/// the begin marker, before any benchmark message. A sender without handshake records nothing.
pub proof fn times_are_recorded(
    config: SenderConfig,
    payload_size: nat,
    events: Seq<SenderEvent>,
)
    requires
        config.valid_for(payload_size),
        config.initial(payload_size).expects_all(events),
    ensures
        ({
            let start = config.initial(payload_size);
            let starts = times_done(start, events, SenderAction::RecordStart);
            &&& times_done(start, events, SenderAction::RecordHello) == hello_recordings(
                config,
                payload_size,
                events,
            )
            &&& starts <= 1
            &&& starts > 0 ==> config.records_start && has_announced(config, payload_size, events)
            &&& config.handshake && config.records_start && clock_readings(events).len() > 0
                ==> starts == 1
            &&& start.after_all(events).stage == SenderStage::Finished ==> starts == if
                config.handshake && config.records_start {
                1
            } else {
                0nat
            }
        }),
{
    lemma_recordings(config, payload_size, events);
    sender_keeps_protocol(config, payload_size, events);
    let body = Seq::new(payload_size, |i: int| 0u8);
    if config.handshake {
        crate::zmq_helpers::stamp_decides_kind(body, BEGIN_BENCHMARK_MARKER);
    }
}

/// The recordings of the start and the releases, stage by stage.
proof fn lemma_recordings(config: SenderConfig, payload_size: nat, events: Seq<SenderEvent>)
    requires
        config.valid_for(payload_size),
        config.initial(payload_size).expects_all(events),
    ensures
        ({
            let start = config.initial(payload_size);
            let starts = times_done(start, events, SenderAction::RecordStart);
            let releases = times_done(start, events, SenderAction::AwaitRelease);
            &&& times_done(start, events, SenderAction::RecordHello) == hello_recordings(
                config,
                payload_size,
                events,
            )
            &&& match start.after_all(events).stage {
                SenderStage::RecordHello
                | SenderStage::SendHello
                | SenderStage::AwaitHelloReply
                | SenderStage::PollPhase
                | SenderStage::SendBegin
                | SenderStage::AwaitBeginReply
                | SenderStage::RecordStart => starts == 0,
                _ => starts == if config.handshake && config.records_start {
                    1
                } else {
                    0nat
                },
            }
            &&& match start.after_all(events).stage {
                SenderStage::ReadClock { .. }
                | SenderStage::SendData { .. }
                | SenderStage::Pause { .. }
                | SenderStage::Finished => releases == if config.release {
                    1
                } else {
                    0nat
                },
                _ => releases == 0,
            }
        }),
    decreases events.len(),
{
    if events.len() > 0 {
        lemma_recordings(config, payload_size, events.drop_last());
        sender_keeps_protocol(config, payload_size, events.drop_last());
        sender_keeps_protocol(config, payload_size, events);
    }
}

/// A sender that is to be released sends nothing but messages of the synchronization phase before
/// its release, and does not even read the clock for more. It is released once.
pub proof fn nothing_follows_begin_before_release(
    config: SenderConfig,
    payload_size: nat,
    events: Seq<SenderEvent>,
)
    requires
        config.valid_for(payload_size),
        config.release,
        config.initial(payload_size).expects_all(events),
    ensures
        ({
            let start = config.initial(payload_size);
            let wire = start.transcript(events);
            let releases = times_done(start, events, SenderAction::AwaitRelease);
            &&& releases <= 1
            &&& releases == 0 ==> {
                &&& clock_readings(events).len() == 0
                &&& forall|i: int|
                    0 <= i < wire.len() ==> crate::zmq_helpers::is_control(#[trigger] wire[i])
                &&& forall|i: int|
                    0 <= i < wire.len() && crate::zmq_helpers::is_begin(#[trigger] wire[i]) ==> i
                        == wire.len() - 1
            }
            &&& start.after_all(events).stage == SenderStage::Finished ==> releases == 1
        }),
{
    lemma_recordings(config, payload_size, events);
    sender_keeps_protocol(config, payload_size, events);
    let body = Seq::new(payload_size, |i: int| 0u8);
    if config.handshake {
        crate::zmq_helpers::stamp_decides_kind(body, BEGIN_BENCHMARK_MARKER);
        crate::zmq_helpers::stamp_decides_kind(body, HELLO_MARKER);
    }
}

/// The pauses of a sender that has sent `sent` benchmark messages: one after each full batch.
pub open spec fn pauses_due(config: SenderConfig, sent: nat) -> nat {
    if config.pacing is Some && sent > 0 {
        sent / config.pacing->0.every as nat
    } else {
        0
    }
}

proof fn lemma_next_quotient(n: int, d: int)
    requires
        n >= 0,
        d > 0,
    ensures
        (n + 1) / d == n / d + if (n + 1) % d == 0 {
            1int
        } else {
            0int
        },
        0int / d == 0,
{
    vstd::arithmetic::div_mod::lemma_fundamental_div_mod(n, d);
    vstd::arithmetic::div_mod::lemma_div_basics(d);
    let q = n / d;
    let r = n % d;
    if r + 1 == d {
        assert(n + 1 == (q + 1) * d + 0) by (nonlinear_arith)
            requires
                n == d * q + r,
                r + 1 == d,
        ;
        vstd::arithmetic::div_mod::lemma_fundamental_div_mod_converse(n + 1, d, q + 1, 0);
    } else {
        assert(n + 1 == q * d + (r + 1)) by (nonlinear_arith)
            requires
                n == d * q + r,
        ;
        vstd::arithmetic::div_mod::lemma_fundamental_div_mod_converse(n + 1, d, q, r + 1);
    }
}

/// A sender has paused once after each full batch of benchmark messages that it has sent, each
/// time for as long as it was told; so a finished one has paused as often as full batches fit into
/// its messages. A sender without batches never pauses.
pub proof fn sender_pauses_after_each_batch(
    config: SenderConfig,
    payload_size: nat,
    events: Seq<SenderEvent>,
    millis: u64,
)
    requires
        config.valid_for(payload_size),
        config.initial(payload_size).expects_all(events),
    ensures
        ({
            let start = config.initial(payload_size);
            let pauses = times_done(start, events, SenderAction::Pause(millis));
            let due = config.pacing is Some && config.pacing->0.millis == millis;
            match start.after_all(events).stage {
                SenderStage::ReadClock { sent }
                | SenderStage::SendData { sent }
                | SenderStage::Pause { sent } => pauses == if due {
                    pauses_due(config, sent as nat)
                } else {
                    0
                },
                SenderStage::Finished => pauses == if due {
                    pauses_due(config, config.num_messages as nat)
                } else {
                    0
                },
                _ => pauses == 0,
            }
        }),
    decreases events.len(),
{
    if events.len() > 0 {
        let earlier = events.drop_last();
        sender_pauses_after_each_batch(config, payload_size, earlier, millis);
        sender_keeps_protocol(config, payload_size, earlier);
        sender_keeps_protocol(config, payload_size, events);
        match config.initial(payload_size).after_all(earlier).stage {
            SenderStage::SendData { sent } | SenderStage::Pause { sent } => {
                if config.pacing is Some {
                    lemma_next_quotient(sent as int, config.pacing->0.every as int);
                }
            },
            _ => {},
        }
    }
}

/// The readings of the clock and of the flag are those of the events, in their order, and what
/// was done is counted event by event.
pub proof fn events_are_told_apart(
    start: SenderState,
    events: Seq<SenderEvent>,
    next: SenderEvent,
    action: SenderAction,
)
    ensures
        clock_readings(events.push(next)) == match next {
            SenderEvent::Clock(reading) => clock_readings(events).push(reading),
            _ => clock_readings(events),
        },
        phase_readings(events.push(next)) == match next {
            SenderEvent::Phase(reading) => phase_readings(events).push(reading),
            _ => phase_readings(events),
        },
        clock_readings(Seq::empty()).len() == 0,
        phase_readings(Seq::empty()).len() == 0,
        times_done(start, events.push(next), action) == times_done(start, events, action) + if
            start.after_all(events).action() == action {
            1nat
        } else {
            0nat
        },
        times_done(start, Seq::empty(), action) == 0,
        start.transcript(events.push(next)) == if start.after_all(events).action()
            == SenderAction::Send {
            start.transcript(events).push(start.after_all(events).payload)
        } else {
            start.transcript(events)
        },
        start.transcript(Seq::empty()).len() == 0,
{
    assert(events.push(next).drop_last() =~= events);
    assert(start.transcript(events.push(next)) =~= if start.after_all(events).action()
        == SenderAction::Send {
        start.transcript(events).push(start.after_all(events).payload)
    } else {
        start.transcript(events)
    });
}

proof fn lemma_done_with_results(start: SenderState, events: Seq<SenderEvent>)
    requires
        start.expects_all(events),
    ensures
        times_done(start, events, SenderAction::ReadClock) == clock_readings(events).len(),
        times_done(start, events, SenderAction::PollPhase) == phase_readings(events).len(),
        times_done(start, events, SenderAction::Send) == start.transcript(events).len(),
    decreases events.len(),
{
    if events.len() > 0 {
        lemma_done_with_results(start, events.drop_last());
    }
}

/// What a finished sender has put on the wire, message by message: hellos, the begin marker, and
/// then one benchmark message for each reading of the clock, with that reading in its header. All
/// messages have the size that was asked for, and nothing but zeros behind the header. There is a
/// hello for each reading of the flag, the last of which is the only one that was true; without a
/// flag there is one hello. A sender without handshake has sent the benchmark messages alone.
pub proof fn finished_sender_message_by_message(
    config: SenderConfig,
    payload_size: nat,
    events: Seq<SenderEvent>,
)
    requires
        config.valid_for(payload_size),
        config.initial(payload_size).expects_all(events),
        config.initial(payload_size).after_all(events).stage == SenderStage::Finished,
    ensures
        ({
            let wire = config.initial(payload_size).transcript(events);
            let clocks = clock_readings(events);
            let readings = phase_readings(events);
            let hellos: int = if !config.handshake {
                0
            } else if config.phase_flag {
                readings.len() as int
            } else {
                1
            };
            let lead: int = if config.handshake {
                hellos + 1
            } else {
                0
            };
            &&& clocks.len() == config.num_messages
            &&& wire.len() == lead + config.num_messages
            &&& forall|i: int| 0 <= i < wire.len() ==> (#[trigger] wire[i]).len() == payload_size
            &&& forall|i: int, k: int|
                0 <= i < wire.len() && 8 <= k < payload_size ==> #[trigger] wire[i][k] == 0
            &&& forall|i: int|
                0 <= i < hellos ==> crate::zmq_helpers::carries(#[trigger] wire[i], 0)
            &&& config.handshake ==> crate::zmq_helpers::carries(wire[hellos], u64::MAX)
            &&& forall|i: int|
                0 <= i < config.num_messages ==> crate::zmq_helpers::carries(
                    wire[lead + i],
                    #[trigger] clocks[i],
                )
            &&& config.handshake && config.phase_flag ==> {
                &&& readings.len() > 0
                &&& forall|i: int|
                    0 <= i < readings.len() ==> (#[trigger] readings[i] <==> i == readings.len()
                        - 1)
            }
        }),
{
    let body = Seq::new(payload_size, |i: int| 0u8);
    let wire = config.initial(payload_size).transcript(events);
    let clocks = clock_readings(events);
    let readings = phase_readings(events);
    finished_sender_has_sent_everything(config, payload_size, events);
    let lead = preamble(config, body, events);
    let data = data_messages(body, clocks);
    assert(wire == lead + data);
    if config.handshake {
        crate::zmq_helpers::stamp_is_read_back(body, HELLO_MARKER);
        crate::zmq_helpers::stamp_is_read_back(body, BEGIN_BENCHMARK_MARKER);
    }
    assert forall|i: int| 0 <= i < wire.len() implies (#[trigger] wire[i]).len() == payload_size
        && wire[i].skip(8) == body.skip(8) by {
        if i >= lead.len() {
            assert(wire[i] == data[i - lead.len()]);
            crate::zmq_helpers::stamp_is_read_back(body, clocks[i - lead.len()]);
        } else {
            assert(wire[i] == lead[i]);
        }
    }
    assert forall|i: int, k: int|
        0 <= i < wire.len() && 8 <= k < payload_size implies #[trigger] wire[i][k] == 0 by {
        assert(wire[i].len() == payload_size);
        assert(wire[i].skip(8)[k - 8] == body.skip(8)[k - 8]);
    }
    assert forall|i: int| 0 <= i < config.num_messages implies crate::zmq_helpers::carries(
        wire[lead.len() + i],
        #[trigger] clocks[i],
    ) by {
        assert(wire[lead.len() + i] == data[i]);
        crate::zmq_helpers::stamp_is_read_back(body, clocks[i]);
    }
    if config.handshake && config.phase_flag {
        assert forall|i: int| 0 <= i < readings.len() implies (#[trigger] readings[i] <==> i
            == readings.len() - 1) by {
            if i < readings.len() - 1 {
                assert(readings.drop_last()[i] == readings[i]);
            }
        }
    }
}

/// What the owner of a finished sender has done, in numbers: every message was sent once; the clock
/// was read once for each benchmark message; with a flag it was read once after each hello; the
/// time was recorded before each hello, and once after the begin marker, where that is wanted; a
/// reply was awaited for each message of the synchronization phase where there are replies; the
/// release was awaited once where there is one; and pauses were made after full batches only.
pub proof fn finished_sender_in_numbers(
    config: SenderConfig,
    payload_size: nat,
    events: Seq<SenderEvent>,
    millis: u64,
)
    requires
        config.valid_for(payload_size),
        config.initial(payload_size).expects_all(events),
        config.initial(payload_size).after_all(events).stage == SenderStage::Finished,
    ensures
        ({
            let start = config.initial(payload_size);
            let wire = start.transcript(events);
            let hellos: int = if config.handshake {
                wire.len() - config.num_messages - 1
            } else {
                0
            };
            let pauses = times_done(start, events, SenderAction::Pause(millis)) as int;
            &&& times_done(start, events, SenderAction::Send) == wire.len()
            &&& times_done(start, events, SenderAction::ReadClock) == config.num_messages
            &&& times_done(start, events, SenderAction::PollPhase) == if config.handshake
                && config.phase_flag {
                hellos
            } else {
                0
            }
            &&& times_done(start, events, SenderAction::RecordHello) == if config.records_hello {
                hellos
            } else {
                0
            }
            &&& times_done(start, events, SenderAction::RecordStart) == if config.handshake
                && config.records_start {
                1int
            } else {
                0
            }
            &&& times_done(start, events, SenderAction::AwaitReply) == if config.handshake
                && config.replies {
                hellos + 1
            } else {
                0
            }
            &&& times_done(start, events, SenderAction::AwaitRelease) == if config.release {
                1int
            } else {
                0
            }
            &&& if config.pacing is Some && config.pacing->0.millis == millis && config.num_messages
                > 0 {
                let every = config.pacing->0.every as int;
                pauses * every <= config.num_messages < (pauses + 1) * every
            } else {
                pauses == 0
            }
        }),
{
    let start = config.initial(payload_size);
    finished_sender_message_by_message(config, payload_size, events);
    lemma_done_with_results(start, events);
    lemma_recordings(config, payload_size, events);
    lemma_silent_without_handshake(config, payload_size, events);
    if config.handshake {
        sender_awaits_one_reply_each(config, payload_size, events);
    }
    sender_pauses_after_each_batch(config, payload_size, events, millis);
    if config.pacing is Some && config.num_messages > 0 {
        let n = config.num_messages as int;
        let every = config.pacing->0.every as int;
        vstd::arithmetic::div_mod::lemma_fundamental_div_mod(n, every);
        vstd::arithmetic::div_mod::lemma_mod_bound(n, every);
        let q = n / every;
        assert(q * every <= n < (q + 1) * every) by (nonlinear_arith)
            requires
                n == every * q + n % every,
                0 <= n % every < every,
        ;
    }
}

/// Without handshake no flag is read and no reply is awaited; with one but without a flag, none is
/// read either.
proof fn lemma_silent_without_handshake(
    config: SenderConfig,
    payload_size: nat,
    events: Seq<SenderEvent>,
)
    requires
        config.valid_for(payload_size),
        config.initial(payload_size).expects_all(events),
    ensures
        !config.handshake ==> times_done(
            config.initial(payload_size),
            events,
            SenderAction::AwaitReply,
        ) == 0,
        !config.handshake || !config.phase_flag ==> phase_readings(events).len() == 0,
        !config.phase_flag ==> config.initial(payload_size).after_all(events).stage
            != SenderStage::PollPhase,
    decreases events.len(),
{
    if events.len() > 0 {
        lemma_silent_without_handshake(config, payload_size, events.drop_last());
        sender_keeps_protocol(config, payload_size, events.drop_last());
        sender_keeps_protocol(config, payload_size, events);
    }
}

/// A sender can send where its messages have room for a header, or where it sends none, and where
/// its batches are batches of messages, or where it has no batches or no benchmark messages.
pub proof fn senders_need_room_and_batches(config: SenderConfig, payload_size: nat)
    ensures
        payload_size >= 8 && config.pacing is None ==> config.valid_for(payload_size),
        payload_size >= 8 && config.num_messages == 0 ==> config.valid_for(payload_size),
        payload_size >= 8 && config.pacing is Some && config.num_messages > 0 ==> (
        config.valid_for(payload_size) <==> config.pacing->0.every > 0),
        payload_size < 8 && config.handshake ==> !config.valid_for(payload_size),
        payload_size < 8 && !config.handshake ==> (config.valid_for(payload_size)
            <==> config.num_messages == 0),
{
}

/// While no begin marker is on the wire, the hellos that are on it were recorded, and at most one
/// that is about to follow. The start is recorded before the release is awaited.
pub proof fn recordings_come_before(
    config: SenderConfig,
    payload_size: nat,
    events: Seq<SenderEvent>,
)
    requires
        config.handshake,
        config.valid_for(payload_size),
        config.initial(payload_size).expects_all(events),
    ensures
        ({
            let start = config.initial(payload_size);
            let wire = start.transcript(events);
            let hellos = times_done(start, events, SenderAction::RecordHello);
            let starts = times_done(start, events, SenderAction::RecordStart);
            let releases = times_done(start, events, SenderAction::AwaitRelease);
            &&& config.records_hello && (forall|i: int|
                0 <= i < wire.len() ==> !crate::zmq_helpers::is_begin(#[trigger] wire[i]))
                ==> wire.len() <= hellos <= wire.len() + 1
            &&& !config.records_hello ==> hellos == 0
            &&& !config.records_start ==> starts == 0
            &&& config.records_start && releases > 0 ==> starts == 1
            &&& config.records_start && start.after_all(events).stage == SenderStage::AwaitRelease
                ==> starts == 1
        }),
{
    let start = config.initial(payload_size);
    let body = Seq::new(payload_size, |i: int| 0u8);
    let wire = start.transcript(events);
    sender_keeps_protocol(config, payload_size, events);
    lemma_recordings(config, payload_size, events);
    crate::zmq_helpers::stamp_decides_kind(body, BEGIN_BENCHMARK_MARKER);
    let h = hellos_sent(config, events);
    match start.after_all(events).stage {
        SenderStage::RecordHello
        | SenderStage::SendHello
        | SenderStage::AwaitHelloReply
        | SenderStage::PollPhase
        | SenderStage::SendBegin => {},
        _ => {
            assert(wire.len() > h && crate::zmq_helpers::is_begin(wire[h as int]));
        },
    }
}

} // verus!
