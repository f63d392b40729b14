use zmq_bench::proxy_router::{event_is_known, MonitorStage, Relay};
use zmq_bench::frames::Framing;
use zmq_bench::receiver::{is_measurable, DrainOutcome, Receiver, ReceiverConfig, ReceiverPhase};
use zmq_bench::roles::{Coordinator, Verdict};
use zmq_bench::router::{has_router_mark, is_countable, router_hwm, Envelope, Router};
use zmq_bench::sender::{Pacing, Sender, SenderAction, SenderConfig, SenderEvent};

fn sender_config(num_messages: usize) -> SenderConfig {
    SenderConfig {
        num_messages,
        handshake: true,
        replies: false,
        phase_flag: true,
        records_hello: false,
        records_start: false,
        release: false,
        pacing: None,
    }
}

fn receiver_config(num_messages: usize) -> ReceiverConfig {
    ReceiverConfig {
        num_messages,
        drain: true,
        replies: false,
        hello_ack: true,
        begin_ack: true,
        drain_failure_ends_drain: false,
        collect_failure_ends_collection: false,
    }
}

/// Runs a sender to its end and returns its actions and what it sent.
fn run(config: SenderConfig, payload_size: usize, phases: Vec<bool>, clocks: Vec<u64>) -> (Vec<SenderAction>, Vec<Vec<u8>>) {
    let mut sender = Sender::new(config, payload_size);
    let mut actions = Vec::new();
    let mut wire = Vec::new();
    let mut phases = phases.into_iter();
    let mut clocks = clocks.into_iter();
    loop {
        let action = sender.action();
        actions.push(action);
        let event = match action {
            SenderAction::Finish => return (actions, wire),
            SenderAction::Send => {
                wire.push(sender.payload().clone());
                SenderEvent::Done
            }
            SenderAction::PollPhase => SenderEvent::Phase(phases.next().unwrap()),
            SenderAction::ReadClock => SenderEvent::Clock(clocks.next().unwrap()),
            _ => SenderEvent::Done,
        };
        sender.advance(event);
    }
}

fn message(header: u64, size: usize) -> Vec<u8> {
    let mut m = header.to_le_bytes().to_vec();
    m.resize(size, 0);
    m
}

#[test]
fn sender_greets_until_flag_is_set() {
    let (_, wire) = run(sender_config(2), 10, vec![false, false, true], vec![100, 200]);
    assert_eq!(
        wire,
        vec![
            message(0, 10),
            message(0, 10),
            message(0, 10),
            message(u64::MAX, 10),
            message(100, 10),
            message(200, 10),
        ]
    );
}

#[test]
fn sender_without_flag_greets_once() {
    let mut config = sender_config(1);
    config.phase_flag = false;
    let (_, wire) = run(config, 8, vec![], vec![5]);
    assert_eq!(wire, vec![message(0, 8), message(u64::MAX, 8), message(5, 8)]);
}

#[test]
fn sender_does_everything_in_order() {
    let mut config = sender_config(1);
    config.replies = true;
    config.records_hello = true;
    config.records_start = true;
    config.release = true;
    let (actions, _) = run(config, 8, vec![false, true], vec![5]);
    assert_eq!(
        actions,
        vec![
            SenderAction::RecordHello,
            SenderAction::Send,
            SenderAction::AwaitReply,
            SenderAction::PollPhase,
            SenderAction::RecordHello,
            SenderAction::Send,
            SenderAction::AwaitReply,
            SenderAction::PollPhase,
            SenderAction::Send,
            SenderAction::AwaitReply,
            SenderAction::RecordStart,
            SenderAction::AwaitRelease,
            SenderAction::ReadClock,
            SenderAction::Send,
            SenderAction::Finish,
        ]
    );
}

#[test]
fn sender_records_hello_and_start_separately() {
    let mut config = sender_config(0);
    config.phase_flag = false;
    config.records_hello = true;
    let (actions, _) = run(config, 8, vec![], vec![]);
    assert_eq!(
        actions,
        vec![SenderAction::RecordHello, SenderAction::Send, SenderAction::Send, SenderAction::Finish]
    );
    config.records_hello = false;
    config.records_start = true;
    let (actions, _) = run(config, 8, vec![], vec![]);
    assert_eq!(
        actions,
        vec![SenderAction::Send, SenderAction::Send, SenderAction::RecordStart, SenderAction::Finish]
    );
}

#[test]
fn sender_without_handshake_sends_data_alone() {
    let mut config = sender_config(2);
    config.handshake = false;
    config.release = true;
    let (actions, wire) = run(config, 9, vec![], vec![7, 8]);
    assert_eq!(actions[0], SenderAction::AwaitRelease);
    assert_eq!(wire, vec![message(7, 9), message(8, 9)]);
}

#[test]
fn sender_without_messages_needs_no_room() {
    let mut config = sender_config(0);
    config.handshake = false;
    let (actions, wire) = run(config, 3, vec![], vec![]);
    assert_eq!(actions, vec![SenderAction::Finish]);
    assert!(wire.is_empty());
}

#[test]
fn sender_pauses_after_each_batch() {
    let mut config = sender_config(5);
    config.handshake = false;
    config.pacing = Some(Pacing { every: 2, millis: 30 });
    let (actions, _) = run(config, 8, vec![], vec![1, 2, 3, 4, 5]);
    assert_eq!(
        actions,
        vec![
            SenderAction::ReadClock,
            SenderAction::Send,
            SenderAction::ReadClock,
            SenderAction::Send,
            SenderAction::Pause(30),
            SenderAction::ReadClock,
            SenderAction::Send,
            SenderAction::ReadClock,
            SenderAction::Send,
            SenderAction::Pause(30),
            SenderAction::ReadClock,
            SenderAction::Send,
            SenderAction::Finish,
        ]
    );
}

#[test]
fn sender_pauses_for_full_batches_only() {
    for (messages, every, pauses) in [(5, 2, 2), (6, 2, 3), (3, 4, 0), (3, 1, 3)] {
        let mut config = sender_config(messages);
        config.handshake = false;
        config.pacing = Some(Pacing { every, millis: 7 });
        let (actions, _) = run(config, 8, vec![], vec![1; messages]);
        let paused = actions.iter().filter(|a| **a == SenderAction::Pause(7)).count();
        assert_eq!(paused, pauses);
    }
}

#[test]
fn sender_without_messages_takes_any_batches() {
    let mut config = sender_config(0);
    config.phase_flag = false;
    config.pacing = Some(Pacing { every: 0, millis: 7 });
    assert!(config.is_valid_for(8));
    assert!(!config.is_valid_for(7));
    assert_eq!(run(config, 8, vec![], vec![]).1.len(), 2);
    config.num_messages = 1;
    assert!(!config.is_valid_for(8));
}

#[test]
fn sender_records_each_hello_and_waits_for_release() {
    let mut config = sender_config(1);
    config.records_hello = true;
    config.records_start = true;
    config.release = true;
    let (actions, wire) = run(config, 8, vec![false, false, true], vec![5]);
    let count = |wanted| actions.iter().filter(|a| **a == wanted).count();
    assert_eq!(count(SenderAction::RecordHello), 3);
    assert_eq!(count(SenderAction::RecordStart), 1);
    assert_eq!(count(SenderAction::AwaitRelease), 1);
    let release = actions.iter().position(|a| *a == SenderAction::AwaitRelease).unwrap();
    let before = actions[..release].iter().filter(|a| **a == SenderAction::Send).count();
    assert_eq!(before, 4);
    assert_eq!(wire[before - 1], message(u64::MAX, 8));
}

#[test]
fn frames_have_the_destination_first() {
    let named = Framing::new(&Some("dealer_3".to_string()));
    assert_eq!(named.count(), 2);
    assert_eq!((named.frame(&[1, 2], 0).bytes, named.frame(&[1, 2], 0).more), (&b"dealer_3"[..], true));
    assert_eq!((named.frame(&[1, 2], 1).bytes, named.frame(&[1, 2], 1).more), (&[1u8, 2][..], false));
    let plain = Framing::new(&None);
    assert_eq!(plain.count(), 1);
    assert_eq!((plain.frame(&[1, 2], 0).bytes, plain.frame(&[1, 2], 0).more), (&[1u8, 2][..], false));
}

#[test]
fn framed_messages_are_the_transcript() {
    let (_, wire) = run(sender_config(2), 8, vec![false, true], vec![3, 4]);
    let framing = Framing::new(&Some("dealer_1".to_string()));
    let mut frames = Vec::new();
    for m in &wire {
        for i in 0..framing.count() {
            let frame = framing.frame(m, i);
            frames.push((frame.bytes.to_vec(), frame.more));
        }
    }
    assert_eq!(frames.len(), 2 * wire.len());
    let last: Vec<Vec<u8>> = frames.into_iter().filter(|f| !f.1).map(|f| f.0).collect();
    assert_eq!(last, wire);
}

#[test]
fn measurable_messages() {
    assert!(is_measurable(&message(5, 8), 5));
    assert!(!is_measurable(&message(6, 8), 5));
    assert!(!is_measurable(&[0; 7], 5));
}

#[test]
fn countable_routers() {
    assert!(is_countable(usize::MAX, 1));
    assert!(!is_countable(usize::MAX, 2));
    assert!(has_router_mark(2, 10));
    assert!(!has_router_mark(usize::MAX, 1));
    assert!(!has_router_mark(usize::MAX, 2));
}

#[test]
fn receiver_acks_first_hello_only() {
    let mut receiver = Receiver::new(receiver_config(1));
    assert_eq!(receiver.phase(), ReceiverPhase::Draining);
    let first = receiver.drain_message(&message(0, 8));
    assert_eq!(first, DrainOutcome { ack_hello: true, ack_begin: false, reply: false });
    let second = receiver.drain_message(&message(0, 8));
    assert_eq!(second, DrainOutcome { ack_hello: false, ack_begin: false, reply: false });
    assert_eq!(receiver.phase(), ReceiverPhase::Draining);
}

#[test]
fn receiver_swallows_data_before_begin() {
    let mut receiver = Receiver::new(receiver_config(1));
    let early = receiver.drain_message(&message(42, 8));
    assert_eq!(early, DrainOutcome { ack_hello: false, ack_begin: false, reply: false });
    assert_eq!(receiver.phase(), ReceiverPhase::Draining);
    assert_eq!(receiver.received(), 0);
    let begin = receiver.drain_message(&message(u64::MAX, 8));
    assert_eq!(begin, DrainOutcome { ack_hello: false, ack_begin: true, reply: false });
    assert_eq!(receiver.phase(), ReceiverPhase::Collecting);
}

#[test]
fn receiver_replies_to_everything_while_draining() {
    let mut config = receiver_config(1);
    config.replies = true;
    config.hello_ack = false;
    config.begin_ack = false;
    let mut receiver = Receiver::new(config);
    for header in [0, 42, u64::MAX] {
        let outcome = receiver.drain_message(&message(header, 8));
        assert_eq!(outcome, DrainOutcome { ack_hello: false, ack_begin: false, reply: true });
    }
    assert_eq!(receiver.phase(), ReceiverPhase::Collecting);
}

#[test]
fn receiver_measures_each_message() {
    let mut receiver = Receiver::new(receiver_config(3));
    receiver.drain_message(&message(u64::MAX, 16));
    receiver.collect_message(&message(100, 16), 150, 2);
    receiver.collect_message(&message(0, 16), 7, -1);
    receiver.collect_message(&message(200, 16), 200, 0);
    assert_eq!(receiver.phase(), ReceiverPhase::Finished);
    assert_eq!(receiver.received(), 3);
    assert_eq!(receiver.into_measurements(), (vec![50, 7, 0], vec![2, -1, 0]));
}

#[test]
fn receiver_without_drain_collects_at_once() {
    let mut config = receiver_config(1);
    config.drain = false;
    assert_eq!(Receiver::new(config).phase(), ReceiverPhase::Collecting);
    config.num_messages = 0;
    assert_eq!(Receiver::new(config).phase(), ReceiverPhase::Finished);
}

#[test]
fn failures_end_a_phase_or_the_run() {
    let mut config = receiver_config(2);
    let mut strict = Receiver::new(config);
    assert!(!strict.drain_failed());
    assert_eq!(strict.phase(), ReceiverPhase::Draining);
    strict.drain_message(&message(u64::MAX, 8));
    assert!(!strict.collect_failed());
    assert_eq!(strict.phase(), ReceiverPhase::Collecting);

    config.drain_failure_ends_drain = true;
    config.collect_failure_ends_collection = true;
    let mut lenient = Receiver::new(config);
    assert!(lenient.drain_failed());
    assert_eq!(lenient.phase(), ReceiverPhase::Collecting);
    lenient.collect_message(&message(1, 8), 3, 0);
    assert!(lenient.collect_failed());
    assert_eq!(lenient.phase(), ReceiverPhase::Finished);
    assert_eq!(lenient.into_measurements(), (vec![2], vec![0]));
}

#[test]
fn everything_that_is_sent_is_measured() {
    let mut config = sender_config(4);
    config.replies = true;
    let clocks = vec![10, 20, 30, 40];
    let (actions, wire) = run(config, 8, vec![false, true], clocks);
    let awaited = actions.iter().filter(|a| **a == SenderAction::AwaitReply).count();
    let mut receiver_config = receiver_config(4);
    receiver_config.replies = true;
    let mut receiver = Receiver::new(receiver_config);
    let mut replies = 0;
    for m in &wire {
        match receiver.phase() {
            ReceiverPhase::Draining => {
                if receiver.drain_message(m).reply {
                    replies += 1;
                }
            }
            ReceiverPhase::Collecting => receiver.collect_message(m, 100, 1),
            ReceiverPhase::Finished => panic!("a message too many"),
        }
    }
    assert_eq!(awaited, 3);
    assert_eq!(replies, 3);
    assert_eq!(receiver.phase(), ReceiverPhase::Finished);
    assert_eq!(receiver.into_measurements().0, vec![90, 80, 70, 60]);
}

#[test]
fn proxied_messages_are_all_measured() {
    let mut config = sender_config(2);
    config.handshake = false;
    let (_, wire) = run(config, 8, vec![], vec![3, 4]);
    let mut drainless = receiver_config(2);
    drainless.drain = false;
    let mut receiver = Receiver::new(drainless);
    for m in &wire {
        receiver.collect_message(m, 10, 0);
    }
    assert_eq!(receiver.phase(), ReceiverPhase::Finished);
    assert_eq!(receiver.into_measurements().0, vec![7, 6]);
}

#[test]
fn router_forwards_all_and_counts_data() {
    let mut router = Router::new(2, 1);
    let mut forwarded = Vec::new();
    for header in [0, 0, u64::MAX, 5, u64::MAX, 6] {
        assert!(router.pending());
        let f = router.forward(Envelope {
            sender: vec![1],
            destination: vec![2, 3],
            payload: message(header, 8),
        });
        assert_eq!(f.destination, vec![2, 3]);
        forwarded.push(f.payload);
    }
    assert!(!router.pending());
    assert_eq!(forwarded[3], message(5, 8));
    assert_eq!(forwarded[4], message(u64::MAX, 8));
}

#[test]
fn ring_delivers_to_the_next_dealer() {
    let mut config = sender_config(2);
    config.phase_flag = false;
    let wires = [run(config, 8, vec![], vec![10, 11]).1, run(config, 8, vec![], vec![20, 21]).1];
    let names = ["dealer_1", "dealer_3"];
    let mut router = Router::new(2, 2);
    let mut received: [Vec<Vec<u8>>; 2] = [Vec::new(), Vec::new()];
    for i in 0..4 {
        for dealer in [1, 0] {
            assert!(router.pending());
            let target = (dealer + 1) % 2;
            let f = router.forward(Envelope {
                sender: vec![dealer as u8],
                destination: names[target].as_bytes().to_vec(),
                payload: wires[dealer][i].clone(),
            });
            let at = names.iter().position(|n| n.as_bytes() == &f.destination[..]).unwrap();
            received[at].push(f.payload);
        }
    }
    assert!(!router.pending());
    assert_eq!(received[1], wires[0]);
    assert_eq!(received[0], wires[1]);
    let mut receiver = Receiver::new(receiver_config(2));
    for m in &received[1] {
        match receiver.phase() {
            ReceiverPhase::Draining => {
                receiver.drain_message(m);
            }
            _ => receiver.collect_message(m, 100, 0),
        }
    }
    assert_eq!(receiver.into_measurements().0, vec![90, 89]);
}

#[test]
fn router_counts_short_messages_as_data() {
    let mut router = Router::new(1, 1);
    router.forward(Envelope { sender: vec![], destination: vec![], payload: vec![0; 7] });
    assert!(!router.pending());
}

#[test]
fn router_without_messages_is_done() {
    assert!(!Router::new(0, 5).pending());
    assert!(!Router::new(5, 0).pending());
    assert!(Router::new(1, 1).pending());
}

#[test]
fn router_mark_has_room_for_all_dealers() {
    assert_eq!(router_hwm(3, 10000), 31000);
    assert_eq!(router_hwm(0, 10000), 1000);
}

#[test]
fn monitor_waits_for_accepted() {
    let start = MonitorStage::ReceiveEvent;
    let other = start.on_event(&[8, 0, 1, 2, 3, 4]);
    assert_eq!(other, MonitorStage::CheckMore { accepted: false });
    assert_eq!(other.on_more(false), MonitorStage::ReceiveEvent);
    assert_eq!(other.on_more(true), MonitorStage::ReceiveEndpoint { accepted: false });
    assert_eq!(other.on_more(true).on_endpoint(), MonitorStage::ReceiveEvent);
    let accepted = start.on_event(&[32, 0, 9, 9, 9, 9]);
    assert_eq!(accepted, MonitorStage::CheckMore { accepted: true });
    assert_eq!(accepted.on_more(false), MonitorStage::Connected);
    assert_eq!(accepted.on_more(true).on_endpoint(), MonitorStage::Connected);
}

#[test]
fn wait_ends_at_first_accepted_event() {
    let events: [(&[u8], bool); 4] =
        [(&[1, 0], true), (&[32], false), (&[32, 0, 5], true), (&[8, 0], true)];
    let mut stage = MonitorStage::ReceiveEvent;
    let mut read = 0;
    for (frame, more) in events {
        if stage == MonitorStage::Connected {
            break;
        }
        stage = stage.on_event(frame).on_more(more);
        if more {
            stage = stage.on_endpoint();
        }
        read += 1;
    }
    assert_eq!(stage, MonitorStage::Connected);
    assert_eq!(read, 3);
}

#[test]
fn monitor_skips_short_frames() {
    let stage = MonitorStage::ReceiveEvent.on_event(&[32]);
    assert_eq!(stage, MonitorStage::CheckMore { accepted: false });
}

#[test]
fn monitor_knows_every_event() {
    for bit in 0..15u32 {
        let raw: u16 = 1 << bit;
        let frame = raw.to_le_bytes();
        assert!(event_is_known(&frame));
        let stage = MonitorStage::ReceiveEvent.on_event(&frame);
        assert_eq!(stage, MonitorStage::CheckMore { accepted: raw == zmq::SocketEvent::ACCEPTED.to_raw() });
    }
    assert!(event_is_known(&[255, 255]));
    assert!(event_is_known(&[7]));
    assert!(!event_is_known(&[3, 0]));
    assert!(!event_is_known(&[0, 128]));
    assert!(!event_is_known(&[0, 0]));
}

#[test]
fn relay_passes_payloads_on() {
    let args = zmq_bench::proxy_router::Args {
        frontend_address: "ipc:///tmp/front.ipc".to_string(),
        backend_address: "ipc:///tmp/back.ipc".to_string(),
        num_messages: 2,
        hwm: None,
    };
    let mut relay = Relay::new(&args);
    assert!(relay.pending());
    assert_eq!(relay.forward(vec![1], vec![2, 3]), vec![2, 3]);
    assert_eq!(relay.forward(vec![1], vec![4]), vec![4]);
    assert!(!relay.pending());
}

#[test]
fn coordinator_acts_when_all_are_heard() {
    let mut c = Coordinator::new(2);
    assert_eq!(c.verdict(), Verdict::Wait);
    c.heard();
    assert_eq!(c.verdict(), Verdict::Wait);
    c.heard();
    assert_eq!(c.verdict(), Verdict::Act);
    assert_eq!(Coordinator::new(0).verdict(), Verdict::Act);
}

#[test]
fn coordinator_gives_up_in_time() {
    let mut c = Coordinator::new(2);
    c.heard();
    c.timed_out();
    assert_eq!(c.verdict(), Verdict::GiveUp);
}

#[test]
fn release_waits_for_both_receivers() {
    let mut receivers = vec![Receiver::new(receiver_config(1)), Receiver::new(receiver_config(1))];
    let mut c = Coordinator::new(2);
    for r in &mut receivers {
        assert_eq!(c.verdict(), Verdict::Wait);
        r.drain_message(&message(0, 8));
        if r.drain_message(&message(u64::MAX, 8)).ack_begin {
            c.heard();
        }
    }
    assert_eq!(c.verdict(), Verdict::Act);
    for r in &receivers {
        assert_eq!(r.phase(), ReceiverPhase::Collecting);
    }
}

#[test]
fn greeting_lasts_until_both_receivers_heard() {
    let mut receivers = vec![Receiver::new(receiver_config(1)), Receiver::new(receiver_config(1))];
    let mut c = Coordinator::new(2);
    for _ in 0..3 {
        if receivers[0].drain_message(&message(0, 8)).ack_hello {
            c.heard();
        }
    }
    assert_eq!(c.verdict(), Verdict::Wait);
    if receivers[1].drain_message(&message(0, 8)).ack_hello {
        c.heard();
    }
    assert_eq!(c.verdict(), Verdict::Act);
}
