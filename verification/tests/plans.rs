use std::sync::atomic::{AtomicU64, Ordering};
use std::sync::Arc;
use zmq_bench::plans::SocketKind;
use zmq_bench::roles::{
    dealer_plans, launch_dealer, launch_dealerrouter, launch_pubsub, publisher_plan, receiver_plan,
    router_plan, sender_plan, subscriber_plan, Awaited, CoordinatorPlan, Pattern, Released,
    SyncHandles, SyncPhase,
};
use zmq_bench::sender::Pacing;
use zmq_bench::suite::{run_benchmarks, section_titles, Run, SuiteConfig};
use zmq_bench::{
    dealer_receiver, dealer_sender, dealerrouter_dealer, dealerrouter_router, proxy_dealer,
    proxy_router, publisher, subscriber,
};

#[test]
fn publisher_with_pauses() {
    let mut args = publisher::Args {
        payload_size: 64,
        num_messages: 10,
        address: "ipc:///tmp/p.ipc".to_string(),
        hwm: 5,
        batch_sleep_ms: 2,
    };
    let p = publisher::plan(&args, true, false, true);
    assert_eq!(p.socket.kind, SocketKind::Pub);
    assert_eq!((p.socket.sndhwm, p.socket.rcvhwm), (Some(5), None));
    assert!(p.socket.bind);
    assert_eq!(p.socket.addresses, vec!["ipc:///tmp/p.ipc"]);
    assert_eq!(p.payload_size, 64);
    assert_eq!(p.config.pacing, Some(Pacing { every: 5, millis: 2 }));
    assert!(p.config.phase_flag && !p.config.records_hello && p.config.records_start);
    assert!(!p.config.replies && !p.config.release);
    assert_eq!(p.remove, Some("/tmp/p.ipc".to_string()));
    args.batch_sleep_ms = 0;
    args.hwm = 0;
    assert_eq!(publisher::plan(&args, true, true, true).config.pacing, None);
}

#[test]
fn subscriber_with_timeouts() {
    let args = subscriber::Args {
        addresses: vec!["tcp://a".to_string(), "ipc://b".to_string()],
        num_messages: 10,
        payload_size: 64,
    };
    let p = subscriber::plan(&args, true, false);
    assert_eq!(p.socket.kind, SocketKind::Sub);
    assert_eq!((p.socket.sndhwm, p.socket.rcvhwm), (None, Some(1010)));
    assert!(!p.socket.bind);
    assert_eq!(p.socket.addresses, args.addresses);
    assert_eq!((p.drain_timeout_ms, p.collect_timeout_ms), (Some(30000), Some(60000)));
    assert!(p.config.drain_failure_ends_drain && p.config.collect_failure_ends_collection);
    assert!(p.config.hello_ack && !p.config.begin_ack && !p.config.replies);
    assert_eq!(p.label.map(|l| (l.pattern, l.transport)), Some(("PubSub", "TCP")));
    assert!(p.warn_short);
}

#[test]
fn dealer_pair() {
    let s = dealer_sender::plan(
        &dealer_sender::Args { payload_size: 8, num_messages: 1, receiver_address: "tcp://r".to_string() },
        false,
        true,
        false,
    );
    assert_eq!((s.socket.sndhwm, s.socket.rcvhwm), (Some(1001), Some(1001)));
    assert!(!s.socket.bind && s.config.replies && !s.config.phase_flag);
    assert!(s.config.records_hello && !s.config.records_start);
    let r = dealer_receiver::plan(
        &dealer_receiver::Args { payload_size: 8, num_messages: 1, bind_address: "ipc://r".to_string() },
        true,
    );
    assert!(r.socket.bind && r.config.replies && r.config.hello_ack && !r.config.begin_ack);
    assert!(!r.config.drain_failure_ends_drain && !r.config.collect_failure_ends_collection);
    assert_eq!((r.drain_timeout_ms, r.collect_timeout_ms), (None, None));
    assert_eq!(r.remove, Some("r".to_string()));
    assert!(!r.warn_short);
}

#[test]
fn dealers_are_a_ring() {
    let mut args = dealerrouter_dealer::Args {
        payload_size: 8,
        num_messages: 1,
        router_address: "tcp://r".to_string(),
        dealer_id: 0,
        num_dealers: 3,
    };
    let mut seen = Vec::new();
    for id in 0..3 {
        args.dealer_id = id;
        let r = dealerrouter_dealer::receiver_plan(&args);
        let s = dealerrouter_dealer::sender_plan(&args, true, true, true);
        assert_eq!(r.socket.identity, Some(format!("dealer_{}", 2 * id + 1)));
        assert_eq!(s.socket.identity, Some(format!("dealer_{}", 2 * id)));
        assert_eq!(s.destination, Some(format!("dealer_{}", ((id + 1) % 3) * 2 + 1)));
        assert!(r.end_barrier);
        seen.push(s.socket.identity.unwrap());
        seen.push(r.socket.identity.unwrap());
    }
    seen.sort();
    seen.dedup();
    assert_eq!(seen.len(), 6);
}

#[test]
fn lone_dealer_sends_to_itself() {
    let args = dealerrouter_dealer::Args {
        payload_size: 8,
        num_messages: 1,
        router_address: "tcp://r".to_string(),
        dealer_id: 0,
        num_dealers: 1,
    };
    let r = dealerrouter_dealer::receiver_plan(&args);
    let s = dealerrouter_dealer::sender_plan(&args, true, true, true);
    assert_eq!(s.destination, r.socket.identity);
}

#[test]
fn router_with_own_mark() {
    let p = dealerrouter_router::plan(&dealerrouter_router::Args {
        bind_address: "ipc:///tmp/r.ipc".to_string(),
        num_dealers: 2,
        num_messages_per_dealer: 3,
        hwm: 9,
    });
    assert_eq!(p.socket.kind, SocketKind::Router);
    assert_eq!((p.socket.sndhwm, p.socket.rcvhwm), (Some(9), Some(9)));
    assert!(p.router.pending());
    assert_eq!(p.remove, Some("/tmp/r.ipc".to_string()));
}

#[test]
fn proxy_and_its_dealers() {
    let args = proxy_dealer::Args {
        frontend_address: "ipc:///tmp/f.ipc".to_string(),
        backend_address: "ipc:///tmp/b.ipc".to_string(),
        payload_size: 8,
        num_messages: 4,
        pair_id: 7,
        benchmark_name: "proxy".to_string(),
        hwm: Some(11),
    };
    let r = proxy_dealer::receiver_plan(&args);
    assert!(r.socket.bind && !r.config.drain);
    assert_eq!((r.socket.sndhwm, r.socket.rcvhwm), (None, Some(11)));
    assert_eq!(r.remove, Some("/tmp/b.ipc".to_string()));
    assert!(r.label.is_none());
    let s = proxy_dealer::sender_plan(&args);
    assert!(!s.socket.bind && !s.config.handshake && s.config.release);
    assert_eq!((s.socket.sndhwm, s.socket.rcvhwm), (Some(11), None));
    assert_eq!(proxy_dealer::histogram_file(&args), "proxy_8_pair_7.hgrm");
    let p = proxy_router::plan(&proxy_router::Args {
        frontend_address: args.frontend_address.clone(),
        backend_address: args.backend_address.clone(),
        num_messages: 4,
        hwm: None,
    });
    assert_eq!((p.frontend.kind, p.backend.kind), (SocketKind::Router, SocketKind::Dealer));
    assert!(p.frontend.bind && !p.backend.bind);
    assert_eq!(p.remove, Some("/tmp/f.ipc".to_string()));
    assert!(p.relay.pending());
}

#[test]
fn roles_of_a_run() {
    let p = publisher_plan(8, 100, "tcp://p", true, true);
    assert_eq!(p.socket.sndhwm, Some(1100));
    assert!(p.config.release && p.config.records_hello && p.config.records_start);
    assert_eq!(p.remove, None);
    let s = subscriber_plan(vec!["ipc://p".to_string()], 100, 8, true, true, 1234);
    assert_eq!((s.drain_timeout_ms, s.collect_timeout_ms), (Some(2000), Some(1234)));
    assert!(!s.config.drain_failure_ends_drain && s.config.collect_failure_ends_collection);
    assert_eq!(s.label.map(|l| l.transport), Some("IPC"));
    let d = sender_plan(8, 100, "tcp://d", true);
    assert!(d.config.replies && d.config.phase_flag && !d.config.release);
    let r = receiver_plan(8, 100, "ipc://d", true, 5);
    assert!(r.config.replies && r.config.collect_failure_ends_collection && r.warn_short);
    assert_eq!(r.remove, Some("d".to_string()));
    let args = dealerrouter_dealer::Args {
        payload_size: 8,
        num_messages: 100,
        router_address: "ipc://r".to_string(),
        dealer_id: 1,
        num_dealers: 2,
    };
    let (receiver, sender) = dealer_plans(&args, true, 9);
    assert_eq!(receiver.collect_timeout_ms, Some(9));
    assert!(receiver.end_barrier && !receiver.warn_short);
    assert_eq!(sender.destination, Some("dealer_1".to_string()));
    let router = router_plan("ipc://r", 2, 100);
    assert_eq!(router.socket.rcvhwm, Some(1200));
}

#[test]
fn launches() {
    let groups = launch_pubsub(2, 3, "tcp");
    assert_eq!(groups.len(), 2);
    assert_eq!(groups[1].address, "tcp://127.0.0.1:5001");
    assert_eq!(groups[1].receivers, 3);
    assert_eq!(launch_dealer(2, "ipc"), vec!["ipc:///tmp/dealer_0.ipc", "ipc:///tmp/dealer_1.ipc"]);
    let ring = launch_dealerrouter(2, "ipc", 64, 10);
    assert_eq!(ring.router_address, "ipc:///tmp/dealerrouter.ipc");
    assert_eq!(ring.barrier_parties, 3);
    assert_eq!(ring.dealers.len(), 2);
    assert_eq!(ring.dealers[1].dealer_id, 1);
    assert_eq!(ring.dealers[1].num_dealers, 2);
    assert_eq!(ring.dealers[1].router_address, ring.router_address);
    assert!(launch_pubsub(0, 3, "tcp").is_empty());
}

#[test]
fn sync_handles_share_the_readings() {
    let sync = SyncPhase {
        first_hello_tsc: Arc::new(AtomicU64::new(u64::MAX)),
        last_bench_start_tsc: Arc::new(AtomicU64::new(0)),
    };
    let handles = SyncHandles::from_sync(&sync);
    handles.first.fetch_min(10, Ordering::Relaxed);
    handles.last.fetch_max(20, Ordering::Relaxed);
    assert_eq!(sync.first_hello_tsc.load(Ordering::Relaxed), 10);
    assert_eq!(sync.last_bench_start_tsc.load(Ordering::Relaxed), 20);
}

#[test]
fn pattern_texts() {
    let pubsub = Pattern::PubSub { num_senders: 2, num_receivers_per_sender: 3 };
    let dealer = Pattern::Dealer { num_pairs: 4 };
    let ring = Pattern::DealerRouter { num_dealers: 5 };
    assert_eq!(pubsub.name(), "PubSub");
    assert_eq!(dealer.name(), "Dealer");
    assert_eq!(ring.name(), "DealerRouter");
    assert_eq!(pubsub.per_item_label(), "pubsub-receiver");
    assert_eq!(dealer.per_item_label(), "");
    assert_eq!(ring.per_item_label(), "dealerrouter-dealer");
    assert_eq!(pubsub.start_message(), "Starting benchmark with 2 senders and 3 receivers per sender");
    assert_eq!(dealer.start_message(), "Starting dealer benchmark with 4 pairs");
    assert_eq!(ring.start_message(), "Starting dealer-router benchmark with 5 dealers");
    assert_eq!(pubsub.total_tasks(), 8);
    assert_eq!(dealer.total_tasks(), 8);
    assert_eq!(ring.total_tasks(), 11);
}

#[test]
fn countable_patterns() {
    let many = usize::MAX;
    assert!(!Pattern::PubSub { num_senders: 1, num_receivers_per_sender: many }.is_countable());
    assert!(!Pattern::PubSub { num_senders: many, num_receivers_per_sender: 1 }.is_countable());
    assert!(Pattern::PubSub { num_senders: many, num_receivers_per_sender: 0 }.is_countable());
    assert!(!Pattern::Dealer { num_pairs: many / 2 + 1 }.is_countable());
    assert!(Pattern::Dealer { num_pairs: many / 2 }.is_countable());
    assert!(Pattern::DealerRouter { num_dealers: many / 2 }.is_countable());
    assert!(!Pattern::DealerRouter { num_dealers: many / 2 + 1 }.is_countable());
}

#[test]
fn dealers_in_range() {
    assert!(dealerrouter_dealer::is_in_range(0, 1));
    assert!(!dealerrouter_dealer::is_in_range(0, 0));
    assert!(dealerrouter_dealer::is_in_range(usize::MAX / 2, 3));
    assert!(!dealerrouter_dealer::is_in_range(usize::MAX / 2 + 1, 3));
    assert!(!dealerrouter_dealer::is_in_range(usize::MAX / 2, usize::MAX));
}

#[test]
fn coordinators_of_runs() {
    let greeting = |group, parties, first, count| CoordinatorPlan {
        group,
        awaited: Awaited::Hello,
        parties,
        released: Released::Greeting { first, count },
    };
    let release = |sender, parties| CoordinatorPlan {
        group: sender,
        awaited: Awaited::Begin,
        parties,
        released: Released::Messages { sender },
    };
    let pubsub = Pattern::PubSub { num_senders: 2, num_receivers_per_sender: 3 };
    assert_eq!(
        pubsub.coordinators(),
        vec![greeting(0, 3, 0, 1), release(0, 3), greeting(1, 3, 1, 1), release(1, 3)]
    );
    let dealer = Pattern::Dealer { num_pairs: 2 };
    assert_eq!(dealer.coordinators(), vec![greeting(0, 1, 0, 1), greeting(1, 1, 1, 1)]);
    let ring = Pattern::DealerRouter { num_dealers: 4 };
    assert_eq!(ring.coordinators(), vec![greeting(0, 4, 0, 4)]);
}

#[test]
fn sections_of_the_series() {
    assert_eq!(section_titles(), vec!["PUB/SUB", "DEALER", "DEALER-ROUTER"]);
}

#[test]
fn series_of_runs() {
    let config = SuiteConfig {
        num_senders: 1,
        num_receivers_per_sender: 2,
        num_dealer_pairs: 3,
        num_dealerrouter_dealers: 4,
        payload_sizes: vec![8, 64],
    };
    let runs = run_benchmarks(&config);
    let listed: Vec<(&str, &str, usize)> =
        runs.iter().map(|r| (r.title(), r.transport, r.payload_size)).collect();
    assert_eq!(
        listed,
        vec![
            ("PUB/SUB", "ipc", 8),
            ("PUB/SUB", "ipc", 64),
            ("PUB/SUB", "tcp", 8),
            ("PUB/SUB", "tcp", 64),
            ("DEALER", "ipc", 8),
            ("DEALER", "ipc", 64),
            ("DEALER", "tcp", 8),
            ("DEALER", "tcp", 64),
            ("DEALER-ROUTER", "ipc", 8),
            ("DEALER-ROUTER", "ipc", 64),
            ("DEALER-ROUTER", "tcp", 8),
            ("DEALER-ROUTER", "tcp", 64),
        ]
    );
    assert_eq!(runs[5].pattern, Pattern::Dealer { num_pairs: 3 });
    assert!(run_benchmarks(&SuiteConfig { payload_sizes: vec![], ..config }).is_empty());
}

#[test]
fn leftovers_of_runs() {
    let pattern = Pattern::PubSub { num_senders: 2, num_receivers_per_sender: 1 };
    let run = Run { pattern, transport: "ipc", payload_size: 8 };
    assert_eq!(run.leftover_files(), vec!["/tmp/pub_0.ipc", "/tmp/pub_1.ipc"]);
    let run = Run { pattern, transport: "tcp", payload_size: 8 };
    assert!(run.leftover_files().is_empty());
    let run = Run { pattern: Pattern::Dealer { num_pairs: 1 }, transport: "ipc", payload_size: 8 };
    assert_eq!(run.leftover_files(), vec!["/tmp/dealer_0.ipc"]);
    let run = Run {
        pattern: Pattern::DealerRouter { num_dealers: 9 },
        transport: "ipc",
        payload_size: 8,
    };
    assert_eq!(run.leftover_files(), vec!["/tmp/dealerrouter.ipc"]);
}
