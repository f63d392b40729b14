use zmq_bench::endpoints::{
    cleanup_ipc, dealer_address, first_transport_label, ipc_file, ports_suffice, publisher_address,
    router_address, transport_label,
};
use zmq_bench::records::{
    histogram_file, is_stale_file, proxy_histogram_file, raw_latencies_file, raw_latencies_text,
    recv_cpus_file, recv_cpus_text, save_prefix, short_warning,
};
use zmq_bench::text::{append_decimal, append_signed_decimal, starts_with, str_eq, trim_prefixes};

#[test]
fn decimals() {
    for n in [0u64, 9, 10, 99, 100, 1000000007, u64::MAX] {
        let mut s = "n=".to_string();
        append_decimal(&mut s, n);
        assert_eq!(s, format!("n={}", n));
    }
    for i in [0i32, -1, 7, i32::MIN, i32::MAX] {
        let mut s = String::new();
        append_signed_decimal(&mut s, i);
        assert_eq!(s, i.to_string());
    }
}

#[test]
fn prefixes() {
    assert!(starts_with("ipc://x", "ipc://"));
    assert!(starts_with("x", ""));
    assert!(!starts_with("ip", "ipc"));
    assert!(!starts_with("tcp://x", "ipc"));
    assert!(str_eq("ipc", "ipc"));
    assert!(!str_eq("ipc", "ipcs"));
    assert!(!str_eq("ipcs", "ipc"));
    assert!(str_eq("", ""));
    assert_eq!(trim_prefixes("ipc://ipc:///tmp/a", "ipc://"), "/tmp/a");
    assert_eq!(trim_prefixes("abc", "x"), "abc");
    assert_eq!(trim_prefixes("abc", ""), "abc");
    assert_eq!(trim_prefixes("\u{e9}\u{e9}b", "\u{e9}"), "b");
}

#[test]
fn addresses() {
    assert_eq!(publisher_address("ipc", 0), "ipc:///tmp/pub_0.ipc");
    assert_eq!(publisher_address("tcp", 12), "tcp://127.0.0.1:5012");
    assert_eq!(publisher_address("anything", 1), "tcp://127.0.0.1:5001");
    assert_eq!(dealer_address("ipc", 3), "ipc:///tmp/dealer_3.ipc");
    assert_eq!(dealer_address("tcp", 3), "tcp://127.0.0.1:6003");
    assert_eq!(router_address("ipc"), "ipc:///tmp/dealerrouter.ipc");
    assert_eq!(router_address("tcp"), "tcp://127.0.0.1:7000");
}

#[test]
fn ports_for_all_sockets() {
    assert!(ports_suffice("ipc", 5000, usize::MAX));
    assert!(ports_suffice("tcp", 5000, 0));
    assert!(ports_suffice("tcp", 5000, usize::MAX - 4999));
    assert!(!ports_suffice("tcp", 5000, usize::MAX - 4998));
}

#[test]
fn transport_is_exactly_ipc() {
    assert_eq!(router_address("IPC"), "tcp://127.0.0.1:7000");
    assert_eq!(router_address("ipc "), "tcp://127.0.0.1:7000");
}

#[test]
fn addresses_of_different_numbers_differ() {
    for transport in ["ipc", "tcp"] {
        for a in 0..12 {
            for b in 0..a {
                assert_ne!(publisher_address(transport, a), publisher_address(transport, b));
                assert_ne!(dealer_address(transport, a), dealer_address(transport, b));
            }
        }
    }
}

#[test]
fn files_behind_addresses() {
    assert_eq!(ipc_file("ipc:///tmp/pub_0.ipc"), Some("/tmp/pub_0.ipc".to_string()));
    assert_eq!(ipc_file("ipc://ipc://x"), Some("x".to_string()));
    assert_eq!(ipc_file("tcp://127.0.0.1:5000"), None);
    assert_eq!(ipc_file("ipc:/x"), None);
    assert_eq!(ipc_file(""), None);
}

#[test]
fn transport_labels() {
    assert_eq!(transport_label("ipc:///tmp/x"), "IPC");
    assert_eq!(transport_label("ipc"), "IPC");
    assert_eq!(transport_label("tcp://127.0.0.1:1"), "TCP");
    assert_eq!(first_transport_label(&vec![]), "TCP");
    assert_eq!(
        first_transport_label(&vec!["ipc://a".to_string(), "tcp://b".to_string()]),
        "IPC"
    );
}

#[test]
fn cleanup_names_every_socket() {
    assert_eq!(cleanup_ipc("pub", 2), vec!["/tmp/pub_0.ipc", "/tmp/pub_1.ipc"]);
    assert_eq!(cleanup_ipc("dealer", 1), vec!["/tmp/dealer_0.ipc"]);
    assert_eq!(cleanup_ipc("dealerrouter", 0), vec!["/tmp/dealerrouter.ipc"]);
    assert_eq!(cleanup_ipc("dealerrouter", 1), vec!["/tmp/dealerrouter_0.ipc"]);
    assert!(cleanup_ipc("pub", 0).is_empty());
}

#[test]
fn cleanup_covers_bound_files() {
    for id in 0..3 {
        let file = ipc_file(&publisher_address("ipc", id)).unwrap();
        assert!(cleanup_ipc("pub", 3).contains(&file));
        let file = ipc_file(&dealer_address("ipc", id)).unwrap();
        assert!(cleanup_ipc("dealer", 3).contains(&file));
    }
    assert_eq!(cleanup_ipc("dealerrouter", 0), vec![ipc_file(&router_address("ipc")).unwrap()]);
}

#[test]
fn names_of_saved_files() {
    let prefix = save_prefix("PubSub", "IPC", 64, 4711, 3);
    assert_eq!(prefix, "indiv_PubSub_IPC_64_4711_3");
    assert_eq!(histogram_file(&prefix), "indiv_PubSub_IPC_64_4711_3.hgrm");
    assert_eq!(raw_latencies_file(&prefix), "indiv_PubSub_IPC_64_4711_3.rawlat.txt");
    assert_eq!(recv_cpus_file(&prefix), "indiv_PubSub_IPC_64_4711_3.recv_cpus.txt");
    assert_eq!(proxy_histogram_file("proxy", 256, 1), "proxy_256_pair_1.hgrm");
}

#[test]
fn saved_names_differ_by_number() {
    assert_ne!(
        raw_latencies_file(&save_prefix("Dealer", "TCP", 8, 1, 1)),
        raw_latencies_file(&save_prefix("Dealer", "TCP", 8, 1, 11))
    );
}

#[test]
fn texts_of_saved_files() {
    assert_eq!(raw_latencies_text(&[]), "");
    assert_eq!(raw_latencies_text(&[10, 0, u64::MAX]), "10\n0\n18446744073709551615\n");
    assert_eq!(recv_cpus_text(&[]), "");
    assert_eq!(recv_cpus_text(&[3, -1]), "3\n-1\n");
}

#[test]
fn stale_files() {
    assert!(is_stale_file("hgrm", "x.hgrm"));
    assert!(is_stale_file("rawlat.txt", "x"));
    assert!(is_stale_file("txt", "indiv_PubSub_IPC_8_1_0.rawlat.txt"));
    assert!(!is_stale_file("txt", "x.rawlat.txt"));
    assert!(!is_stale_file("csv", "results.csv"));
    assert!(!is_stale_file("", "indiv"));
}

#[test]
fn warning_about_missing_messages() {
    assert_eq!(
        short_warning(7, 10),
        Some("Warning: Received 7/10 messages (dropped 3)".to_string())
    );
    assert_eq!(short_warning(10, 10), None);
    assert_eq!(short_warning(11, 10), None);
    assert_eq!(short_warning(0, 0), None);
}
