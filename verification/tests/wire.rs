use zmq_bench::proxy_dealer;
use zmq_bench::zmq_helpers::{
    allowed_cpu, assign_next_cpu, cpu_for_ticket, extract_timestamp, has_mark, hwm,
    is_begin_marker, is_hello_marker, next_save_id, suite_worker_threads, threads_for, worker_threads, write_header,
    BEGIN_BENCHMARK_MARKER, HELLO_MARKER,
};

#[test]
fn marker_values() {
    assert_eq!(HELLO_MARKER, 0);
    assert_eq!(BEGIN_BENCHMARK_MARKER, u64::MAX);
}

#[test]
fn header_is_little_endian() {
    let mut buffer = vec![9u8; 10];
    write_header(&mut buffer, 0x0102_0304_0506_0708);
    assert_eq!(buffer, vec![8, 7, 6, 5, 4, 3, 2, 1, 9, 9]);
    assert_eq!(extract_timestamp(&buffer), 0x0102_0304_0506_0708);
    assert_eq!(proxy_dealer::extract_timestamp(&buffer), 0x0102_0304_0506_0708);
}

#[test]
fn header_agrees_with_std() {
    for value in [0u64, 1, 255, 256, 65535, 1 << 40, u64::MAX - 1, u64::MAX] {
        let mut buffer = vec![0u8; 8];
        write_header(&mut buffer, value);
        assert_eq!(buffer, value.to_le_bytes().to_vec());
        assert_eq!(extract_timestamp(&buffer), value);
    }
}

#[test]
fn second_stamp_replaces_first() {
    let mut once = vec![5u8; 12];
    let mut twice = vec![5u8; 12];
    write_header(&mut once, 77);
    write_header(&mut twice, u64::MAX);
    write_header(&mut twice, 77);
    assert_eq!(once, twice);
}

#[test]
fn hello_is_zero_header() {
    assert!(is_hello_marker(&[0, 0, 0, 0, 0, 0, 0, 0]));
    assert!(is_hello_marker(&[0, 0, 0, 0, 0, 0, 0, 0, 1]));
    assert!(!is_hello_marker(&[1, 0, 0, 0, 0, 0, 0, 0]));
    assert!(!is_hello_marker(&[0, 0, 0, 0, 0, 0, 0, 1]));
}

#[test]
fn begin_is_full_header() {
    assert!(is_begin_marker(&[255; 8]));
    assert!(is_begin_marker(&[255, 255, 255, 255, 255, 255, 255, 255, 0]));
    assert!(!is_begin_marker(&[255, 255, 255, 254, 255, 255, 255, 255]));
}

#[test]
fn short_messages_are_no_markers() {
    assert!(!is_hello_marker(&[0; 7]));
    assert!(!is_begin_marker(&[255; 7]));
    assert!(!is_hello_marker(&[]));
    assert!(!is_begin_marker(&[]));
}

#[test]
fn no_message_is_both_markers() {
    let mut buffer = vec![0u8; 8];
    for value in [0u64, 1, u64::MAX] {
        write_header(&mut buffer, value);
        assert!(!(is_hello_marker(&buffer) && is_begin_marker(&buffer)));
        assert_eq!(is_hello_marker(&buffer), value == 0);
        assert_eq!(is_begin_marker(&buffer), value == u64::MAX);
    }
}

#[test]
fn high_water_mark_has_headroom() {
    assert_eq!(hwm(0), 1000);
    assert_eq!(hwm(10000), 11000);
    assert_eq!(hwm(i32::MAX as usize - 1000), i32::MAX);
    assert_eq!(hwm(i32::MAX as usize - 999), i32::MIN);
}

#[test]
fn save_ids_count_up_and_wrap() {
    let mut counter: usize = 0;
    assert_eq!(next_save_id(&mut counter), 0);
    assert_eq!(next_save_id(&mut counter), 1);
    assert_eq!(next_save_id(&mut counter), 2);
    counter = usize::MAX;
    assert_eq!(next_save_id(&mut counter), usize::MAX);
    assert_eq!(next_save_id(&mut counter), 0);
}

#[test]
fn cpus_go_round() {
    assert_eq!(cpu_for_ticket(0, 4), 0);
    assert_eq!(cpu_for_ticket(3, 4), 3);
    assert_eq!(cpu_for_ticket(4, 4), 0);
    assert_eq!(cpu_for_ticket(11, 4), 3);
    assert_eq!(cpu_for_ticket(7, 0), 0);
}

#[test]
fn assigned_cpu_is_one_of_this_machine() {
    let cpus = num_cpus::get();
    let mut counter: usize = 0;
    for i in 0..2 * cpus {
        assert_eq!(assign_next_cpu(&mut counter, &vec![]), i % cpus);
    }
    assert_eq!(counter, 2 * cpus);
}

#[test]
fn allowed_cpus_go_round() {
    let allowed = vec![8, 9, 12];
    assert_eq!(allowed_cpu(0, &allowed, 3), 8);
    assert_eq!(allowed_cpu(5, &allowed, 3), 12);
    assert_eq!(allowed_cpu(5, &allowed, 100), 12);
    assert_eq!(allowed_cpu(5, &vec![], 4), 1);
    assert_eq!(allowed_cpu(5, &vec![], 0), 0);
}

#[test]
fn quota_narrows_the_allowed_cpus() {
    let allowed = vec![8, 9, 12];
    let taken: Vec<usize> = (0..4).map(|ticket| allowed_cpu(ticket, &allowed, 2)).collect();
    assert_eq!(taken, vec![8, 9, 8, 9]);
    assert_eq!(allowed_cpu(7, &allowed, 0), 8);
}

#[test]
fn assigned_cpus_are_allowed() {
    let allowed = vec![8, 9, 12];
    let width = num_cpus::get().min(3);
    let mut counter: usize = 1;
    for i in 1..5 {
        assert_eq!(assign_next_cpu(&mut counter, &allowed), allowed[i % width]);
    }
    assert_eq!(counter, 5);
}

#[test]
fn marks_have_a_limit() {
    assert!(has_mark(usize::MAX - 1000));
    assert!(!has_mark(usize::MAX - 999));
}

#[test]
fn threads_do_not_exceed_cpus() {
    assert_eq!(threads_for(2, 8), 2);
    assert_eq!(threads_for(9, 8), 8);
    assert_eq!(threads_for(8, 8), 8);
    assert_eq!(worker_threads(1), 1);
    assert_eq!(worker_threads(1000000), num_cpus::get());
    assert_eq!(suite_worker_threads(), num_cpus::get());
}
