use hdrhistogram::serialization::Serializer;
use zmq_bench::aggregator::{
    append_benchmark_result, benchmark_result, encode_histogram, histogram_of, pool,
    LatencyHistogram,
};
use zmq_bench::errors::{
    join_error_message, join_message, BenchError, HdrResultExt, JoinResultExt, ZmqResultExt,
};

fn histogram(latencies: &[u64]) -> LatencyHistogram {
    histogram_of(&latencies.to_vec()).unwrap()
}

fn row(latencies: &[u64]) -> (u64, u64, u64) {
    let r = benchmark_result("P", "T", 8, &histogram(latencies));
    (r.min_latency_ns, r.median_latency_ns, r.max_latency_ns)
}

fn bytes(latencies: &[u64]) -> Vec<u8> {
    encode_histogram(&histogram(latencies)).unwrap()
}

fn slot(value: u64) -> (u64, u64) {
    let mut width = 1;
    while value / width >= 2048 {
        width *= 2;
    }
    (value / width * width, value / width * width + (width - 1))
}

#[test]
fn empty_histogram() {
    assert_eq!(row(&[]), (0, 0, 0));
}

#[test]
fn small_values_are_exact() {
    assert_eq!(row(&[5]), (5, 5, 5));
    assert_eq!(row(&[3, 1, 2]), (1, 2, 3));
    assert_eq!(row(&[4, 1, 2, 3]), (1, 2, 4));
    assert_eq!(row(&[0, 0, 2047]), (0, 0, 2047));
    assert_eq!(row(&[0]), (0, 0, 0));
}

#[test]
fn large_values_fall_into_slots() {
    for value in [2048u64, 2049, 4095, 4096, 4099, 123456789, 1 << 40, (1 << 62) + 12345, 1 << 63, u64::MAX - (1 << 54)] {
        let (floor, ceiling) = slot(value);
        assert_eq!(row(&[value]), (floor, ceiling, ceiling));
    }
    assert_eq!(row(&[4099]), (4096, 4099, 4099));
}

#[test]
fn last_slot_is_open() {
    let top = 0xffe0_0000_0000_0000u64;
    assert_eq!(slot(top), (top, u64::MAX));
    assert_eq!(row(&[top]), (top, u64::MAX - 1, u64::MAX - 1));
    assert_eq!(row(&[u64::MAX]), (u64::MAX, u64::MAX - 1, u64::MAX));
    let (lowest, _, highest) = row(&[u64::MAX, 17]);
    assert_eq!(lowest, 17);
    assert!(highest >= u64::MAX - 1);
}

#[test]
fn latencies_lie_within_the_row() {
    let latencies = [812u64, 9001, 77123, 15, 4096, 1234567];
    let (lowest, median, highest) = row(&latencies);
    for latency in latencies {
        assert!(lowest <= latency && latency <= highest);
    }
    assert!(lowest <= median && median <= highest);
    assert_eq!((lowest, median, highest), (15, slot(4096).1, slot(1234567).1));
}

#[test]
fn pooling_is_one_histogram_of_all() {
    let parts = vec![histogram(&[1, 5000]), histogram(&[]), histogram(&[70000, 3, 2])];
    let pooled = pool(&parts).unwrap();
    let r = benchmark_result("P", "T", 8, &pooled);
    assert_eq!(
        (r.min_latency_ns, r.median_latency_ns, r.max_latency_ns),
        row(&[1, 5000, 70000, 3, 2])
    );
    let none = benchmark_result("P", "T", 8, &pool(&vec![]).unwrap());
    assert_eq!(none.max_latency_ns, 0);
}

#[test]
fn pooling_goes_both_ways() {
    for parts in [vec![histogram(&[1 << 40]), histogram(&[7])], vec![histogram(&[7]), histogram(&[1 << 40])]] {
        let r = benchmark_result("P", "T", 8, &pool(&parts).unwrap());
        assert_eq!((r.min_latency_ns, r.median_latency_ns, r.max_latency_ns), row(&[7, 1 << 40]));
    }
}

#[test]
fn row_of_results() {
    let h = histogram(&[10, 20, 30]);
    let appended = append_benchmark_result("PubSub", "IPC", 64, &h, false).unwrap();
    assert_eq!(appended.row.pattern, "PubSub");
    assert_eq!(appended.row.transport, "IPC");
    assert_eq!(appended.row.payload_size_bytes, 64);
    assert_eq!(appended.row.min_latency_ns, 10);
    assert_eq!(appended.row.median_latency_ns, 20);
    assert_eq!(appended.row.max_latency_ns, 30);
    assert!(appended.header);
    assert_eq!(appended.message, "Aggregated benchmark result for PubSub-IPC (64 bytes)");
    assert!(!append_benchmark_result("PubSub", "IPC", 64, &h, true).unwrap().header);
}

#[test]
fn encoding_is_that_of_the_crate() {
    let mut h = hdrhistogram::Histogram::<u64>::new(3).unwrap();
    for v in [1u64, 1, 5000, 99] {
        h.record(v).unwrap();
    }
    let mut expected = Vec::new();
    hdrhistogram::serialization::V2Serializer::new().serialize(&h, &mut expected).unwrap();
    assert_eq!(bytes(&[1, 1, 5000, 99]), expected);
}

#[test]
fn encoding_is_read_back() {
    let cases: Vec<Vec<u64>> =
        vec![vec![], vec![0], vec![7, 7, 5000], vec![1 << 40, 3], vec![u64::MAX, 1]];
    for latencies in cases {
        let written = bytes(&latencies);
        let read: hdrhistogram::Histogram<u64> =
            hdrhistogram::serialization::Deserializer::new().deserialize(&mut &written[..]).unwrap();
        assert_eq!(read.len(), latencies.len() as u64);
        for latency in &latencies {
            let same = latencies.iter().filter(|l| slot(**l) == slot(*latency)).count();
            assert_eq!(read.count_at(*latency), same as u64);
        }
        let mut again = Vec::new();
        hdrhistogram::serialization::V2Serializer::new().serialize(&read, &mut again).unwrap();
        assert_eq!(again, written);
    }
}

#[test]
fn encoding_depends_on_slots_and_limit() {
    assert_eq!(bytes(&[4096, 5]), bytes(&[5, 4099]));
    assert_ne!(bytes(&[4096, 5]), bytes(&[5, 4100]));
    assert_ne!(bytes(&[]), bytes(&[0]));
}

#[test]
fn histogram_limits_grow() {
    let limit = |latencies: &[u64]| {
        let b = bytes(latencies);
        let mut field = [0u8; 8];
        field.copy_from_slice(&b[24..32]);
        u64::from_be_bytes(field)
    };
    assert_eq!(limit(&[]), 2);
    assert_eq!(limit(&[2047]), 2);
    assert_eq!(limit(&[2048]), 4095);
    assert_eq!(limit(&[5000, 2048]), 8191);
    assert_eq!(limit(&[1 << 62]), (1 << 63) - 1);
    assert_eq!(limit(&[1 << 63]), u64::MAX - 1);
    assert_eq!(limit(&[u64::MAX]), u64::MAX - 1);
}

#[test]
fn pooled_limit_reaches_the_highest_value() {
    let limit = |parts: Vec<LatencyHistogram>| {
        let b = encode_histogram(&pool(&parts).unwrap()).unwrap();
        let mut field = [0u8; 8];
        field.copy_from_slice(&b[24..32]);
        u64::from_be_bytes(field)
    };
    assert_eq!(limit(vec![]), 2);
    assert_eq!(limit(vec![histogram(&[])]), 2);
    assert_eq!(limit(vec![histogram(&[2047])]), 2);
    assert_eq!(limit(vec![histogram(&[5000])]), 5003);
    assert_eq!(limit(vec![histogram(&[5000]), histogram(&[8191])]), 5003);
    assert_eq!(limit(vec![histogram(&[5000]), histogram(&[8192])]), 8199);
    assert_eq!(limit(vec![histogram(&[u64::MAX]), histogram(&[u64::MAX])]), u64::MAX);
}

#[test]
fn good_results_stay_good() {
    let z: Result<u8, zmq::Error> = Ok(1);
    assert!(matches!(ZmqResultExt::box_err(z), Ok(1)));
    let c: Result<u8, hdrhistogram::CreationError> = Ok(2);
    assert!(matches!(HdrResultExt::box_err(c), Ok(2)));
    let j: Result<Result<u8, BenchError>, tokio::task::JoinError> = Ok(Ok(3));
    assert!(matches!(j.join_err(), Ok(3)));
}

#[test]
fn errors_keep_their_source() {
    let z: Result<u8, zmq::Error> = Err(zmq::Error::EAGAIN);
    assert!(matches!(z.box_err(), Err(BenchError::Zmq(zmq::Error::EAGAIN))));
    let c: Result<u8, hdrhistogram::CreationError> = Err(hdrhistogram::CreationError::LowIsZero);
    assert!(matches!(c.box_err(), Err(BenchError::Creation(hdrhistogram::CreationError::LowIsZero))));
    let r: Result<u8, hdrhistogram::RecordError> =
        Err(hdrhistogram::RecordError::ValueOutOfRangeResizeDisabled);
    assert!(matches!(r.box_err(), Err(BenchError::Record(_))));
    let a: Result<u8, hdrhistogram::AdditionError> =
        Err(hdrhistogram::AdditionError::OtherAddendValueExceedsRange);
    assert!(matches!(a.box_err(), Err(BenchError::Addition(_))));
    let s: Result<u8, hdrhistogram::serialization::V2SerializeError> =
        Err(hdrhistogram::serialization::V2SerializeError::CountNotSerializable);
    assert!(matches!(s.box_err(), Err(BenchError::Serialize(_))));
}

#[test]
fn joined_errors() {
    let inner: Result<Result<u8, BenchError>, tokio::task::JoinError> =
        Ok(Err(BenchError::Zmq(zmq::Error::EINVAL)));
    assert!(matches!(inner.join_err(), Err(BenchError::Zmq(zmq::Error::EINVAL))));
    let runtime = tokio::runtime::Builder::new_current_thread().build().unwrap();
    let outer: Result<Result<u8, BenchError>, tokio::task::JoinError> = runtime.block_on(async {
        let task = tokio::spawn(async { Ok::<u8, BenchError>(1) });
        task.abort();
        task.await
    });
    let cause = match &outer {
        Err(e) => e.to_string(),
        Ok(_) => panic!("the task was aborted"),
    };
    match outer.join_err() {
        Err(BenchError::Join(e)) => {
            assert_eq!(join_error_message(&e), format!("Task join error: {}", cause));
        }
        _ => panic!("the task was aborted"),
    }
    assert_eq!(join_message("gone"), "Task join error: gone");
}
