//! Latency histograms, and the row of results that comes of them.
use hdrhistogram::serialization::Serializer;
use vstd::multiset::Multiset;
use vstd::prelude::*;
use vstd::string::*;

use crate::errors::{BenchError, HdrResultExt};
use crate::text::append_decimal;

verus! {

/// A histogram of latencies in nanoseconds, kept to three significant digits: an
/// `hdrhistogram::Histogram<u64>` that grows with the values it gets.
#[verifier::external_body]
pub struct LatencyHistogram {
    inner: hdrhistogram::Histogram<u64>,
}

/// What a histogram holds: for each value that was recorded, the lowest value of its slot.
pub uninterp spec fn slots(histogram: LatencyHistogram) -> Multiset<nat>;

/// The highest value that a histogram tracks; it rises when the histogram grows.
pub uninterp spec fn tracked_limit(histogram: LatencyHistogram) -> u64;

/// The bytes of a histogram in the V2 format of HdrHistogram.
pub uninterp spec fn v2_encoding(slots: Multiset<nat>, limit: u64) -> Seq<u8>;

/// What `hdrhistogram::serialization::Deserializer::deserialize` makes of bytes: the slots and the
/// limit of the histogram that it reads, if they are those of one.
pub uninterp spec fn v2_contents(bytes: Seq<u8>) -> Option<(Multiset<nat>, u64)>;

/// The values below this one have a slot each.
pub open spec fn exact_below() -> nat {
    2048
}

/// The lowest value of the last slot.
pub open spec fn top_slot() -> nat {
    0xffe0_0000_0000_0000
}

/// The lowest value in the slot of `value`: slots get twice as wide with each power of two.
pub open spec fn slot_floor(value: nat) -> nat
    decreases value,
{
    if value < exact_below() {
        value
    } else {
        2 * slot_floor(value / 2)
    }
}

/// The highest value in the slot of `value`.
pub open spec fn slot_ceiling(value: nat) -> nat
    decreases value,
{
    if value < exact_below() {
        value
    } else {
        2 * slot_ceiling(value / 2) + 1
    }
}

/// The slots of a sequence of latencies.
pub open spec fn slots_of(latencies: Seq<u64>) -> Multiset<nat> {
    latencies.map_values(|latency: u64| slot_floor(latency as nat)).to_multiset()
}

/// `value` is what a histogram with these slots reports as its lowest value.
pub open spec fn is_lowest(held: Multiset<nat>, value: u64) -> bool {
    if held.len() == 0 {
        value == 0
    } else if exists|s: nat| #[trigger] held.contains(s) && s < top_slot() {
        held.contains(value as nat) && forall|s: nat| #[trigger] held.contains(s) ==> value <= s
    } else {
        value >= top_slot()
    }
}

/// `value` is what a histogram with these slots reports as its highest value.
pub open spec fn is_highest(held: Multiset<nat>, value: u64) -> bool {
    if held.len() == 0 {
        value == 0
    } else {
        exists|top: nat|
            {
                &&& #[trigger] held.contains(top)
                &&& forall|s: nat| #[trigger] held.contains(s) ==> s <= top
                &&& if top < top_slot() {
                    value == slot_ceiling(top)
                } else {
                    value >= u64::MAX - 1
                }
            }
    }
}

/// The highest value of the slot that starts at `slot`, as a histogram reports it.
pub open spec fn reported_ceiling(slot: nat) -> nat {
    if slot < top_slot() {
        slot_ceiling(slot)
    } else {
        (u64::MAX - 1) as nat
    }
}

/// `slot` is that of the median: half of what is held, rounded up, lies in it or below it, and
/// less than that lies below it.
pub open spec fn is_median_slot(held: Multiset<nat>, slot: nat) -> bool {
    &&& held.contains(slot)
    &&& held.filter(|s: nat| s <= slot).len() >= (held.len() + 1) / 2
    &&& held.filter(|s: nat| s < slot).len() < (held.len() + 1) / 2
}

/// The number of values up to which a median is exact.
pub open spec fn exact_median_limit() -> nat {
    0x20_0000_0000_0000
}

/// `value` is what a histogram with these slots reports as its median: 0 where it is empty, else
/// the highest value of the slot of the median.
pub open spec fn is_median(held: Multiset<nat>, value: u64) -> bool {
    if held.len() == 0 {
        value == 0
    } else {
        exists|slot: nat|
            #![trigger held.contains(slot)]
            {
                &&& held.contains(slot)
                &&& held.len() <= exact_median_limit() ==> is_median_slot(held, slot)
                &&& value == reported_ceiling(slot)
            }
    }
}

/// The highest value that a histogram takes without growing, where `limit` is the highest that it
/// tracks.
pub open spec fn capacity(limit: nat) -> nat
    decreases limit,
{
    if limit < exact_below() {
        (exact_below() - 1) as nat
    } else {
        2 * capacity(limit / 2) + 1
    }
}

/// The highest value that a histogram tracks after it has taken `value`.
pub open spec fn grown_limit(limit: u64, value: u64) -> nat {
    if value <= capacity(limit as nat) {
        limit as nat
    } else if capacity(value as nat) < u64::MAX {
        capacity(value as nat)
    } else {
        (u64::MAX - 1) as nat
    }
}

/// The highest value that a histogram tracks that has taken `latencies`.
pub open spec fn limit_after(latencies: Seq<u64>) -> nat
    decreases latencies.len(),
{
    if latencies.len() == 0 {
        2
    } else {
        grown_limit(limit_after(latencies.drop_last()) as u64, latencies.last())
    }
}

/// The highest value that a histogram tracks after it was added another one that holds `held`, and
/// reports `highest` as its highest value.
pub open spec fn raised_limit(limit: u64, held: Multiset<nat>, highest: u64) -> u64 {
    if held.len() == 0 || highest <= capacity(limit as nat) && highest < u64::MAX {
        limit
    } else {
        highest
    }
}

/// `after` is the highest value that a histogram tracks after it was added another one that holds
/// `held`, where it tracked `before` until then.
pub open spec fn is_raised_limit(before: u64, held: Multiset<nat>, after: u64) -> bool {
    exists|highest: u64|
        #[trigger] is_highest(held, highest) && after == raised_limit(before, held, highest)
}

/// `limit` is the highest value that a histogram tracks to which several histograms were added,
/// one after the other.
pub open spec fn is_pooled_limit(histograms: Seq<LatencyHistogram>, limit: u64) -> bool
    decreases histograms.len(),
{
    if histograms.len() == 0 {
        limit == 2
    } else {
        exists|before: u64|
            is_pooled_limit(histograms.drop_last(), before) && #[trigger] is_raised_limit(
                before,
                slots(histograms.last()),
                limit,
            )
    }
}

/// No slot holds so many values that the V2 format has no number for it.
pub open spec fn is_encodable(held: Multiset<nat>) -> bool {
    forall|s: nat| #[trigger] held.count(s) <= i64::MAX
}

/// The slots of several histograms together.
pub open spec fn pooled_slots(histograms: Seq<LatencyHistogram>) -> Multiset<nat>
    decreases histograms.len(),
{
    if histograms.len() == 0 {
        Multiset::empty()
    } else {
        pooled_slots(histograms.drop_last()).add(slots(histograms.last()))
    }
}

/// Significant digits that a histogram keeps.
pub const SIGNIFICANT_DIGITS: u8 = 3;

/// The percentile of the median.
pub const MEDIAN_PERCENTILE: u8 = 50;

/// `hdrhistogram::Histogram::new`: an empty histogram that grows by itself. With three significant
/// digits, for which alone the slots are described here, it does not fail.
#[verifier::external_body]
fn new_histogram(digits: u8) -> (r: Result<LatencyHistogram, hdrhistogram::CreationError>)
    requires
        digits == SIGNIFICANT_DIGITS,
    ensures
        r is Ok,
        slots(r->Ok_0) == Multiset::<nat>::empty(),
        tracked_limit(r->Ok_0) == 2,
{
    Ok(LatencyHistogram { inner: hdrhistogram::Histogram::<u64>::new(digits)? })
}

/// `hdrhistogram::Histogram::record`: counts one more value in its slot. A histogram that grows
/// by itself takes every value, and doubles its range until the value fits; a count that has
/// reached the largest `u64` stays there.
#[verifier::external_body]
fn record_value(histogram: &mut LatencyHistogram, value: u64) -> (r: Result<
    (),
    hdrhistogram::RecordError,
>)
    ensures
        r is Ok,
        slots(*old(histogram)).len() < u64::MAX ==> slots(*final(histogram)) == slots(
            *old(histogram),
        ).insert(slot_floor(value as nat)),
        tracked_limit(*final(histogram)) == grown_limit(tracked_limit(*old(histogram)), value),
{
    histogram.inner.record(value)
}

/// `hdrhistogram::Histogram::add`: counts everything that another histogram holds. Where both
/// have the same digits, and the first grows by itself, it does not fail. A count that has reached
/// the largest `u64` stays there, so that what does not fit leaves at least so much. The range
/// grows up to the highest value of the other histogram, where it did not reach that far.
#[verifier::external_body]
fn add_histogram(histogram: &mut LatencyHistogram, other: &LatencyHistogram) -> (r: Result<
    (),
    hdrhistogram::AdditionError,
>)
    ensures
        r is Ok,
        slots(*old(histogram)).len() + slots(*other).len() <= u64::MAX ==> slots(*final(histogram))
            == slots(*old(histogram)).add(slots(*other)),
        slots(*old(histogram)).len() + slots(*other).len() > u64::MAX ==> slots(
            *final(histogram),
        ).len() >= u64::MAX,
        is_raised_limit(
            tracked_limit(*old(histogram)),
            slots(*other),
            tracked_limit(*final(histogram)),
        ),
{
    histogram.inner.add(&other.inner)
}

/// `hdrhistogram::Histogram::len`: how many values were recorded; the count stops at the largest
/// `u64`.
#[verifier::external_body]
fn recorded_values(histogram: &LatencyHistogram) -> (r: u64)
    ensures
        r == if slots(*histogram).len() <= u64::MAX {
            slots(*histogram).len()
        } else {
            u64::MAX as nat
        },
{
    histogram.inner.len()
}

/// `hdrhistogram::Histogram::value_at_percentile` for the median: the highest value of the slot in
/// which half of the values, rounded up, are reached. The crate computes the half in floating
/// point, which is exact up to a number of values that no run reaches; beyond it the result is
/// stated to be that of some slot in use. Sums of counts beyond the largest `u64` are left out:
/// the crate adds them up without a check.
#[verifier::external_body]
fn value_at_percentile(histogram: &LatencyHistogram, percentile: u8) -> (r: u64)
    requires
        percentile == MEDIAN_PERCENTILE,
        slots(*histogram).len() <= u64::MAX,
    ensures
        is_median(slots(*histogram), r),
{
    histogram.inner.value_at_percentile(percentile.into())
}

/// `hdrhistogram::Histogram::min`: the lowest value of the lowest slot that is in use, and 0 for
/// an empty histogram. Of a histogram that uses only the last slot it is some value of that slot.
#[verifier::external_body]
fn lowest_value(histogram: &LatencyHistogram) -> (r: u64)
    ensures
        is_lowest(slots(*histogram), r),
{
    histogram.inner.min()
}

/// `hdrhistogram::Histogram::max`: the highest value of the highest slot that is in use, and 0
/// for an empty histogram. Of the last slot it is one of the two highest values.
#[verifier::external_body]
fn highest_value(histogram: &LatencyHistogram) -> (r: u64)
    ensures
        is_highest(slots(*histogram), r),
{
    histogram.inner.max()
}

/// `hdrhistogram::serialization::V2Serializer::serialize` into memory: the encoding of what the
/// histogram holds and of its limit. It fails exactly where a count exceeds the largest `i64`. The
/// deserializer of the same crate reads every count and the limit back from these bytes.
#[verifier::external_body]
fn encode_v2(histogram: &LatencyHistogram) -> (r: Result<
    Vec<u8>,
    hdrhistogram::serialization::V2SerializeError,
>)
    ensures
        r is Ok <==> is_encodable(slots(*histogram)),
        r is Ok ==> r->Ok_0@ == v2_encoding(slots(*histogram), tracked_limit(*histogram)),
        r is Ok ==> v2_contents(r->Ok_0@) == Some((slots(*histogram), tracked_limit(*histogram))),
{
    let mut bytes: Vec<u8> = Vec::new();
    hdrhistogram::serialization::V2Serializer::new().serialize(&histogram.inner, &mut bytes)?;
    Ok(bytes)
}

/// One row of the results.
#[derive(Debug)]
pub struct BenchmarkResult {
    pub pattern: String,
    pub transport: String,
    pub payload_size_bytes: usize,
    pub min_latency_ns: u64,
    pub median_latency_ns: u64,
    pub max_latency_ns: u64,
}

impl BenchmarkResult {
    /// This is the row of a histogram that holds `held`.
    pub open spec fn describes(
        self,
        pattern: Seq<char>,
        transport: Seq<char>,
        payload_size_bytes: usize,
        held: Multiset<nat>,
    ) -> bool {
        &&& self.pattern@ == pattern
        &&& self.transport@ == transport
        &&& self.payload_size_bytes == payload_size_bytes
        &&& is_lowest(held, self.min_latency_ns)
        &&& is_median(held, self.median_latency_ns)
        &&& is_highest(held, self.max_latency_ns)
    }
}

/// What is appended to the results file.
#[derive(Debug)]
pub struct AppendedResult {
    /// The row.
    pub row: BenchmarkResult,
    /// Whether a line with the names of the columns comes before it.
    pub header: bool,
    /// What is said about it.
    pub message: String,
}

/// What is said about a row.
pub open spec fn aggregated_message(
    pattern: Seq<char>,
    transport: Seq<char>,
    payload_size_bytes: nat,
) -> Seq<char> {
    "Aggregated benchmark result for "@ + pattern + "-"@ + transport + " ("@
        + crate::text::decimal(payload_size_bytes) + " bytes)"@
}

/// The histogram of the latencies of one receiver.
pub fn histogram_of(latencies_ns: &Vec<u64>) -> (r: Result<LatencyHistogram, BenchError>)
    ensures
        r is Ok,
        slots(r->Ok_0) == slots_of(latencies_ns@),
        slots(r->Ok_0).len() == latencies_ns@.len(),
        tracked_limit(r->Ok_0) == limit_after(latencies_ns@),
{
    broadcast use vstd::seq_lib::group_to_multiset_ensures;

    let mut histogram: LatencyHistogram = match new_histogram(SIGNIFICANT_DIGITS).box_err() {
        Ok(histogram) => histogram,
        Err(e) => {
            return Err(e);
        },
    };
    let mut i: usize = 0;
    assert(slots_of(latencies_ns@.take(0)) =~= Multiset::<nat>::empty());
    while i < latencies_ns.len()
        invariant
            i <= latencies_ns@.len(),
            slots(histogram) == slots_of(latencies_ns@.take(i as int)),
            tracked_limit(histogram) == limit_after(latencies_ns@.take(i as int)),
        decreases latencies_ns@.len() - i,
    {
        proof {
            let before = latencies_ns@.take(i as int).map_values(
                |latency: u64| slot_floor(latency as nat),
            );
            before.to_multiset_ensures();
            assert(latencies_ns@.take(i + 1).drop_last() =~= latencies_ns@.take(i as int));
            assert(latencies_ns@.take(i + 1).map_values(
                |latency: u64| slot_floor(latency as nat),
            ) =~= before.push(slot_floor(latencies_ns@[i as int] as nat)));
        }
        match record_value(&mut histogram, latencies_ns[i]).box_err() {
            Ok(()) => {},
            Err(e) => {
                return Err(e);
            },
        }
        i = i + 1;
    }
    proof {
        assert(latencies_ns@.take(i as int) =~= latencies_ns@);
        latencies_ns@.map_values(
            |latency: u64| slot_floor(latency as nat),
        ).to_multiset_ensures();
    }
    Ok(histogram)
}

/// One histogram of everything that several receivers have measured. Where that is more than a
/// histogram can count, it counts at least as much as it can.
pub fn pool(histograms: &Vec<LatencyHistogram>) -> (r: Result<LatencyHistogram, BenchError>)
    ensures
        r is Ok,
        pooled_slots(histograms@).len() <= u64::MAX ==> slots(r->Ok_0) == pooled_slots(histograms@),
        pooled_slots(histograms@).len() > u64::MAX ==> slots(r->Ok_0).len() >= u64::MAX,
        is_pooled_limit(histograms@, tracked_limit(r->Ok_0)),
{
    let mut pooled: LatencyHistogram = match new_histogram(SIGNIFICANT_DIGITS).box_err() {
        Ok(histogram) => histogram,
        Err(e) => {
            return Err(e);
        },
    };
    let mut i: usize = 0;
    assert(histograms@.take(0) =~= Seq::empty());
    while i < histograms.len()
        invariant
            i <= histograms@.len(),
            pooled_slots(histograms@.take(i as int)).len() <= u64::MAX ==> slots(pooled)
                == pooled_slots(histograms@.take(i as int)),
            pooled_slots(histograms@.take(i as int)).len() > u64::MAX ==> slots(pooled).len()
                >= u64::MAX,
            is_pooled_limit(histograms@.take(i as int), tracked_limit(pooled)),
        decreases histograms@.len() - i,
    {
        assert(histograms@.take(i + 1).drop_last() =~= histograms@.take(i as int));
        let ghost limit = tracked_limit(pooled);
        match add_histogram(&mut pooled, &histograms[i]).box_err() {
            Ok(()) => {},
            Err(e) => {
                return Err(e);
            },
        }
        assert(is_raised_limit(
            limit,
            slots(histograms@.take(i + 1).last()),
            tracked_limit(pooled),
        ));
        i = i + 1;
    }
    assert(histograms@.take(i as int) =~= histograms@);
    Ok(pooled)
}

/// The row of results of a histogram.
pub fn benchmark_result(
    pattern: &str,
    transport: &str,
    payload_size_bytes: usize,
    histogram: &LatencyHistogram,
) -> (r: BenchmarkResult)
    requires
        slots(*histogram).len() <= u64::MAX,
    ensures
        r.describes(pattern@, transport@, payload_size_bytes, slots(*histogram)),
{
    BenchmarkResult {
        pattern: pattern.to_owned(),
        transport: transport.to_owned(),
        payload_size_bytes,
        min_latency_ns: lowest_value(histogram),
        median_latency_ns: value_at_percentile(histogram, MEDIAN_PERCENTILE),
        max_latency_ns: highest_value(histogram),
    }
}

/// What is appended to the results file for a histogram: its row, and the header line before it
/// where the file is new. There is nothing to append where the histogram has counted as far as it
/// can, because its median is then not known.
pub fn append_benchmark_result(
    pattern: &str,
    transport: &str,
    payload_size_bytes: usize,
    histogram: &LatencyHistogram,
    file_exists: bool,
) -> (r: Option<AppendedResult>)
    ensures
        r is Some <==> slots(*histogram).len() < u64::MAX,
        r is Some ==> {
            &&& r->0.row.describes(pattern@, transport@, payload_size_bytes, slots(*histogram))
            &&& r->0.header == !file_exists
            &&& r->0.message@ == aggregated_message(pattern@, transport@, payload_size_bytes as nat)
        },
{
    if recorded_values(histogram) == u64::MAX {
        return None;
    }
    let row: BenchmarkResult = benchmark_result(pattern, transport, payload_size_bytes, histogram);
    let mut message: String = "Aggregated benchmark result for ".to_owned();
    message.append(pattern);
    message.append("-");
    message.append(transport);
    message.append(" (");
    append_decimal(&mut message, payload_size_bytes as u64);
    message.append(" bytes)");
    Some(AppendedResult { row, header: !file_exists, message })
}

/// The bytes of a histogram in the V2 format of HdrHistogram. Who reads them gets back what the
/// histogram holds, and its limit.
pub fn encode_histogram(histogram: &LatencyHistogram) -> (r: Result<Vec<u8>, BenchError>)
    ensures
        r is Ok <==> is_encodable(slots(*histogram)),
        r is Ok ==> r->Ok_0@ == v2_encoding(slots(*histogram), tracked_limit(*histogram)),
        r is Ok ==> v2_contents(r->Ok_0@) == Some((slots(*histogram), tracked_limit(*histogram))),
        r is Err ==> r->Err_0 is Serialize,
{
    encode_v2(histogram).box_err()
}

/// A value lies in its slot.
pub proof fn value_lies_in_slot(value: nat)
    ensures
        slot_floor(value) <= value <= slot_ceiling(value),
    decreases value,
{
    if value >= exact_below() {
        value_lies_in_slot(value / 2);
    }
}

/// A slot is narrow: its ends are less than a thousandth of the value apart.
pub proof fn slots_keep_three_digits(value: nat)
    ensures
        slot_ceiling(value) - slot_floor(value) <= value / 1000,
        1024 * (slot_ceiling(value) - slot_floor(value) + 1) <= value || value < exact_below(),
    decreases value,
{
    if value >= exact_below() {
        slots_keep_three_digits(value / 2);
    }
}

/// Slots are in the order of their values.
pub proof fn slots_are_ordered(a: nat, b: nat)
    requires
        a <= b,
    ensures
        slot_floor(a) <= slot_floor(b),
        slot_ceiling(a) <= slot_ceiling(b),
    decreases b,
{
    if b >= exact_below() {
        if a >= exact_below() {
            slots_are_ordered(a / 2, b / 2);
        } else {
            slots_are_ordered((exact_below() / 2) as nat, b / 2);
            reveal_with_fuel(slot_floor, 2);
            reveal_with_fuel(slot_ceiling, 2);
        }
    }
}

/// The lowest value of a slot lies in the same slot.
proof fn lemma_floor_in_slot(value: nat)
    ensures
        slot_floor(slot_floor(value)) == slot_floor(value),
        slot_ceiling(slot_floor(value)) == slot_ceiling(value),
        value >= exact_below() / 2 ==> slot_floor(value) >= exact_below() / 2,
        value >= exact_below() ==> slot_floor(value) >= exact_below(),
    decreases value,
{
    if value >= exact_below() {
        lemma_floor_in_slot(value / 2);
        assert(slot_floor(value) / 2 == slot_floor(value / 2));
    }
}

proof fn lemma_slots_contain(latencies: Seq<u64>, i: int)
    requires
        0 <= i < latencies.len(),
    ensures
        slots_of(latencies).contains(slot_floor(latencies[i] as nat)),
        slots_of(latencies).len() == latencies.len(),
{
    let floors = latencies.map_values(|latency: u64| slot_floor(latency as nat));
    floors.to_multiset_ensures();
    assert(floors[i] == slot_floor(latencies[i] as nat));
    assert(floors.contains(slot_floor(latencies[i] as nat)));
}

proof fn lemma_slots_come_from_latencies(latencies: Seq<u64>, slot: nat)
    requires
        slots_of(latencies).contains(slot),
    ensures
        exists|i: int|
            0 <= i < latencies.len() && slot == slot_floor(#[trigger] latencies[i] as nat),
{
    let floors = latencies.map_values(|latency: u64| slot_floor(latency as nat));
    floors.to_multiset_ensures();
    assert(floors.contains(slot));
    let i = choose|i: int| 0 <= i < floors.len() && floors[i] == slot;
    assert(slot == slot_floor(latencies[i] as nat));
}

/// Every latency of a run lies between the lowest and the highest value of its row, and both of
/// these values are those of a latency, up to the width of a slot. The highest value of the last
/// slot is one that a histogram need not report, and where all latencies share that slot their
/// lowest value is not fixed.
pub proof fn row_brackets_latencies(latencies: Seq<u64>, lowest: u64, highest: u64)
    requires
        forall|i: int| 0 <= i < latencies.len() ==> #[trigger] latencies[i] < u64::MAX,
        exists|i: int| 0 <= i < latencies.len() && #[trigger] latencies[i] < top_slot(),
        is_lowest(slots_of(latencies), lowest),
        is_highest(slots_of(latencies), highest),
    ensures
        forall|i: int| 0 <= i < latencies.len() ==> lowest <= #[trigger] latencies[i] <= highest,
        exists|i: int|
            0 <= i < latencies.len() && lowest == slot_floor(#[trigger] latencies[i] as nat),
        exists|i: int|
            0 <= i < latencies.len() && if (#[trigger] latencies[i]) < top_slot() {
                highest == slot_ceiling(latencies[i] as nat)
            } else {
                highest >= u64::MAX - 1
            },
{
    let held = slots_of(latencies);
    let low = choose|i: int| 0 <= i < latencies.len() && #[trigger] latencies[i] < top_slot();
    lemma_slots_contain(latencies, low);
    value_lies_in_slot(latencies[low] as nat);
    assert(held.contains(slot_floor(latencies[low] as nat)));
    let top = choose|top: nat|
        {
            &&& #[trigger] held.contains(top)
            &&& forall|s: nat| #[trigger] held.contains(s) ==> s <= top
            &&& if top < top_slot() {
                highest == slot_ceiling(top)
            } else {
                highest >= u64::MAX - 1
            }
        };
    assert forall|i: int| 0 <= i < latencies.len() implies lowest <= #[trigger] latencies[i]
        <= highest by {
        lemma_slots_contain(latencies, i);
        value_lies_in_slot(latencies[i] as nat);
        lemma_floor_in_slot(latencies[i] as nat);
        slots_are_ordered(slot_floor(latencies[i] as nat), top);
    }
    lemma_slots_come_from_latencies(latencies, lowest as nat);
    lemma_slots_come_from_latencies(latencies, top);
    let i = choose|i: int|
        0 <= i < latencies.len() && top == slot_floor(#[trigger] latencies[i] as nat);
    lemma_floor_in_slot(latencies[i] as nat);
    value_lies_in_slot(latencies[i] as nat);
    if top < top_slot() {
        lemma_ceiling_below_top(top);
    }
    assert(latencies[i] < top_slot() ==> highest == slot_ceiling(latencies[i] as nat));
}

/// The lowest value of a row is not above its median, and the median not above the highest value,
/// unless all values are so high that they share the last slot.
pub proof fn row_is_ordered(held: Multiset<nat>, lowest: u64, median: u64, highest: u64)
    requires
        held.len() == 0 || exists|s: nat| #[trigger] held.contains(s) && s < top_slot(),
        forall|s: nat| #[trigger] held.contains(s) ==> s <= u64::MAX,
        is_lowest(held, lowest),
        is_median(held, median),
        is_highest(held, highest),
    ensures
        lowest <= median <= highest,
{
    if held.len() > 0 {
        let slot = choose|slot: nat|
            #![trigger held.contains(slot)]
            {
                &&& held.contains(slot)
                &&& held.len() <= exact_median_limit() ==> is_median_slot(held, slot)
                &&& median == reported_ceiling(slot)
            };
        let top = choose|top: nat|
            {
                &&& #[trigger] held.contains(top)
                &&& forall|s: nat| #[trigger] held.contains(s) ==> s <= top
                &&& if top < top_slot() {
                    highest == slot_ceiling(top)
                } else {
                    highest >= u64::MAX - 1
                }
            };
        let low = choose|s: nat| #[trigger] held.contains(s) && s < top_slot();
        value_lies_in_slot(slot);
        assert(lowest <= slot);
        assert(lowest <= low);
        slots_are_ordered(slot, top);
        if slot < top_slot() && top >= top_slot() {
            assert(median <= u64::MAX - 1) by {
                lemma_ceiling_below_top(slot);
            }
        }
    }
}

/// The slots below the last one end below it.
proof fn lemma_ceiling_below_top(slot: nat)
    requires
        slot < top_slot(),
    ensures
        slot_ceiling(slot) < top_slot(),
{
    reveal_with_fuel(pow2_steps, 54);
    lemma_ceiling_below(slot, 53);
}

proof fn lemma_ceiling_below(slot: nat, steps: nat)
    requires
        slot < 2047 * pow2_steps(steps),
    ensures
        slot_ceiling(slot) < 2047 * pow2_steps(steps),
    decreases steps,
{
    if slot >= exact_below() && steps > 0 {
        lemma_ceiling_below(slot / 2, (steps - 1) as nat);
    }
}

/// 2 to the power of `n`.
spec fn pow2_steps(n: nat) -> nat
    decreases n,
{
    if n == 0 {
        1
    } else {
        2 * pow2_steps((n - 1) as nat)
    }
}

/// The latencies of several receivers, one receiver after the other.
pub open spec fn all_latencies(receivers: Seq<Seq<u64>>) -> Seq<u64>
    decreases receivers.len(),
{
    if receivers.len() == 0 {
        Seq::empty()
    } else {
        all_latencies(receivers.drop_last()) + receivers.last()
    }
}

/// The pooled histogram of several receivers is the histogram of all their latencies.
pub proof fn pool_is_histogram_of_all(
    histograms: Seq<LatencyHistogram>,
    receivers: Seq<Seq<u64>>,
)
    requires
        histograms.len() == receivers.len(),
        forall|i: int|
            0 <= i < histograms.len() ==> slots(#[trigger] histograms[i]) == slots_of(receivers[i]),
    ensures
        pooled_slots(histograms) == slots_of(all_latencies(receivers)),
    decreases histograms.len(),
{
    let floor = |latency: u64| slot_floor(latency as nat);
    if histograms.len() == 0 {
        let none = Seq::<u64>::empty().map_values(floor);
        none.to_multiset_ensures();
        assert(slots_of(all_latencies(receivers)) =~= Multiset::<nat>::empty());
    } else {
        let last: int = histograms.len() - 1;
        assert(slots(histograms[last]) == slots_of(receivers[last]));
        assert forall|i: int| 0 <= i < last implies slots(#[trigger] histograms.drop_last()[i])
            == slots_of(receivers.drop_last()[i]) by {
            assert(histograms.drop_last()[i] == histograms[i]);
        }
        pool_is_histogram_of_all(histograms.drop_last(), receivers.drop_last());
        let a = all_latencies(receivers.drop_last());
        let b = receivers.last();
        vstd::seq_lib::lemma_multiset_commutative(a.map_values(floor), b.map_values(floor));
        assert((a + b).map_values(floor) =~= a.map_values(floor) + b.map_values(floor));
    }
}

/// How many latencies are `limit` or less.
pub open spec fn count_up_to(latencies: Seq<u64>, limit: nat) -> nat
    decreases latencies.len(),
{
    if latencies.len() == 0 {
        0
    } else {
        count_up_to(latencies.drop_last(), limit) + if latencies.last() <= limit {
            1nat
        } else {
            0nat
        }
    }
}

/// How many latencies are less than `limit`.
pub open spec fn count_below(latencies: Seq<u64>, limit: nat) -> nat
    decreases latencies.len(),
{
    if latencies.len() == 0 {
        0
    } else {
        count_below(latencies.drop_last(), limit) + if latencies.last() < limit {
            1nat
        } else {
            0nat
        }
    }
}

/// Each latency takes a slot for itself: the slots of some latencies and of others together are
/// those of all of them, a single latency has one slot, and no latency is lost.
pub proof fn latencies_take_a_slot_each(a: Seq<u64>, b: Seq<u64>, latency: u64)
    ensures
        slots_of(a + b) == slots_of(a).add(slots_of(b)),
        slots_of(seq![latency]) == Multiset::singleton(slot_floor(latency as nat)),
        slots_of(a).len() == a.len(),
{
    let floor = |latency: u64| slot_floor(latency as nat);
    vstd::seq_lib::lemma_multiset_commutative(a.map_values(floor), b.map_values(floor));
    assert((a + b).map_values(floor) =~= a.map_values(floor) + b.map_values(floor));
    a.map_values(floor).to_multiset_ensures();
    let one = seq![latency].map_values(floor);
    let none = Seq::<nat>::empty();
    none.to_multiset_ensures();
    assert(one =~= none.push(slot_floor(latency as nat)));
    assert(none.to_multiset() =~= Multiset::empty());
    assert(slots_of(seq![latency]) =~= Multiset::singleton(slot_floor(latency as nat)));
}

proof fn lemma_filter_insert(held: Multiset<nat>, slot: nat, keep: spec_fn(nat) -> bool)
    ensures
        held.insert(slot).filter(keep).len() == held.filter(keep).len() + if keep(slot) {
            1nat
        } else {
            0nat
        },
{
    if keep(slot) {
        assert(held.insert(slot).filter(keep) =~= held.filter(keep).insert(slot));
    } else {
        assert(held.insert(slot).filter(keep) =~= held.filter(keep));
    }
}

proof fn lemma_slots_push(latencies: Seq<u64>)
    requires
        latencies.len() > 0,
    ensures
        slots_of(latencies) == slots_of(latencies.drop_last()).insert(
            slot_floor(latencies.last() as nat),
        ),
{
    let floor = |latency: u64| slot_floor(latency as nat);
    let before = latencies.drop_last().map_values(floor);
    before.to_multiset_ensures();
    assert(latencies.map_values(floor) =~= before.push(slot_floor(latencies.last() as nat)));
}

/// At least as many latencies as slots lie up to the end of a slot, and at most as many below it.
proof fn lemma_counts_by_slot(latencies: Seq<u64>, slot: nat, limit: nat)
    requires
        forall|i: int|
            0 <= i < latencies.len() && slot_floor(#[trigger] latencies[i] as nat) <= slot
                ==> latencies[i] <= limit,
    ensures
        slots_of(latencies).filter(|s: nat| s <= slot).len() <= count_up_to(latencies, limit),
        count_below(latencies, slot) <= slots_of(latencies).filter(|s: nat| s < slot).len(),
    decreases latencies.len(),
{
    let upto = |s: nat| s <= slot;
    let below = |s: nat| s < slot;
    if latencies.len() == 0 {
        let none = latencies.map_values(|latency: u64| slot_floor(latency as nat));
        none.to_multiset_ensures();
        assert(slots_of(latencies) =~= Multiset::<nat>::empty());
        assert(slots_of(latencies).filter(upto) =~= Multiset::<nat>::empty());
    } else {
        let earlier = latencies.drop_last();
        let last = latencies[latencies.len() - 1];
        assert forall|i: int|
            0 <= i < earlier.len() && slot_floor(#[trigger] earlier[i] as nat)
                <= slot implies earlier[i] <= limit by {
            assert(earlier[i] == latencies[i]);
        }
        lemma_counts_by_slot(earlier, slot, limit);
        lemma_slots_push(latencies);
        lemma_filter_insert(slots_of(earlier), slot_floor(last as nat), upto);
        lemma_filter_insert(slots_of(earlier), slot_floor(last as nat), below);
        value_lies_in_slot(last as nat);
    }
}

/// What a row says of the latencies that it was made of. It carries the names and the size that it
/// was made for. No latency is below its minimum or above its maximum, and both are those of a
/// latency, up to a thousandth of it. At least half of the latencies do not exceed its median, and
/// the median is that of a latency, up to a thousandth of it, with less than half of them, rounded
/// up, below the slot of that one. The highest `u64` is left out, which a histogram need not
/// report, and so are latencies that all share the last slot, whose lowest value is not fixed; so
/// are more latencies than a median is exact for.
pub proof fn row_tells_of_the_latencies(
    row: BenchmarkResult,
    pattern: Seq<char>,
    transport: Seq<char>,
    payload_size_bytes: usize,
    latencies: Seq<u64>,
)
    requires
        row.describes(pattern, transport, payload_size_bytes, slots_of(latencies)),
        forall|i: int| 0 <= i < latencies.len() ==> #[trigger] latencies[i] < u64::MAX,
        exists|i: int| 0 <= i < latencies.len() && #[trigger] latencies[i] < top_slot(),
        latencies.len() <= 0x20_0000_0000_0000,
    ensures
        row.pattern@ == pattern,
        row.transport@ == transport,
        row.payload_size_bytes == payload_size_bytes,
        forall|i: int|
            0 <= i < latencies.len() ==> row.min_latency_ns <= #[trigger] latencies[i]
                <= row.max_latency_ns,
        exists|i: int|
            0 <= i < latencies.len() && (#[trigger] latencies[i]) - row.min_latency_ns
                <= latencies[i] / 1000,
        exists|i: int|
            0 <= i < latencies.len() && if (#[trigger] latencies[i]) < top_slot() {
                row.max_latency_ns - latencies[i] <= latencies[i] / 1000
            } else {
                row.max_latency_ns >= u64::MAX - 1
            },
        row.min_latency_ns <= row.median_latency_ns <= row.max_latency_ns,
        2 * count_up_to(latencies, row.median_latency_ns as nat) >= latencies.len(),
        exists|i: int|
            {
                &&& 0 <= i < latencies.len()
                &&& (#[trigger] latencies[i]) <= row.median_latency_ns
                &&& latencies[i] < top_slot() ==> row.median_latency_ns - latencies[i]
                    <= latencies[i] / 1000
                &&& count_below(latencies, slot_floor(latencies[i] as nat)) < (latencies.len() + 1)
                    / 2
            },
{
    let held = slots_of(latencies);
    let lowest = row.min_latency_ns;
    let median = row.median_latency_ns;
    let highest = row.max_latency_ns;
    row_brackets_latencies(latencies, lowest, highest);
    let low = choose|i: int|
        0 <= i < latencies.len() && lowest == slot_floor(#[trigger] latencies[i] as nat);
    value_lies_in_slot(latencies[low] as nat);
    slots_keep_three_digits(latencies[low] as nat);
    assert(latencies[low] - lowest <= latencies[low] / 1000);
    let high = choose|i: int|
        0 <= i < latencies.len() && if (#[trigger] latencies[i]) < top_slot() {
            highest == slot_ceiling(latencies[i] as nat)
        } else {
            highest >= u64::MAX - 1
        };
    value_lies_in_slot(latencies[high] as nat);
    slots_keep_three_digits(latencies[high] as nat);
    assert(latencies[high] < top_slot() ==> highest - latencies[high] <= latencies[high] / 1000);
    let some = choose|i: int| 0 <= i < latencies.len() && #[trigger] latencies[i] < top_slot();
    lemma_slots_contain(latencies, some);
    value_lies_in_slot(latencies[some] as nat);
    assert(held.contains(slot_floor(latencies[some] as nat)));
    assert forall|s: nat| #[trigger] held.contains(s) implies s <= u64::MAX by {
        lemma_slots_come_from_latencies(latencies, s);
        let i = choose|i: int|
            0 <= i < latencies.len() && s == slot_floor(#[trigger] latencies[i] as nat);
        value_lies_in_slot(latencies[i] as nat);
    }
    row_is_ordered(held, lowest, median, highest);
    let slot = choose|slot: nat|
        #![trigger held.contains(slot)]
        {
            &&& held.contains(slot)
            &&& held.len() <= exact_median_limit() ==> is_median_slot(held, slot)
            &&& median == reported_ceiling(slot)
        };
    lemma_slots_come_from_latencies(latencies, slot);
    let mid = choose|i: int|
        0 <= i < latencies.len() && slot == slot_floor(#[trigger] latencies[i] as nat);
    lemma_floor_in_slot(latencies[mid] as nat);
    value_lies_in_slot(latencies[mid] as nat);
    slots_keep_three_digits(latencies[mid] as nat);
    if slot < top_slot() {
        lemma_ceiling_below_top(slot);
    }
    assert forall|i: int|
        0 <= i < latencies.len() && slot_floor(#[trigger] latencies[i] as nat)
            <= slot implies latencies[i] <= median by {
        value_lies_in_slot(latencies[i] as nat);
        lemma_floor_in_slot(latencies[i] as nat);
        slots_are_ordered(slot_floor(latencies[i] as nat), slot);
    }
    lemma_counts_by_slot(latencies, slot, median as nat);
    assert(latencies[mid] <= median);
}

/// The row of an empty histogram has nothing but zeros.
pub proof fn row_of_nothing_is_zero(
    row: BenchmarkResult,
    pattern: Seq<char>,
    transport: Seq<char>,
    payload_size_bytes: usize,
)
    requires
        row.describes(pattern, transport, payload_size_bytes, slots_of(Seq::empty())),
    ensures
        row.min_latency_ns == 0,
        row.median_latency_ns == 0,
        row.max_latency_ns == 0,
{
    latencies_take_a_slot_each(Seq::empty(), Seq::empty(), 0);
}

/// What is said about a row names the pattern, the transport and the size, in this order.
pub proof fn row_is_announced(
    pattern: Seq<char>,
    transport: Seq<char>,
    payload_size_bytes: nat,
)
    ensures
        aggregated_message(pattern, transport, payload_size_bytes)
            == "Aggregated benchmark result for "@ + pattern + "-"@ + transport + " ("@
            + crate::text::decimal(payload_size_bytes) + " bytes)"@,
{
}

/// The histograms of several receivers are pooled one by one, and each with all that it holds.
pub proof fn histograms_are_pooled_one_by_one(
    histograms: Seq<LatencyHistogram>,
    next: LatencyHistogram,
)
    ensures
        pooled_slots(Seq::empty()).len() == 0,
        pooled_slots(histograms.push(next)) == pooled_slots(histograms).add(slots(next)),
{
    assert(histograms.push(next).drop_last() =~= histograms);
}

} // verus!
