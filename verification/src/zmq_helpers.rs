//! The message header with its markers, and the counters and limits that all roles share.
use vstd::prelude::*;

verus! {

/// Header of a hello: a control message of the synchronization phase, no benchmark datum.
pub const HELLO_MARKER: u64 = 0;

/// Header of the message that ends a sender's synchronization phase: what follows on the data
/// path are benchmark messages with timestamps.
pub const BEGIN_BENCHMARK_MARKER: u64 = 0xffff_ffff_ffff_ffff;

/// What a queue holds beyond the benchmark messages themselves.
pub const HWM_HEADROOM: usize = 1000;

/// The bytes of a header.
pub open spec fn header_len() -> nat {
    8
}

/// The number that bytes spell in little-endian order.
pub open spec fn le_value(bytes: Seq<u8>) -> nat
    decreases bytes.len(),
{
    if bytes.len() == 0 {
        0
    } else {
        bytes[0] as nat + 256 * le_value(bytes.drop_first())
    }
}

/// The `n` lowest bytes of `value`, lowest first.
pub open spec fn le_bytes(value: nat, n: nat) -> Seq<u8>
    decreases n,
{
    if n == 0 {
        Seq::empty()
    } else {
        seq![(value % 256) as u8] + le_bytes(value / 256, (n - 1) as nat)
    }
}

/// 256 to the power of `n`.
pub open spec fn pow256(n: nat) -> nat
    decreases n,
{
    if n == 0 {
        1
    } else {
        256 * pow256((n - 1) as nat)
    }
}

/// The number in the header of a message.
pub open spec fn header(message: Seq<u8>) -> nat {
    le_value(message.take(8))
}

/// `payload` with `value` as its header.
pub open spec fn stamped(payload: Seq<u8>, value: u64) -> Seq<u8> {
    le_bytes(value as nat, 8) + payload.skip(8)
}

/// A message that has a header, and in it the number `value`.
pub open spec fn carries(message: Seq<u8>, value: u64) -> bool {
    message.len() >= header_len() && header(message) == value
}

/// A hello of the synchronization phase.
pub open spec fn is_hello(message: Seq<u8>) -> bool {
    carries(message, HELLO_MARKER)
}

/// The end of the synchronization phase.
pub open spec fn is_begin(message: Seq<u8>) -> bool {
    carries(message, BEGIN_BENCHMARK_MARKER)
}

/// A message of the synchronization phase.
pub open spec fn is_control(message: Seq<u8>) -> bool {
    is_hello(message) || is_begin(message)
}

/// The count that follows `count` where counting starts anew beyond the largest `usize`.
pub open spec fn counted_on(count: nat, steps: nat) -> nat {
    (count + steps) % (usize::MAX as nat + 1)
}

/// The smaller of two numbers.
pub open spec fn smaller(a: nat, b: nat) -> nat {
    if a < b {
        a
    } else {
        b
    }
}

/// Reads the header of a message that has one.
fn read_header(buffer: &[u8]) -> (r: u64)
    requires
        buffer@.len() >= header_len(),
    ensures
        r == header(buffer@),
{
    let mut value: u64 = 0;
    let mut i: usize = 8;
    assert(buffer@.subrange(8, 8) =~= Seq::empty());
    proof {
        lemma_pow256_8();
    }
    while i > 0
        invariant
            i <= 8,
            buffer@.len() >= 8,
            value == le_value(buffer@.subrange(i as int, 8)),
            pow256(8) == 0x1_0000_0000_0000_0000,
        decreases i,
    {
        let ghost rest = buffer@.subrange(i as int, 8);
        i = i - 1;
        let ghost more = buffer@.subrange(i as int, 8);
        proof {
            assert(more.drop_first() =~= rest);
            lemma_le_value_bound(more);
            lemma_pow256_monotonic(more.len(), 8);
        }
        value = buffer[i] as u64 + 256 * value;
    }
    assert(buffer@.subrange(0, 8) =~= buffer@.take(8));
    value
}

/// Writes `value` into the header of `buffer` and leaves the rest of it as it is.
pub fn write_header(buffer: &mut Vec<u8>, value: u64)
    requires
        old(buffer)@.len() >= header_len(),
    ensures
        final(buffer)@ == stamped(old(buffer)@, value),
{
    let mut rest: u64 = value;
    let mut i: usize = 0;
    assert(le_bytes(value as nat, 8) =~= buffer@.take(0) + le_bytes(rest as nat, 8));
    while i < 8
        invariant
            i <= 8,
            buffer@.len() == old(buffer)@.len(),
            old(buffer)@.len() >= 8,
            le_bytes(value as nat, 8) == buffer@.take(i as int) + le_bytes(
                rest as nat,
                (8 - i) as nat,
            ),
            forall|k: int| i <= k < buffer@.len() ==> buffer@[k] == old(buffer)@[k],
        decreases 8 - i,
    {
        let byte: u8 = (rest % 256) as u8;
        let ghost before = buffer@;
        buffer.set(i, byte);
        proof {
            assert(buffer@.take(i + 1) =~= before.take(i as int).push(byte));
            assert(before.take(i as int) + le_bytes(rest as nat, (8 - i) as nat)
                =~= before.take(i as int).push(byte) + le_bytes(
                (rest / 256) as nat,
                (7 - i) as nat,
            ));
        }
        rest = rest / 256;
        i = i + 1;
    }
    assert(buffer@ =~= stamped(old(buffer)@, value)) by {
        assert(le_bytes(rest as nat, 0) =~= Seq::empty());
        assert(le_bytes(value as nat, 8) =~= buffer@.take(8));
    }
}

/// Whether a message is a hello.
pub fn is_hello_marker(buffer: &[u8]) -> (r: bool)
    ensures
        r == is_hello(buffer@),
{
    if buffer.len() < 8 {
        return false;
    }
    read_header(buffer) == HELLO_MARKER
}

/// Whether a message ends the synchronization phase.
pub fn is_begin_marker(buffer: &[u8]) -> (r: bool)
    ensures
        r == is_begin(buffer@),
{
    if buffer.len() < 8 {
        return false;
    }
    read_header(buffer) == BEGIN_BENCHMARK_MARKER
}

/// The timestamp of a benchmark message.
pub fn extract_timestamp(buffer: &[u8]) -> (r: u64)
    requires
        buffer@.len() >= header_len(),
    ensures
        r == header(buffer@),
{
    read_header(buffer)
}

/// The high-water mark of a socket through which `num_messages` benchmark messages go: room for
/// all of them, and headroom for the messages of the synchronization phase.
pub fn hwm(num_messages: usize) -> (r: i32)
    requires
        num_messages + HWM_HEADROOM <= usize::MAX,
    ensures
        r == (num_messages + HWM_HEADROOM) as i32,
        num_messages + HWM_HEADROOM <= i32::MAX ==> r == num_messages + HWM_HEADROOM,
{
    (num_messages + HWM_HEADROOM) as i32
}

/// Whether there is a high-water mark for `num_messages` benchmark messages.
pub fn has_mark(num_messages: usize) -> (r: bool)
    ensures
        r == (num_messages + HWM_HEADROOM <= usize::MAX),
{
    num_messages <= usize::MAX - HWM_HEADROOM
}

/// Takes the number that `counter` shows, and counts on.
fn take_number(counter: &mut usize) -> (number: usize)
    ensures
        number == *old(counter),
        *final(counter) == counted_on(*old(counter) as nat, 1),
{
    let number: usize = *counter;
    if number == usize::MAX {
        *counter = 0;
        proof {
            vstd::arithmetic::div_mod::lemma_mod_self_0(usize::MAX + 1);
        }
    } else {
        *counter = number + 1;
        proof {
            vstd::arithmetic::div_mod::lemma_small_mod(
                (number + 1) as nat,
                (usize::MAX + 1) as nat,
            );
        }
    }
    number
}

/// Hands out the next number for files that are saved, and counts on.
pub fn next_save_id(counter: &mut usize) -> (id: usize)
    ensures
        id == *old(counter),
        *final(counter) == counted_on(*old(counter) as nat, 1),
{
    take_number(counter)
}

/// `num_cpus::get`: how many CPUs this process may use. Its documentation promises at least one;
/// how many there are depends on the machine.
#[verifier::external_body]
fn available_cpus() -> (n: usize)
    ensures
        n >= 1,
{
    num_cpus::get()
}

/// The CPU whose turn it is after `ticket` others, round-robin over `cpus` of them.
pub fn cpu_for_ticket(ticket: usize, cpus: usize) -> (cpu: usize)
    ensures
        cpu == ticket as nat % (if cpus == 0 { 1 } else { cpus as nat }),
{
    if cpus == 0 {
        ticket % 1
    } else {
        ticket % cpus
    }
}

/// How many of the allowed CPUs are taken in turn where this process may use `cpus` of them.
pub open spec fn pinning_width(allowed: Seq<usize>, cpus: nat) -> nat {
    smaller(allowed.len(), if cpus == 0 { 1 } else { cpus })
}

/// The CPU whose turn it is after `ticket` others: one of the first of those that are allowed, as
/// many as this process may use. Where none is listed the CPUs are taken from number 0 on.
pub open spec fn turn_of(ticket: nat, allowed: Seq<usize>, cpus: nat) -> nat {
    if allowed.len() == 0 {
        ticket % (if cpus == 0 { 1 } else { cpus })
    } else {
        allowed[(ticket % pinning_width(allowed, cpus)) as int] as nat
    }
}

/// The CPU whose turn it is after `ticket` others, round-robin over the first of the `allowed`
/// ones, as many as the `cpus` that this process may use; those can be fewer, by a quota. Where it
/// is not known which ones are allowed, the CPUs are taken from number 0 on.
pub fn allowed_cpu(ticket: usize, allowed: &Vec<usize>, cpus: usize) -> (cpu: usize)
    ensures
        cpu == turn_of(ticket as nat, allowed@, cpus as nat),
{
    if allowed.len() == 0 {
        return cpu_for_ticket(ticket, cpus);
    }
    let width: usize = if cpus == 0 {
        1
    } else if allowed.len() < cpus {
        allowed.len()
    } else {
        cpus
    };
    allowed[ticket % width]
}

/// The next CPU for pinning, round-robin over those that are allowed, and over no more of them
/// than this process may use.
pub fn assign_next_cpu(counter: &mut usize, allowed: &Vec<usize>) -> (cpu: usize)
    ensures
        *final(counter) == counted_on(*old(counter) as nat, 1),
        exists|cpus: nat|
            cpus >= 1 && cpu == #[trigger] turn_of(*old(counter) as nat, allowed@, cpus),
        allowed@.len() > 0 ==> allowed@.contains(cpu),
{
    let cpus: usize = available_cpus();
    let ticket: usize = take_number(counter);
    let cpu: usize = allowed_cpu(ticket, allowed, cpus);
    assert(cpu == turn_of(ticket as nat, allowed@, cpus as nat));
    proof {
        if allowed@.len() > 0 {
            let width = pinning_width(allowed@, cpus as nat);
            vstd::arithmetic::div_mod::lemma_mod_bound(ticket as int, width as int);
            assert(allowed@[(ticket as nat % width) as int] == cpu);
        }
    }
    cpu
}

/// The worker threads for a run of `total_tasks` tasks on a machine with `cpus` CPUs.
pub fn threads_for(total_tasks: usize, cpus: usize) -> (threads: usize)
    ensures
        threads == smaller(total_tasks as nat, cpus as nat),
{
    if total_tasks < cpus {
        total_tasks
    } else {
        cpus
    }
}

/// The worker threads for a run of `total_tasks` tasks on this machine: one for each task, but no
/// more than there are CPUs.
pub fn worker_threads(total_tasks: usize) -> (threads: usize)
    ensures
        exists|cpus: nat| cpus >= 1 && threads == #[trigger] smaller(total_tasks as nat, cpus),
{
    let cpus: usize = available_cpus();
    let threads: usize = threads_for(total_tasks, cpus);
    assert(threads == smaller(total_tasks as nat, cpus as nat));
    threads
}

/// The worker threads for all runs together: one for each CPU of this machine.
pub fn suite_worker_threads() -> (threads: usize)
    ensures
        threads >= 1,
{
    available_cpus()
}

proof fn lemma_pow256_8()
    ensures
        pow256(8) == 0x1_0000_0000_0000_0000,
{
    reveal_with_fuel(pow256, 9);
}

proof fn lemma_pow256_monotonic(a: nat, b: nat)
    requires
        a <= b,
    ensures
        pow256(a) <= pow256(b),
        pow256(a) >= 1,
    decreases b,
{
    if a < b {
        lemma_pow256_monotonic(a, (b - 1) as nat);
    } else if a > 0 {
        lemma_pow256_monotonic((a - 1) as nat, (a - 1) as nat);
    }
}

proof fn lemma_le_value_bound(bytes: Seq<u8>)
    ensures
        le_value(bytes) < pow256(bytes.len()),
    decreases bytes.len(),
{
    if bytes.len() > 0 {
        lemma_le_value_bound(bytes.drop_first());
    }
}

proof fn lemma_le_bytes_value(value: nat, n: nat)
    requires
        value < pow256(n),
    ensures
        le_bytes(value, n).len() == n,
        le_value(le_bytes(value, n)) == value,
    decreases n,
{
    if n > 0 {
        lemma_le_bytes_value(value / 256, (n - 1) as nat);
        assert(le_bytes(value, n).drop_first() =~= le_bytes(value / 256, (n - 1) as nat));
    }
}

/// What a sender writes into a header, a receiver reads out of it, and nothing else of the
/// payload changes.
pub proof fn stamp_is_read_back(payload: Seq<u8>, value: u64)
    requires
        payload.len() >= header_len(),
    ensures
        header(stamped(payload, value)) == value,
        stamped(payload, value).len() == payload.len(),
        stamped(payload, value).skip(8) == payload.skip(8),
{
    lemma_pow256_8();
    lemma_le_bytes_value(value as nat, 8);
    assert(stamped(payload, value).take(8) =~= le_bytes(value as nat, 8));
    assert(stamped(payload, value).skip(8) =~= payload.skip(8));
}

/// A stamp leaves nothing of an earlier one.
pub proof fn stamp_overwrites_stamp(payload: Seq<u8>, first: u64, second: u64)
    requires
        payload.len() >= header_len(),
    ensures
        stamped(stamped(payload, first), second) == stamped(payload, second),
{
    stamp_is_read_back(payload, first);
}

/// A message is a hello, the begin, or neither, and never both.
pub proof fn markers_are_distinct(message: Seq<u8>)
    ensures
        !(is_hello(message) && is_begin(message)),
{
}

/// A stamped payload is a control message exactly where the stamp is one of the two markers; a
/// timestamp that is neither makes a benchmark message.
pub proof fn stamp_decides_kind(payload: Seq<u8>, value: u64)
    requires
        payload.len() >= header_len(),
    ensures
        is_hello(stamped(payload, value)) <==> value == HELLO_MARKER,
        is_begin(stamped(payload, value)) <==> value == BEGIN_BENCHMARK_MARKER,
        is_control(stamped(payload, value)) <==> value == HELLO_MARKER || value
            == BEGIN_BENCHMARK_MARKER,
{
    stamp_is_read_back(payload, value);
}

/// A queue of the size that `hwm` gives has room for all benchmark messages of a run and for as
/// many others as the headroom says.
pub proof fn hwm_holds_every_message(num_messages: usize, others: nat)
    requires
        num_messages + HWM_HEADROOM <= i32::MAX,
        others <= HWM_HEADROOM,
    ensures
        num_messages + others <= (num_messages + HWM_HEADROOM) as i32,
{
}

/// The numbers that a counter hands out do not repeat before it has been through all of `usize`.
pub proof fn save_ids_do_not_repeat(start: usize, i: nat, j: nat)
    requires
        i < j <= usize::MAX,
    ensures
        counted_on(start as nat, i) != counted_on(start as nat, j),
{
    let m: int = usize::MAX + 1;
    let a: int = start + i;
    let b: int = start + j;
    if a % m == b % m {
        vstd::arithmetic::div_mod::lemma_mod_equivalence(b, a, m);
        assert((b - a) % m == 0);
        vstd::arithmetic::div_mod::lemma_small_mod((b - a) as nat, m as nat);
    }
}

/// Counting on by one after `i` steps is counting on by `i + 1` steps.
pub proof fn save_ids_count_on(start: usize, i: nat)
    ensures
        counted_on(counted_on(start as nat, i), 1) == counted_on(start as nat, i + 1),
{
    let m: int = usize::MAX + 1;
    vstd::arithmetic::div_mod::lemma_add_mod_noop(start + i, 1, m);
    vstd::arithmetic::div_mod::lemma_add_mod_noop((start + i) % m, 1, m);
    vstd::arithmetic::div_mod::lemma_mod_twice(start + i, m);
}

/// As many threads in a row as there are CPUs to be taken in turn get a CPU each, and one that is
/// allowed, as long as the counter does not start anew in between.
pub proof fn pinning_spreads_over_cpus(
    ticket: usize,
    allowed: Seq<usize>,
    cpus: nat,
    i: nat,
    j: nat,
)
    requires
        allowed.no_duplicates(),
        i < j < if allowed.len() == 0 {
            cpus
        } else {
            pinning_width(allowed, cpus)
        },
        ticket + j <= usize::MAX,
    ensures
        ({
            let first = turn_of(counted_on(ticket as nat, i), allowed, cpus);
            let second = turn_of(counted_on(ticket as nat, j), allowed, cpus);
            &&& first != second
            &&& allowed.len() > 0 ==> allowed.contains(first as usize) && allowed.contains(
                second as usize,
            )
        }),
{
    let a: int = ticket + i;
    let b: int = ticket + j;
    let m: int = if allowed.len() == 0 {
        cpus as int
    } else {
        pinning_width(allowed, cpus) as int
    };
    vstd::arithmetic::div_mod::lemma_small_mod(a as nat, (usize::MAX + 1) as nat);
    vstd::arithmetic::div_mod::lemma_small_mod(b as nat, (usize::MAX + 1) as nat);
    if a % m == b % m {
        vstd::arithmetic::div_mod::lemma_mod_equivalence(b, a, m);
        assert((b - a) % m == 0);
        vstd::arithmetic::div_mod::lemma_small_mod((b - a) as nat, m as nat);
    }
    assert(0 <= a % m < m && 0 <= b % m < m) by {
        vstd::arithmetic::div_mod::lemma_mod_bound(a, m);
        vstd::arithmetic::div_mod::lemma_mod_bound(b, m);
    }
}

/// The header of a message is the number in its first eight bytes, the lowest byte first.
pub proof fn header_is_little_endian(message: Seq<u8>)
    requires
        message.len() >= 8,
    ensures
        header(message) == message[0] + 0x100 * message[1] + 0x1_0000 * message[2] + 0x100_0000
            * message[3] + 0x1_0000_0000 * message[4] + 0x100_0000_0000 * message[5]
            + 0x1_0000_0000_0000 * message[6] + 0x100_0000_0000_0000 * message[7],
{
    reveal_with_fuel(le_value, 9);
    let m = message.take(8);
    assert(m.drop_first() =~= message.subrange(1, 8));
    assert(m.drop_first().drop_first() =~= message.subrange(2, 8));
    assert(message.subrange(2, 8).drop_first() =~= message.subrange(3, 8));
    assert(message.subrange(3, 8).drop_first() =~= message.subrange(4, 8));
    assert(message.subrange(4, 8).drop_first() =~= message.subrange(5, 8));
    assert(message.subrange(5, 8).drop_first() =~= message.subrange(6, 8));
    assert(message.subrange(6, 8).drop_first() =~= message.subrange(7, 8));
    assert(message.subrange(7, 8).drop_first() =~= Seq::empty());
}

/// A hello starts with eight bytes of zeros, a begin marker with eight bytes of ones, and every
/// message that starts so is one; no message that is shorter is either.
pub proof fn markers_are_uniform(message: Seq<u8>)
    ensures
        is_hello(message) <==> message.len() >= 8 && forall|i: int|
            0 <= i < 8 ==> #[trigger] message[i] == 0,
        is_begin(message) <==> message.len() >= 8 && forall|i: int|
            0 <= i < 8 ==> #[trigger] message[i] == 0xff,
        is_control(message) <==> is_hello(message) || is_begin(message),
{
    if message.len() >= 8 {
        header_is_little_endian(message);
        let m = message;
        assert(m[0] == 0 && m[1] == 0 && m[2] == 0 && m[3] == 0 && m[4] == 0 && m[5] == 0 && m[6]
            == 0 && m[7] == 0 ==> forall|i: int| 0 <= i < 8 ==> #[trigger] message[i] == 0);
        assert(m[0] == 255 && m[1] == 255 && m[2] == 255 && m[3] == 255 && m[4] == 255 && m[5]
            == 255 && m[6] == 255 && m[7] == 255 ==> forall|i: int|
            0 <= i < 8 ==> #[trigger] message[i] == 255);
    }
}

/// A stamped payload has the same size, the stamp in its first eight bytes, lowest byte first, and
/// every other byte as it was.
pub proof fn stamp_is_little_endian(payload: Seq<u8>, value: u64, i: int)
    requires
        payload.len() >= 8,
        8 <= i < payload.len(),
    ensures
        stamped(payload, value).len() == payload.len(),
        stamped(payload, value)[i] == payload[i],
        carries(stamped(payload, value), value),
{
    stamp_is_read_back(payload, value);
    assert(stamped(payload, value).skip(8)[i - 8] == payload.skip(8)[i - 8]);
}

/// A counter goes up by one, and after the largest number starts anew at 0.
pub proof fn counter_goes_up_by_one(count: usize)
    ensures
        counted_on(count as nat, 1) == if count == usize::MAX {
            0
        } else {
            count as nat + 1
        },
{
    if count == usize::MAX {
        vstd::arithmetic::div_mod::lemma_mod_self_0(usize::MAX + 1);
    } else {
        vstd::arithmetic::div_mod::lemma_small_mod((count + 1) as nat, (usize::MAX + 1) as nat);
    }
}

/// The smaller of two numbers is one of them, and not above either.
pub proof fn smaller_is_the_minimum(a: nat, b: nat)
    ensures
        smaller(a, b) <= a,
        smaller(a, b) <= b,
        smaller(a, b) == a || smaller(a, b) == b,
{
}

/// The first threads are pinned to the allowed CPUs in the order in which these are listed, and
/// then the turn starts anew: with the first CPU again when each of those that this process may
/// use has had its turn, or each of those that are listed. Where none is listed the first threads
/// are pinned to CPU 0, CPU 1 and so on.
pub proof fn pinning_goes_round(ticket: nat, allowed: Seq<usize>, cpus: nat)
    requires
        cpus >= 1,
    ensures
        ticket < allowed.len() && ticket < cpus ==> turn_of(ticket, allowed, cpus)
            == allowed[ticket as int],
        0 < allowed.len() <= cpus ==> turn_of(ticket + allowed.len(), allowed, cpus) == turn_of(
            ticket,
            allowed,
            cpus,
        ),
        cpus <= allowed.len() || allowed.len() == 0 ==> turn_of(ticket + cpus, allowed, cpus)
            == turn_of(ticket, allowed, cpus),
        allowed.len() == 0 && ticket < cpus ==> turn_of(ticket, allowed, cpus) == ticket,
{
    let m: int = if allowed.len() == 0 {
        cpus as int
    } else {
        pinning_width(allowed, cpus) as int
    };
    if ticket < m {
        vstd::arithmetic::div_mod::lemma_small_mod(ticket, m as nat);
    }
    vstd::arithmetic::div_mod::lemma_mod_add_multiples_vanish(ticket as int, m);
    assert((ticket + m) % m == (ticket as int) % m);
}

} // verus!
