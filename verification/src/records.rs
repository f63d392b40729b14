//! The names and the text of the files that a run saves, and what it says about them.
use vstd::prelude::*;
use vstd::string::*;

use crate::text::{append_decimal, append_signed_decimal, starts_with, str_eq};

verus! {

/// The common start of the names of the files that one receiver saves.
pub open spec fn save_name(
    pattern: Seq<char>,
    transport: Seq<char>,
    payload_size: nat,
    process: nat,
    save_id: nat,
) -> Seq<char> {
    "indiv_"@ + pattern + "_"@ + transport + "_"@ + crate::text::decimal(payload_size) + "_"@
        + crate::text::decimal(process) + "_"@ + crate::text::decimal(save_id)
}

/// One latency on each line.
pub open spec fn latency_lines(latencies: Seq<u64>) -> Seq<char>
    decreases latencies.len(),
{
    if latencies.len() == 0 {
        Seq::empty()
    } else {
        latency_lines(latencies.drop_last()) + crate::text::decimal(latencies.last() as nat)
            + "\n"@
    }
}

/// One CPU on each line.
pub open spec fn cpu_lines(cpus: Seq<i32>) -> Seq<char>
    decreases cpus.len(),
{
    if cpus.len() == 0 {
        Seq::empty()
    } else {
        cpu_lines(cpus.drop_last()) + crate::text::signed_decimal(cpus.last() as int) + "\n"@
    }
}

/// A file that an earlier run has saved, by its extension and its name.
pub open spec fn is_stale(extension: Seq<char>, name: Seq<char>) -> bool {
    ||| extension == "hgrm"@
    ||| extension == "rawlat.txt"@
    ||| crate::text::has_prefix(name, "indiv_"@)
}

/// What a receiver says that got fewer messages than it was to get.
pub open spec fn shortfall(received: nat, expected: nat) -> Seq<char> {
    "Warning: Received "@ + crate::text::decimal(received) + "/"@ + crate::text::decimal(expected)
        + " messages (dropped "@ + crate::text::decimal((expected - received) as nat) + ")"@
}

/// The common start of the names of the files that one receiver saves.
pub fn save_prefix(
    pattern: &str,
    transport: &str,
    payload_size: usize,
    process: u32,
    save_id: usize,
) -> (r: String)
    ensures
        r@ == save_name(
            pattern@,
            transport@,
            payload_size as nat,
            process as nat,
            save_id as nat,
        ),
{
    let mut r: String = "indiv_".to_owned();
    r.append(pattern);
    r.append("_");
    r.append(transport);
    r.append("_");
    append_decimal(&mut r, payload_size as u64);
    r.append("_");
    append_decimal(&mut r, process as u64);
    r.append("_");
    append_decimal(&mut r, save_id as u64);
    r
}

/// The name of the file with the latencies of single messages.
pub fn raw_latencies_file(prefix: &str) -> (r: String)
    ensures
        r@ == prefix@ + ".rawlat.txt"@,
{
    let mut r: String = prefix.to_owned();
    r.append(".rawlat.txt");
    r
}

/// The name of the file with a histogram.
pub fn histogram_file(prefix: &str) -> (r: String)
    ensures
        r@ == prefix@ + ".hgrm"@,
{
    let mut r: String = prefix.to_owned();
    r.append(".hgrm");
    r
}

/// The name of the file with the CPUs on which single messages were received.
pub fn recv_cpus_file(prefix: &str) -> (r: String)
    ensures
        r@ == prefix@ + ".recv_cpus.txt"@,
{
    let mut r: String = prefix.to_owned();
    r.append(".recv_cpus.txt");
    r
}

/// The name of the file with the histogram of a pair of dealers behind a proxy.
pub fn proxy_histogram_file(benchmark_name: &str, payload_size: usize, pair_id: usize) -> (r:
    String)
    ensures
        r@ == benchmark_name@ + "_"@ + crate::text::decimal(payload_size as nat) + "_pair_"@
            + crate::text::decimal(pair_id as nat) + ".hgrm"@,
{
    let mut r: String = benchmark_name.to_owned();
    r.append("_");
    append_decimal(&mut r, payload_size as u64);
    r.append("_pair_");
    append_decimal(&mut r, pair_id as u64);
    r.append(".hgrm");
    r
}

/// The text of the file with the latencies of single messages.
pub fn raw_latencies_text(latencies: &[u64]) -> (r: String)
    ensures
        r@ == latency_lines(latencies@),
{
    let mut r: String = String::new();
    let mut i: usize = 0;
    assert(latencies@.take(0) =~= Seq::empty());
    while i < latencies.len()
        invariant
            i <= latencies@.len(),
            r@ == latency_lines(latencies@.take(i as int)),
        decreases latencies@.len() - i,
    {
        append_decimal(&mut r, latencies[i]);
        r.append("\n");
        assert(latencies@.take(i + 1).drop_last() =~= latencies@.take(i as int));
        i = i + 1;
    }
    assert(latencies@.take(i as int) =~= latencies@);
    r
}

/// The text of the file with the CPUs on which single messages were received.
pub fn recv_cpus_text(cpus: &[i32]) -> (r: String)
    ensures
        r@ == cpu_lines(cpus@),
{
    let mut r: String = String::new();
    let mut i: usize = 0;
    assert(cpus@.take(0) =~= Seq::empty());
    while i < cpus.len()
        invariant
            i <= cpus@.len(),
            r@ == cpu_lines(cpus@.take(i as int)),
        decreases cpus@.len() - i,
    {
        append_signed_decimal(&mut r, cpus[i]);
        r.append("\n");
        assert(cpus@.take(i + 1).drop_last() =~= cpus@.take(i as int));
        i = i + 1;
    }
    assert(cpus@.take(i as int) =~= cpus@);
    r
}

/// Whether a file is one that an earlier run has saved, and that a new run removes.
pub fn is_stale_file(extension: &str, name: &str) -> (r: bool)
    ensures
        r == is_stale(extension@, name@),
{
    str_eq(extension, "hgrm") || str_eq(extension, "rawlat.txt") || starts_with(name, "indiv_")
}

/// What is to be said of a receiver that got fewer messages than it was to get; nothing where it
/// got them all.
pub fn short_warning(received: usize, expected: usize) -> (r: Option<String>)
    ensures
        r is Some <==> received < expected,
        r is Some ==> r->0@ == shortfall(received as nat, expected as nat),
{
    if received < expected {
        let mut r: String = "Warning: Received ".to_owned();
        append_decimal(&mut r, received as u64);
        r.append("/");
        append_decimal(&mut r, expected as u64);
        r.append(" messages (dropped ");
        append_decimal(&mut r, (expected - received) as u64);
        r.append(")");
        Some(r)
    } else {
        None
    }
}

/// Whatever a receiver saves is recognized by the next run as a file of an earlier one.
pub proof fn saved_files_are_stale(
    pattern: Seq<char>,
    transport: Seq<char>,
    payload_size: nat,
    process: nat,
    save_id: nat,
    suffix: Seq<char>,
    extension: Seq<char>,
)
    ensures
        is_stale(
            extension,
            save_name(pattern, transport, payload_size, process, save_id) + suffix,
        ),
{
    let name = save_name(pattern, transport, payload_size, process, save_id) + suffix;
    assert(name.take("indiv_"@.len() as int) =~= "indiv_"@);
}

/// Receivers of one process that save under different numbers do not overwrite each other's
/// files.
pub proof fn saved_files_differ(
    pattern: Seq<char>,
    transport: Seq<char>,
    payload_size: nat,
    process: nat,
    a: nat,
    b: nat,
    suffix: Seq<char>,
)
    requires
        save_name(pattern, transport, payload_size, process, a) + suffix == save_name(
            pattern,
            transport,
            payload_size,
            process,
            b,
        ) + suffix,
    ensures
        a == b,
{
    let lead = "indiv_"@ + pattern + "_"@ + transport + "_"@ + crate::text::decimal(payload_size)
        + "_"@ + crate::text::decimal(process) + "_"@;
    let x = crate::text::decimal(a);
    let y = crate::text::decimal(b);
    assert((lead + x + suffix).len() == (lead + y + suffix).len());
    assert(x =~= (lead + x + suffix).subrange(lead.len() as int, (lead.len() + x.len()) as int));
    assert(y =~= (lead + y + suffix).subrange(lead.len() as int, (lead.len() + y.len()) as int));
    crate::text::lemma_decimal_injective(a, b);
}

/// The text of latencies is that of some of them followed by that of the others, and the text of a
/// single one is its decimal on a line of its own.
pub proof fn latency_lines_are_one_each(a: Seq<u64>, b: Seq<u64>, latency: u64)
    ensures
        latency_lines(a + b) == latency_lines(a) + latency_lines(b),
        latency_lines(seq![latency]) == crate::text::decimal(latency as nat) + "\n"@,
        latency_lines(Seq::empty()) == Seq::<char>::empty(),
    decreases b.len(),
{
    reveal_with_fuel(latency_lines, 2);
    assert(seq![latency].drop_last() =~= Seq::empty());
    assert(latency_lines(seq![latency]) =~= crate::text::decimal(latency as nat) + "\n"@);
    if b.len() == 0 {
        assert(a + b =~= a);
        assert(latency_lines(a) + latency_lines(b) =~= latency_lines(a));
    } else {
        latency_lines_are_one_each(a, b.drop_last(), latency);
        assert((a + b).drop_last() =~= a + b.drop_last());
        assert(latency_lines(a + b) =~= latency_lines(a) + latency_lines(b));
    }
}

/// The text of CPUs is that of some of them followed by that of the others, and the text of a
/// single one is its number on a line of its own.
pub proof fn cpu_lines_are_one_each(a: Seq<i32>, b: Seq<i32>, cpu: i32)
    ensures
        cpu_lines(a + b) == cpu_lines(a) + cpu_lines(b),
        cpu_lines(seq![cpu]) == crate::text::signed_decimal(cpu as int) + "\n"@,
        cpu_lines(Seq::empty()) == Seq::<char>::empty(),
    decreases b.len(),
{
    reveal_with_fuel(cpu_lines, 2);
    assert(seq![cpu].drop_last() =~= Seq::empty());
    assert(cpu_lines(seq![cpu]) =~= crate::text::signed_decimal(cpu as int) + "\n"@);
    if b.len() == 0 {
        assert(a + b =~= a);
        assert(cpu_lines(a) + cpu_lines(b) =~= cpu_lines(a));
    } else {
        cpu_lines_are_one_each(a, b.drop_last(), cpu);
        assert((a + b).drop_last() =~= a + b.drop_last());
        assert(cpu_lines(a + b) =~= cpu_lines(a) + cpu_lines(b));
    }
}

/// The newlines in a text.
pub open spec fn newlines(text: Seq<char>) -> nat
    decreases text.len(),
{
    if text.len() == 0 {
        0
    } else {
        newlines(text.drop_last()) + if text.last() == '\n' {
            1nat
        } else {
            0nat
        }
    }
}

proof fn lemma_newlines_concat(a: Seq<char>, b: Seq<char>)
    ensures
        newlines(a + b) == newlines(a) + newlines(b),
    decreases b.len(),
{
    if b.len() == 0 {
        assert(a + b =~= a);
    } else {
        assert((a + b).drop_last() =~= a + b.drop_last());
        lemma_newlines_concat(a, b.drop_last());
    }
}

proof fn lemma_no_newlines(text: Seq<char>)
    requires
        forall|k: int| 0 <= k < text.len() ==> #[trigger] text[k] != '\n',
    ensures
        newlines(text) == 0,
    decreases text.len(),
{
    if text.len() > 0 {
        assert forall|k: int| 0 <= k < text.drop_last().len() implies #[trigger] text.drop_last()[k]
            != '\n' by {
            assert(text.drop_last()[k] == text[k]);
        }
        lemma_no_newlines(text.drop_last());
        assert(text.last() == text[text.len() - 1]);
    }
}

proof fn lemma_newlines_of_line(line: Seq<char>)
    requires
        forall|k: int| 0 <= k < line.len() ==> #[trigger] line[k] != '\n',
    ensures
        newlines(line + "\n"@) == 1,
{
    reveal_strlit("\n");
    lemma_no_newlines(line);
    assert((line + "\n"@).drop_last() =~= line);
}

/// The text of latencies has as many lines as there are latencies, and line `i` is the decimal of
/// latency `i`: so many lines stand before it, and the rest follows it.
pub proof fn every_latency_has_its_line(latencies: Seq<u64>, i: int)
    requires
        0 <= i < latencies.len(),
    ensures
        newlines(latency_lines(latencies)) == latencies.len(),
        exists|before: Seq<char>, after: Seq<char>|
            #![trigger newlines(before), newlines(after)]
            latency_lines(latencies) == before + crate::text::decimal(latencies[i] as nat) + "\n"@
                + after && newlines(before) == i && newlines(after) == latencies.len() - i - 1 && (i
                > 0 ==> before.last() == '\n'),
{
    let a = latencies.take(i);
    let b = latencies.skip(i + 1);
    lemma_latency_newlines(latencies);
    lemma_latency_newlines(a);
    lemma_latency_newlines(b);
    assert(latencies =~= a + (seq![latencies[i]] + b));
    latency_lines_are_one_each(a, seq![latencies[i]] + b, latencies[i]);
    latency_lines_are_one_each(seq![latencies[i]], b, latencies[i]);
    let before = latency_lines(a);
    let after = latency_lines(b);
    assert(latency_lines(latencies) =~= before + crate::text::decimal(latencies[i] as nat) + "\n"@
        + after);
    assert(newlines(before) == i && newlines(after) == latencies.len() - i - 1);
    if i > 0 {
        reveal_strlit("\n");
        assert(before.last() == '\n');
    }
}

proof fn lemma_latency_newlines(latencies: Seq<u64>)
    ensures
        newlines(latency_lines(latencies)) == latencies.len(),
    decreases latencies.len(),
{
    if latencies.len() > 0 {
        let earlier = latencies.drop_last();
        let line = crate::text::decimal(latencies.last() as nat);
        lemma_latency_newlines(earlier);
        crate::text::lemma_decimal_digits(latencies.last() as nat);
        assert forall|k: int| 0 <= k < line.len() implies #[trigger] line[k] != '\n' by {
            assert('0' <= line[k] <= '9');
        }
        lemma_newlines_of_line(line);
        lemma_newlines_concat(latency_lines(earlier), line + "\n"@);
        assert(latency_lines(latencies) =~= latency_lines(earlier) + (line + "\n"@));
    }
}

/// The text of CPUs has as many lines as there are CPUs.
pub proof fn every_cpu_has_a_line(cpus: Seq<i32>)
    ensures
        newlines(cpu_lines(cpus)) == cpus.len(),
    decreases cpus.len(),
{
    if cpus.len() > 0 {
        let earlier = cpus.drop_last();
        let cpu = cpus.last() as int;
        let line = crate::text::signed_decimal(cpu);
        every_cpu_has_a_line(earlier);
        let magnitude = if cpu < 0 {
            (-cpu) as nat
        } else {
            cpu as nat
        };
        crate::text::lemma_decimal_digits(magnitude);
        assert forall|k: int| 0 <= k < line.len() implies #[trigger] line[k] != '\n' by {
            if cpu < 0 && k > 0 {
                assert(line[k] == crate::text::decimal(magnitude)[k - 1]);
                assert('0' <= crate::text::decimal(magnitude)[k - 1] <= '9');
            } else if cpu >= 0 {
                assert('0' <= crate::text::decimal(magnitude)[k] <= '9');
            }
        }
        lemma_newlines_of_line(line);
        lemma_newlines_concat(cpu_lines(earlier), line + "\n"@);
        assert(cpu_lines(cpus) =~= cpu_lines(earlier) + (line + "\n"@));
    }
}

/// The files that receivers save are named after what was measured, in this order: the pattern, the
/// transport, the size, the process and the number of the receiver.
pub proof fn saved_names_tell_what_was_measured(
    pattern: Seq<char>,
    transport: Seq<char>,
    payload_size: nat,
    process: nat,
    save_id: nat,
)
    ensures
        save_name(pattern, transport, payload_size, process, save_id) == "indiv_"@ + pattern + "_"@
            + transport + "_"@ + crate::text::decimal(payload_size) + "_"@ + crate::text::decimal(
            process,
        ) + "_"@ + crate::text::decimal(save_id),
{
}

/// A file is taken for one of an earlier run exactly where its extension is that of a histogram or
/// of raw latencies, or its name starts as the names of saved files do, whatever follows.
pub proof fn stale_files_are_recognized(extension: Seq<char>, name: Seq<char>, rest: Seq<char>)
    ensures
        is_stale("hgrm"@, name),
        is_stale("rawlat.txt"@, name),
        is_stale(extension, "indiv_"@ + rest),
        is_stale(extension, name) && extension != "hgrm"@ && extension != "rawlat.txt"@
            ==> name.len() >= "indiv_"@.len() && name.take("indiv_"@.len() as int) == "indiv_"@,
{
    crate::text::prefix_is_a_start(name, "indiv_"@, rest);
}

/// A receiver that got too little says how many messages came, how many were to come, and how many
/// are missing: what came and what is missing make up what was to come.
pub proof fn shortfall_adds_up(received: nat, missing: nat)
    ensures
        shortfall(received, received + missing) == "Warning: Received "@ + crate::text::decimal(
            received,
        ) + "/"@ + crate::text::decimal(received + missing) + " messages (dropped "@
            + crate::text::decimal(missing) + ")"@,
{
}

} // verus!
