//! The whole series of runs: every pattern over every transport with every payload size.
use vstd::prelude::*;

use crate::endpoints::cleanup_ipc;
use crate::roles::Pattern;
use crate::text::str_eq;

verus! {

/// What the series is to cover.
#[derive(Debug)]
pub struct SuiteConfig {
    pub num_senders: usize,
    pub num_receivers_per_sender: usize,
    pub num_dealer_pairs: usize,
    pub num_dealerrouter_dealers: usize,
    pub payload_sizes: Vec<usize>,
}

/// One run of the series.
#[derive(Debug)]
pub struct Run {
    pub pattern: Pattern,
    pub transport: &'static str,
    pub payload_size: usize,
}

/// A run as the contracts see it.
#[verifier::ext_equal]
pub struct RunModel {
    pub pattern: Pattern,
    pub transport: Seq<char>,
    pub payload_size: usize,
}

impl View for Run {
    type V = RunModel;

    open spec fn view(&self) -> RunModel {
        RunModel {
            pattern: self.pattern,
            transport: self.transport@,
            payload_size: self.payload_size,
        }
    }
}

/// The runs as the contracts see them.
pub open spec fn run_models(runs: Seq<Run>) -> Seq<RunModel> {
    runs.map_values(|run: Run| run@)
}

/// The patterns of the series, in their order.
pub open spec fn patterns(config: SuiteConfig) -> Seq<Pattern> {
    seq![
        Pattern::PubSub {
            num_senders: config.num_senders,
            num_receivers_per_sender: config.num_receivers_per_sender,
        },
        Pattern::Dealer { num_pairs: config.num_dealer_pairs },
        Pattern::DealerRouter { num_dealers: config.num_dealerrouter_dealers },
    ]
}

/// The transports of the series, in their order.
pub open spec fn transports() -> Seq<Seq<char>> {
    seq!["ipc"@, "tcp"@]
}

/// The runs of one pattern over one transport: one for each payload size.
pub open spec fn runs_over(
    pattern: Pattern,
    transport: Seq<char>,
    payload_sizes: Seq<usize>,
) -> Seq<RunModel> {
    Seq::new(
        payload_sizes.len(),
        |i: int| RunModel { pattern, transport, payload_size: payload_sizes[i] },
    )
}

/// The runs of one pattern, transport by transport.
pub open spec fn runs_of(pattern: Pattern, payload_sizes: Seq<usize>) -> Seq<RunModel> {
    runs_over(pattern, "ipc"@, payload_sizes) + runs_over(pattern, "tcp"@, payload_sizes)
}

/// The series, pattern by pattern.
pub open spec fn series(config: SuiteConfig) -> Seq<RunModel> {
    let sizes = config.payload_sizes@;
    let p = patterns(config);
    runs_of(p[0], sizes) + runs_of(p[1], sizes) + runs_of(p[2], sizes)
}

/// The title of a pattern in the series.
pub open spec fn title(pattern: Pattern) -> Seq<char> {
    match pattern {
        Pattern::PubSub { .. } => "PUB/SUB"@,
        Pattern::Dealer { .. } => "DEALER"@,
        Pattern::DealerRouter { .. } => "DEALER-ROUTER"@,
    }
}

/// The files that a run can leave behind.
pub open spec fn leftovers(run: RunModel) -> Seq<Seq<char>> {
    if run.transport == "ipc"@ {
        match run.pattern {
            Pattern::PubSub { num_senders, .. } => crate::endpoints::leftover_files(
                "pub"@,
                num_senders as nat,
            ),
            Pattern::Dealer { num_pairs } => crate::endpoints::leftover_files(
                "dealer"@,
                num_pairs as nat,
            ),
            Pattern::DealerRouter { .. } => crate::endpoints::leftover_files("dealerrouter"@, 0),
        }
    } else {
        Seq::empty()
    }
}

/// The addresses that the sockets of a run bind.
pub open spec fn bound_addresses(pattern: Pattern, transport: Seq<char>) -> Seq<Seq<char>> {
    match pattern {
        Pattern::PubSub { num_senders, .. } => Seq::new(
            num_senders as nat,
            |i: int| crate::endpoints::publisher_endpoint(transport, i as nat),
        ),
        Pattern::Dealer { num_pairs } => Seq::new(
            num_pairs as nat,
            |i: int| crate::endpoints::dealer_endpoint(transport, i as nat),
        ),
        Pattern::DealerRouter { .. } => seq![crate::endpoints::router_endpoint(transport)],
    }
}

fn push_runs(
    runs: &mut Vec<Run>,
    pattern: Pattern,
    transport: &'static str,
    payload_sizes: &Vec<usize>,
)
    ensures
        run_models(final(runs)@) == run_models(old(runs)@) + runs_over(
            pattern,
            transport@,
            payload_sizes@,
        ),
{
    let mut i: usize = 0;
    assert(run_models(runs@) =~= run_models(old(runs)@) + runs_over(
        pattern,
        transport@,
        payload_sizes@,
    ).take(0));
    while i < payload_sizes.len()
        invariant
            i <= payload_sizes@.len(),
            run_models(runs@) == run_models(old(runs)@) + runs_over(
                pattern,
                transport@,
                payload_sizes@,
            ).take(i as int),
        decreases payload_sizes@.len() - i,
    {
        let ghost before = runs@;
        runs.push(Run { pattern, transport, payload_size: payload_sizes[i] });
        proof {
            let whole = runs_over(pattern, transport@, payload_sizes@);
            assert(run_models(runs@) =~= run_models(before).push(whole[i as int]));
            assert(whole.take(i + 1) =~= whole.take(i as int).push(whole[i as int]));
        }
        i = i + 1;
    }
    assert(runs_over(pattern, transport@, payload_sizes@).take(i as int) =~= runs_over(
        pattern,
        transport@,
        payload_sizes@,
    ));
}

/// The series of `config`, in the order in which it runs.
pub fn run_benchmarks(config: &SuiteConfig) -> (r: Vec<Run>)
    ensures
        run_models(r@) == series(*config),
{
    let pubsub: Pattern = Pattern::PubSub {
        num_senders: config.num_senders,
        num_receivers_per_sender: config.num_receivers_per_sender,
    };
    let dealer: Pattern = Pattern::Dealer { num_pairs: config.num_dealer_pairs };
    let ring: Pattern = Pattern::DealerRouter { num_dealers: config.num_dealerrouter_dealers };
    let mut r: Vec<Run> = Vec::new();
    push_runs(&mut r, pubsub, "ipc", &config.payload_sizes);
    push_runs(&mut r, pubsub, "tcp", &config.payload_sizes);
    push_runs(&mut r, dealer, "ipc", &config.payload_sizes);
    push_runs(&mut r, dealer, "tcp", &config.payload_sizes);
    push_runs(&mut r, ring, "ipc", &config.payload_sizes);
    push_runs(&mut r, ring, "tcp", &config.payload_sizes);
    assert(run_models(r@) =~= series(*config));
    r
}

/// The titles of the patterns of the series, in their order.
pub fn section_titles() -> (r: Vec<&'static str>)
    ensures
        r@.len() == 3,
        forall|config: SuiteConfig, i: int|
            0 <= i < 3 ==> #[trigger] r@[i]@ == title(#[trigger] patterns(config)[i]),
{
    let mut r: Vec<&'static str> = Vec::new();
    r.push("PUB/SUB");
    r.push("DEALER");
    r.push("DEALER-ROUTER");
    r
}

impl Run {
    /// The title of the pattern in the series.
    pub fn title(&self) -> (r: &'static str)
        ensures
            r@ == title(self.pattern),
    {
        match self.pattern {
            Pattern::PubSub { .. } => "PUB/SUB",
            Pattern::Dealer { .. } => "DEALER",
            Pattern::DealerRouter { .. } => "DEALER-ROUTER",
        }
    }

    /// The files to be removed before and after the run.
    pub fn leftover_files(&self) -> (r: Vec<String>)
        ensures
            crate::endpoints::texts(r@) == leftovers(self@),
    {
        if str_eq(self.transport, "ipc") {
            match self.pattern {
                Pattern::PubSub { num_senders, .. } => cleanup_ipc("pub", num_senders),
                Pattern::Dealer { num_pairs } => cleanup_ipc("dealer", num_pairs),
                Pattern::DealerRouter { .. } => cleanup_ipc("dealerrouter", 0),
            }
        } else {
            let r: Vec<String> = Vec::new();
            assert(crate::endpoints::texts(r@) =~= Seq::empty());
            r
        }
    }
}

/// Every pattern runs over every transport with every payload size that is listed, and each of
/// these combinations has its own place in the series.
pub proof fn series_covers_everything(config: SuiteConfig, p: int, t: int, s: int)
    requires
        0 <= p < 3,
        0 <= t < 2,
        0 <= s < config.payload_sizes@.len(),
    ensures
        series(config).len() == 6 * config.payload_sizes@.len(),
        0 <= (2 * p + t) * config.payload_sizes@.len() + s < series(config).len(),
        series(config)[(2 * p + t) * config.payload_sizes@.len() + s] == (RunModel {
            pattern: patterns(config)[p],
            transport: transports()[t],
            payload_size: config.payload_sizes@[s],
        }),
{
    let n = config.payload_sizes@.len() as int;
    assert((2 * p + t) * n == 2 * (p * n) + t * n) by (nonlinear_arith);
    assert(t * n == if t == 0 {
        0
    } else {
        n
    }) by (nonlinear_arith)
        requires
            0 <= t < 2,
    ;
    assert(p * n == if p == 0 {
        0
    } else if p == 1 {
        n
    } else {
        2 * n
    }) by (nonlinear_arith)
        requires
            0 <= p < 3,
    ;
}

/// Whatever file a run's sockets create is among those that are removed before and after it.
pub proof fn runs_leave_nothing_behind(run: RunModel, i: int)
    requires
        0 <= i < bound_addresses(run.pattern, run.transport).len(),
    ensures
        crate::endpoints::file_behind(bound_addresses(run.pattern, run.transport)[i]) is Some ==>
            leftovers(run).contains(
            crate::endpoints::file_behind(bound_addresses(run.pattern, run.transport)[i])->0,
        ),
{
    if run.transport == "ipc"@ {
        match run.pattern {
            Pattern::PubSub { num_senders, .. } => {
                crate::endpoints::publisher_files_are_cleaned_up(i as nat, num_senders as nat);
            },
            Pattern::Dealer { num_pairs } => {
                crate::endpoints::dealer_files_are_cleaned_up(i as nat, num_pairs as nat);
            },
            Pattern::DealerRouter { .. } => {
                crate::endpoints::router_file_is_cleaned_up();
                assert(leftovers(run)[0] == crate::endpoints::router_file());
            },
        }
    } else {
        match run.pattern {
            Pattern::PubSub { .. } => {
                crate::endpoints::port_address_has_no_file(
                    run.transport,
                    crate::endpoints::socket_file("pub"@, i as nat),
                    crate::endpoints::PUBLISHER_PORT as nat + i as nat,
                );
            },
            Pattern::Dealer { .. } => {
                crate::endpoints::port_address_has_no_file(
                    run.transport,
                    crate::endpoints::socket_file("dealer"@, i as nat),
                    crate::endpoints::DEALER_PORT as nat + i as nat,
                );
            },
            Pattern::DealerRouter { .. } => {
                crate::endpoints::port_address_has_no_file(
                    run.transport,
                    crate::endpoints::router_file(),
                    crate::endpoints::ROUTER_PORT as nat,
                );
            },
        }
    }
}

/// Every run of the series has as many participants as were asked for: a publish-subscribe run
/// the publishers and the subscribers for each of them, a dealer run the pairs, and a run around a
/// router the dealers. Its size is one of those that were asked for, and its transport one of the
/// two.
pub proof fn runs_have_the_asked_participants(config: SuiteConfig, i: int)
    requires
        0 <= i < series(config).len(),
    ensures
        match series(config)[i].pattern {
            Pattern::PubSub { num_senders, num_receivers_per_sender } => num_senders
                == config.num_senders && num_receivers_per_sender
                == config.num_receivers_per_sender,
            Pattern::Dealer { num_pairs } => num_pairs == config.num_dealer_pairs,
            Pattern::DealerRouter { num_dealers } => num_dealers == config.num_dealerrouter_dealers,
        },
        config.payload_sizes@.contains(series(config)[i].payload_size),
        series(config)[i].transport == "ipc"@ || series(config)[i].transport == "tcp"@,
{
    let n = config.payload_sizes@.len() as int;
    assert(n > 0);
    assert(series(config).len() == 6 * n);
    let j: int = if i < n {
        0
    } else if i < 2 * n {
        1
    } else if i < 3 * n {
        2
    } else if i < 4 * n {
        3
    } else if i < 5 * n {
        4
    } else {
        5
    };
    runs_come_in_order(config, i - j * n);
}

/// The runs in their order, where there are `n` sizes: first all sizes with publishers over `ipc`,
/// then all with publishers over `tcp`, then with pairs of dealers over both, and at last around a
/// router over both.
pub proof fn runs_come_in_order(config: SuiteConfig, s: int)
    requires
        0 <= s < config.payload_sizes@.len(),
    ensures
        ({
            let n = config.payload_sizes@.len() as int;
            let size = config.payload_sizes@[s];
            let pubsub = Pattern::PubSub {
                num_senders: config.num_senders,
                num_receivers_per_sender: config.num_receivers_per_sender,
            };
            let dealer = Pattern::Dealer { num_pairs: config.num_dealer_pairs };
            let ring = Pattern::DealerRouter { num_dealers: config.num_dealerrouter_dealers };
            let runs = series(config);
            &&& runs.len() == 6 * n
            &&& runs[s] == (RunModel { pattern: pubsub, transport: "ipc"@, payload_size: size })
            &&& runs[n + s] == (RunModel { pattern: pubsub, transport: "tcp"@, payload_size: size })
            &&& runs[2 * n + s] == (RunModel {
                pattern: dealer,
                transport: "ipc"@,
                payload_size: size,
            })
            &&& runs[3 * n + s] == (RunModel {
                pattern: dealer,
                transport: "tcp"@,
                payload_size: size,
            })
            &&& runs[4 * n + s] == (RunModel {
                pattern: ring,
                transport: "ipc"@,
                payload_size: size,
            })
            &&& runs[5 * n + s] == (RunModel {
                pattern: ring,
                transport: "tcp"@,
                payload_size: size,
            })
        }),
{
    let n = config.payload_sizes@.len() as int;
    series_covers_everything(config, 0, 0, s);
    series_covers_everything(config, 0, 1, s);
    series_covers_everything(config, 1, 0, s);
    series_covers_everything(config, 1, 1, s);
    series_covers_everything(config, 2, 0, s);
    series_covers_everything(config, 2, 1, s);
    assert(patterns(config).len() == 3);
}

/// A pattern has the same title in every run, whatever its numbers are.
pub proof fn titles_tell_the_pattern(a: usize, b: usize)
    ensures
        title(Pattern::PubSub { num_senders: a, num_receivers_per_sender: b }) == "PUB/SUB"@,
        title(Pattern::Dealer { num_pairs: a }) == "DEALER"@,
        title(Pattern::DealerRouter { num_dealers: a }) == "DEALER-ROUTER"@,
{
}

/// Nothing is removed before and after a run but the files of its own sockets: one for each
/// publisher, one for each pair, one for a router, and none where the transport has no files.
pub proof fn only_own_files_are_removed(
    pattern: Pattern,
    transport: Seq<char>,
    payload_size: usize,
    i: int,
)
    ensures
        ({
            let files = leftovers(RunModel { pattern, transport: "ipc"@, payload_size });
            match pattern {
                Pattern::PubSub { num_senders, .. } => {
                    &&& files.len() == num_senders
                    &&& 0 <= i < num_senders ==> files[i] == "/tmp/"@ + "pub"@ + "_"@
                        + crate::text::decimal(i as nat) + ".ipc"@
                },
                Pattern::Dealer { num_pairs } => {
                    &&& files.len() == num_pairs
                    &&& 0 <= i < num_pairs ==> files[i] == "/tmp/"@ + "dealer"@ + "_"@
                        + crate::text::decimal(i as nat) + ".ipc"@
                },
                Pattern::DealerRouter { .. } => files == seq!["/tmp/dealerrouter.ipc"@],
            }
        }),
        transport != "ipc"@ ==> leftovers((RunModel { pattern, transport, payload_size })).len() == 0,
{
    reveal_strlit("pub");
    reveal_strlit("dealer");
    reveal_strlit("dealerrouter");
    assert("pub"@.len() != "dealerrouter"@.len());
    assert("dealer"@.len() != "dealerrouter"@.len());
}

/// The sockets of a run are bound to the addresses of its publishers, of its pairs, or of its
/// router, each to its own.
pub proof fn sockets_are_bound_to_their_addresses(pattern: Pattern, transport: Seq<char>, i: int)
    requires
        0 <= i < bound_addresses(pattern, transport).len(),
    ensures
        match pattern {
            Pattern::PubSub { num_senders, .. } => {
                &&& bound_addresses(pattern, transport).len() == num_senders
                &&& bound_addresses(pattern, transport)[i] == crate::endpoints::publisher_endpoint(
                    transport,
                    i as nat,
                )
            },
            Pattern::Dealer { num_pairs } => {
                &&& bound_addresses(pattern, transport).len() == num_pairs
                &&& bound_addresses(pattern, transport)[i] == crate::endpoints::dealer_endpoint(
                    transport,
                    i as nat,
                )
            },
            Pattern::DealerRouter { .. } => bound_addresses(pattern, transport) == seq![
                crate::endpoints::router_endpoint(transport),
            ],
        },
{
}

/// What the contracts see of runs are their fields, run by run.
pub proof fn runs_are_seen_as_they_are(runs: Seq<Run>, i: int)
    requires
        0 <= i < runs.len(),
    ensures
        run_models(runs).len() == runs.len(),
        run_models(runs)[i].pattern == runs[i].pattern,
        run_models(runs)[i].transport == runs[i].transport@,
        run_models(runs)[i].payload_size == runs[i].payload_size,
{
}

} // verus!
