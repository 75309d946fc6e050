//! How the machine's threads are divided between queries and indexing.

use crate::text::{lowercase, same_text, to_lowercase};
use vstd::prelude::*;

verus! {

/// The fewest threads that a runtime is given while there are threads to give.
pub const MIN_THREADS: usize = 1;

/// How the available threads are divided between queries and indexing.
#[derive(Debug, Clone, Copy, PartialEq, Eq, Structural)]
pub enum AllocationStrategy {
    /// Six tenths for queries, the rest for indexing.
    Adaptive,
    /// Seven tenths for queries, the rest for indexing.
    QueryPriority,
    /// Seven tenths for indexing, the rest for queries.
    IndexerPriority,
    /// Half for each.
    Balanced,
}

/// The strategy that a lower case name stands for: an unknown name stands for `Adaptive`.
pub open spec fn strategy_named(name: Seq<char>) -> AllocationStrategy {
    if name == "query_priority"@ {
        AllocationStrategy::QueryPriority
    } else if name == "indexer_priority"@ {
        AllocationStrategy::IndexerPriority
    } else if name == "balanced"@ {
        AllocationStrategy::Balanced
    } else {
        AllocationStrategy::Adaptive
    }
}

impl AllocationStrategy {
    /// The strategy that a lower case name stands for.
    pub fn from_lowercase(name: &str) -> (strategy: AllocationStrategy)
        ensures
            strategy == strategy_named(name@),
    {
        if same_text(name, "adaptive") {
            proof {
                reveal_strlit("adaptive");
                reveal_strlit("query_priority");
                reveal_strlit("indexer_priority");
                reveal_strlit("balanced");
                assert(name@[0] == 'a');
            }
            AllocationStrategy::Adaptive
        } else if same_text(name, "query_priority") {
            AllocationStrategy::QueryPriority
        } else if same_text(name, "indexer_priority") {
            AllocationStrategy::IndexerPriority
        } else if same_text(name, "balanced") {
            AllocationStrategy::Balanced
        } else {
            AllocationStrategy::Adaptive
        }
    }
}

impl<'a> From<&'a str> for AllocationStrategy {
    fn from(s: &'a str) -> (strategy: Self) {
        let name: String = to_lowercase(s);
        AllocationStrategy::from_lowercase(name.as_str())
    }
}

impl<'a> vstd::std_specs::convert::FromSpecImpl<&'a str> for AllocationStrategy {
    open spec fn obeys_from_spec() -> bool {
        true
    }

    open spec fn from_spec(s: &'a str) -> Self {
        strategy_named(lowercase(s@))
    }
}

/// The number of threads that each runtime is given.
#[derive(Debug, Clone, Copy, PartialEq, Eq, Structural)]
pub struct RuntimeAllocation {
    /// Threads that serve queries.
    pub query_threads: usize,
    /// Threads that index.
    pub indexer_threads: usize,
    /// Threads of the main runtime.
    pub main_threads: usize,
}

/// The threads that are left when one is kept for the main runtime.
pub open spec fn available_threads(cpu_count: int) -> int {
    if cpu_count > 0 {
        cpu_count - 1
    } else {
        0
    }
}

/// `threads`, raised to `MIN_THREADS` and then lowered to `limit`.
pub open spec fn bounded(threads: int, limit: int) -> int {
    let raised = if threads < MIN_THREADS {
        MIN_THREADS as int
    } else {
        threads
    };
    if raised > limit {
        limit
    } else {
        raised
    }
}

/// The share of the larger side out of `available` threads: `tenths` tenths of them.
pub open spec fn major_share(available: int, tenths: int) -> int {
    bounded(available * tenths / 10, available)
}

/// The share of the smaller side: what the larger side leaves.
pub open spec fn minor_share(available: int, tenths: int) -> int {
    bounded(available - major_share(available, tenths), available)
}

/// The query and indexer threads that a strategy gives out of `available` threads.
pub open spec fn strategy_shares(available: int, strategy: AllocationStrategy) -> (int, int) {
    match strategy {
        AllocationStrategy::QueryPriority => (
            major_share(available, 7),
            minor_share(available, 7),
        ),
        AllocationStrategy::IndexerPriority => (
            minor_share(available, 7),
            major_share(available, 7),
        ),
        AllocationStrategy::Balanced => (
            bounded(available / 2, available),
            bounded(available / 2, available),
        ),
        AllocationStrategy::Adaptive => (
            major_share(available, 6),
            minor_share(available, 6),
        ),
    }
}

/// An override replaces a share when it is above zero, within `cpu_count` threads.
pub open spec fn overridden(given: int, share: int, cpu_count: int) -> int {
    if given > 0 {
        bounded(given, cpu_count)
    } else {
        share
    }
}

/// The tenths of the available threads that a strategy hands to its larger side.
pub open spec fn strategy_tenths(strategy: AllocationStrategy) -> int {
    match strategy {
        AllocationStrategy::QueryPriority => 7,
        AllocationStrategy::IndexerPriority => 7,
        AllocationStrategy::Balanced => 1,
        AllocationStrategy::Adaptive => 6,
    }
}

/// Whether the shares of a strategy can be computed in `usize`.
pub open spec fn shares_fit(cpu_count: int, strategy: AllocationStrategy) -> bool {
    available_threads(cpu_count) * strategy_tenths(strategy) <= usize::MAX
}

/// The allocation for a machine with `cpu_count` processors.
pub open spec fn allocation_for(
    cpu_count: int,
    strategy: AllocationStrategy,
    query_override: int,
    indexer_override: int,
) -> (int, int) {
    let shares = strategy_shares(available_threads(cpu_count), strategy);
    (
        overridden(query_override, shares.0, cpu_count),
        overridden(indexer_override, shares.1, cpu_count),
    )
}

fn bound_threads(threads: usize, limit: usize) -> (result: usize)
    ensures
        result == bounded(threads as int, limit as int),
{
    let raised: usize = if threads < MIN_THREADS {
        MIN_THREADS
    } else {
        threads
    };
    if raised > limit {
        limit
    } else {
        raised
    }
}

fn split_threads(available: usize, tenths: usize) -> (result: (usize, usize))
    requires
        available * tenths <= usize::MAX,
    ensures
        result.0 == major_share(available as int, tenths as int),
        result.1 == minor_share(available as int, tenths as int),
{
    let major: usize = bound_threads((available * tenths) / 10, available);
    let minor: usize = bound_threads(available - major, available);
    (major, minor)
}

impl RuntimeAllocation {
    /// Divides the threads of a machine with `cpu_count` processors by `strategy`. An override
    /// above zero replaces the share of its side.
    pub fn calculate(
        cpu_count: usize,
        strategy: &AllocationStrategy,
        query_override: usize,
        indexer_override: usize,
    ) -> (allocation: Self)
        requires
            shares_fit(cpu_count as int, *strategy),
        ensures
            (allocation.query_threads as int, allocation.indexer_threads as int) == allocation_for(
                cpu_count as int,
                *strategy,
                query_override as int,
                indexer_override as int,
            ),
            allocation.main_threads == 1,
    {
        // One thread is kept for the main runtime.
        let available: usize = if cpu_count > 0 {
            cpu_count - 1
        } else {
            0
        };
        let (query_threads, indexer_threads) = match strategy {
            AllocationStrategy::QueryPriority => split_threads(available, 7),
            AllocationStrategy::IndexerPriority => {
                let (indexer, query) = split_threads(available, 7);
                (query, indexer)
            },
            AllocationStrategy::Balanced => {
                let half: usize = bound_threads(available / 2, available);
                (half, half)
            },
            AllocationStrategy::Adaptive => split_threads(available, 6),
        };
        RuntimeAllocation {
            query_threads: if query_override > 0 {
                bound_threads(query_override, cpu_count)
            } else {
                query_threads
            },
            indexer_threads: if indexer_override > 0 {
                bound_threads(indexer_override, cpu_count)
            } else {
                indexer_threads
            },
            main_threads: 1,
        }
    }
}

/// With two processors or more, each runtime has a thread, whatever the strategy and the
/// overrides are.
pub proof fn law_no_runtime_starves(
    cpu_count: int,
    strategy: AllocationStrategy,
    query_override: int,
    indexer_override: int,
)
    requires
        cpu_count >= 2,
    ensures
        allocation_for(cpu_count, strategy, query_override, indexer_override).0 >= MIN_THREADS,
        allocation_for(cpu_count, strategy, query_override, indexer_override).1 >= MIN_THREADS,
{
}

/// No runtime is given more threads than there are processors.
pub proof fn law_within_processors(
    cpu_count: int,
    strategy: AllocationStrategy,
    query_override: int,
    indexer_override: int,
)
    requires
        cpu_count >= 0,
    ensures
        0 <= allocation_for(cpu_count, strategy, query_override, indexer_override).0 <= cpu_count,
        0 <= allocation_for(cpu_count, strategy, query_override, indexer_override).1 <= cpu_count,
{
}

/// Without overrides, queries and indexing together leave a thread for the main runtime, on a
/// machine with three processors or more.
pub proof fn law_main_thread_reserved(cpu_count: int, strategy: AllocationStrategy)
    requires
        cpu_count >= 3,
    ensures
        allocation_for(cpu_count, strategy, 0, 0).0 + allocation_for(cpu_count, strategy, 0, 0).1
            + 1 <= cpu_count,
        strategy != AllocationStrategy::Balanced ==> allocation_for(cpu_count, strategy, 0, 0).0
            + allocation_for(cpu_count, strategy, 0, 0).1 + 1 == cpu_count,
{
}

/// Without overrides, no side is given less than its strategy prefers it to have: queries come
/// first under `QueryPriority`, indexing under `IndexerPriority`, and `Balanced` treats them
/// alike.
pub proof fn law_strategy_preference(cpu_count: int)
    requires
        cpu_count >= 0,
    ensures
        allocation_for(cpu_count, AllocationStrategy::QueryPriority, 0, 0).0 >= allocation_for(
            cpu_count,
            AllocationStrategy::QueryPriority,
            0,
            0,
        ).1,
        allocation_for(cpu_count, AllocationStrategy::IndexerPriority, 0, 0).1 >= allocation_for(
            cpu_count,
            AllocationStrategy::IndexerPriority,
            0,
            0,
        ).0,
        allocation_for(cpu_count, AllocationStrategy::Balanced, 0, 0).0 == allocation_for(
            cpu_count,
            AllocationStrategy::Balanced,
            0,
            0,
        ).1,
{
}

/// Without overrides, `Adaptive` gives queries no less than indexing, except on a machine with
/// four processors: there six tenths of three threads, rounded down, leave indexing the larger
/// side.
pub proof fn law_adaptive_favours_queries(cpu_count: int)
    requires
        cpu_count >= 0,
        cpu_count != 4,
    ensures
        allocation_for(cpu_count, AllocationStrategy::Adaptive, 0, 0).0 >= allocation_for(
            cpu_count,
            AllocationStrategy::Adaptive,
            0,
            0,
        ).1,
{
}

/// `IndexerPriority` gives what `QueryPriority` gives for exchanged overrides, with the sides
/// exchanged.
pub proof fn law_priorities_mirror(cpu_count: int, query_override: int, indexer_override: int)
    ensures
        allocation_for(
            cpu_count,
            AllocationStrategy::IndexerPriority,
            query_override,
            indexer_override,
        ).0 == allocation_for(
            cpu_count,
            AllocationStrategy::QueryPriority,
            indexer_override,
            query_override,
        ).1,
        allocation_for(
            cpu_count,
            AllocationStrategy::IndexerPriority,
            query_override,
            indexer_override,
        ).1 == allocation_for(
            cpu_count,
            AllocationStrategy::QueryPriority,
            indexer_override,
            query_override,
        ).0,
{
}

proof fn lemma_shares_grow(fewer: int, more: int, strategy: AllocationStrategy)
    requires
        0 <= fewer <= more,
    ensures
        strategy_shares(fewer, strategy).0 <= strategy_shares(more, strategy).0,
        strategy_shares(fewer, strategy).1 <= strategy_shares(more, strategy).1,
{
    assert(fewer * 7 / 10 <= more * 7 / 10 <= fewer * 7 / 10 + (more - fewer));
    assert(fewer * 6 / 10 <= more * 6 / 10 <= fewer * 6 / 10 + (more - fewer));
    assert(fewer / 2 <= more / 2);
}

/// With more processors no runtime is given fewer threads.
pub proof fn law_more_processors_never_cost_threads(
    fewer: int,
    more: int,
    strategy: AllocationStrategy,
    query_override: int,
    indexer_override: int,
)
    requires
        0 <= fewer <= more,
    ensures
        allocation_for(fewer, strategy, query_override, indexer_override).0 <= allocation_for(
            more,
            strategy,
            query_override,
            indexer_override,
        ).0,
        allocation_for(fewer, strategy, query_override, indexer_override).1 <= allocation_for(
            more,
            strategy,
            query_override,
            indexer_override,
        ).1,
{
    lemma_shares_grow(available_threads(fewer), available_threads(more), strategy);
}

/// Without overrides and with three processors or more, one processor stays out of the division.
/// Of the others, `Adaptive` gives six tenths to queries, `QueryPriority` seven, and both give
/// indexing the rest. `IndexerPriority` gives seven tenths to indexing and queries the rest.
/// `Balanced` gives half to each.
pub proof fn law_tenths_of_the_threads(
    cpu_count: usize,
    strategy: AllocationStrategy,
    allocation: RuntimeAllocation,
)
    requires
        call_ensures(
            RuntimeAllocation::calculate,
            (cpu_count, &strategy, 0usize, 0usize),
            allocation,
        ),
        cpu_count >= 3,
    ensures
        allocation.main_threads == 1,
        strategy is Adaptive ==> allocation.query_threads == (cpu_count - 1) * 6 / 10
            && allocation.query_threads >= 1,
        strategy is QueryPriority ==> allocation.query_threads == (cpu_count - 1) * 7 / 10
            && allocation.query_threads >= 1,
        strategy is IndexerPriority ==> allocation.indexer_threads == (cpu_count - 1) * 7 / 10
            && allocation.indexer_threads >= 1,
        strategy !is Balanced ==> allocation.query_threads + allocation.indexer_threads + 1
            == cpu_count,
        strategy is Balanced ==> allocation.query_threads == (cpu_count - 1) / 2
            && allocation.indexer_threads == (cpu_count - 1) / 2,
{
}

/// Without overrides, two processors give each side a thread under every strategy, and fewer give
/// none.
pub proof fn law_few_processors(
    cpu_count: usize,
    strategy: AllocationStrategy,
    allocation: RuntimeAllocation,
)
    requires
        call_ensures(
            RuntimeAllocation::calculate,
            (cpu_count, &strategy, 0usize, 0usize),
            allocation,
        ),
        cpu_count <= 2,
    ensures
        allocation.main_threads == 1,
        cpu_count == 2 ==> allocation.query_threads == 1 && allocation.indexer_threads == 1,
        cpu_count < 2 ==> allocation.query_threads == 0 && allocation.indexer_threads == 0,
{
}

/// An override above zero is what its side gets, as far as there are processors. A side without
/// one gets what it would get without any, and the main runtime keeps its thread.
pub proof fn law_overrides_rule_their_side(
    cpu_count: usize,
    strategy: AllocationStrategy,
    query_override: usize,
    indexer_override: usize,
    allocation: RuntimeAllocation,
    plain: RuntimeAllocation,
)
    requires
        call_ensures(
            RuntimeAllocation::calculate,
            (cpu_count, &strategy, query_override, indexer_override),
            allocation,
        ),
        call_ensures(RuntimeAllocation::calculate, (cpu_count, &strategy, 0usize, 0usize), plain),
    ensures
        0 < query_override <= cpu_count ==> allocation.query_threads == query_override,
        0 < indexer_override <= cpu_count ==> allocation.indexer_threads == indexer_override,
        query_override > cpu_count ==> allocation.query_threads == cpu_count,
        indexer_override > cpu_count ==> allocation.indexer_threads == cpu_count,
        query_override == 0 ==> allocation.query_threads == plain.query_threads,
        indexer_override == 0 ==> allocation.indexer_threads == plain.indexer_threads,
        allocation.main_threads == 1,
{
}

/// Each strategy has its own lower case name, and every other name stands for `Adaptive`.
pub proof fn law_strategies_have_names(name: &str, strategy: AllocationStrategy)
    requires
        call_ensures(AllocationStrategy::from_lowercase, (name,), strategy),
    ensures
        strategy is QueryPriority <==> name@ == "query_priority"@,
        strategy is IndexerPriority <==> name@ == "indexer_priority"@,
        strategy is Balanced <==> name@ == "balanced"@,
        name@ == "adaptive"@ ==> strategy is Adaptive,
{
    lemma_names_differ();
}

proof fn lemma_names_differ()
    ensures
        "query_priority"@ != "indexer_priority"@,
        "query_priority"@ != "balanced"@,
        "indexer_priority"@ != "balanced"@,
        "adaptive"@ != "query_priority"@,
        "adaptive"@ != "indexer_priority"@,
        "adaptive"@ != "balanced"@,
{
    reveal_strlit("adaptive");
    reveal_strlit("query_priority");
    reveal_strlit("indexer_priority");
    reveal_strlit("balanced");
    assert("adaptive"@[0] == 'a');
    assert("query_priority"@[0] == 'q');
    assert("indexer_priority"@[0] == 'i');
    assert("balanced"@[0] == 'b');
}

/// A name stands for a strategy in whatever case it is written: what counts is its lower case
/// form.
pub proof fn law_case_of_a_name_does_not_count(name: &str, strategy: AllocationStrategy)
    requires
        call_ensures(<AllocationStrategy as From<&str>>::from, (name,), strategy),
    ensures
        strategy is QueryPriority <==> lowercase(name@) == "query_priority"@,
        strategy is IndexerPriority <==> lowercase(name@) == "indexer_priority"@,
        strategy is Balanced <==> lowercase(name@) == "balanced"@,
{
    lemma_names_differ();
}

} // verus!
