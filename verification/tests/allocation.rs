use torii::allocation::{AllocationStrategy, RuntimeAllocation};

fn threads(
    cpu_count: usize,
    strategy: AllocationStrategy,
    query_override: usize,
    indexer_override: usize,
) -> (usize, usize, usize) {
    let allocation =
        RuntimeAllocation::calculate(cpu_count, &strategy, query_override, indexer_override);
    (allocation.query_threads, allocation.indexer_threads, allocation.main_threads)
}

#[test]
fn strategies_on_eleven_processors() {
    assert_eq!(threads(11, AllocationStrategy::Adaptive, 0, 0), (6, 4, 1));
    assert_eq!(threads(11, AllocationStrategy::QueryPriority, 0, 0), (7, 3, 1));
    assert_eq!(threads(11, AllocationStrategy::IndexerPriority, 0, 0), (3, 7, 1));
    assert_eq!(threads(11, AllocationStrategy::Balanced, 0, 0), (5, 5, 1));
}

#[test]
fn strategies_on_few_processors() {
    assert_eq!(threads(0, AllocationStrategy::Adaptive, 0, 0), (0, 0, 1));
    assert_eq!(threads(1, AllocationStrategy::Balanced, 0, 0), (0, 0, 1));
    assert_eq!(threads(2, AllocationStrategy::QueryPriority, 0, 0), (1, 1, 1));
    assert_eq!(threads(3, AllocationStrategy::IndexerPriority, 0, 0), (1, 1, 1));
}

#[test]
fn adaptive_on_four_processors_favours_indexing() {
    assert_eq!(threads(4, AllocationStrategy::Adaptive, 0, 0), (1, 2, 1));
    assert_eq!(threads(5, AllocationStrategy::Adaptive, 0, 0), (2, 2, 1));
}

#[test]
fn overrides_replace_shares_within_the_processors() {
    assert_eq!(threads(8, AllocationStrategy::Adaptive, 3, 0), (3, 3, 1));
    assert_eq!(threads(8, AllocationStrategy::Adaptive, 0, 5), (4, 5, 1));
    assert_eq!(threads(8, AllocationStrategy::Adaptive, 100, 9), (8, 8, 1));
    assert_eq!(threads(0, AllocationStrategy::Adaptive, 4, 4), (0, 0, 1));
}

#[test]
fn no_runtime_starves_from_two_processors_on() {
    let strategies = [
        AllocationStrategy::Adaptive,
        AllocationStrategy::QueryPriority,
        AllocationStrategy::IndexerPriority,
        AllocationStrategy::Balanced,
    ];
    for cpu_count in 2..64 {
        for strategy in strategies {
            let (query, indexer, main) = threads(cpu_count, strategy, 0, 0);
            assert!(query >= 1 && indexer >= 1 && main == 1);
            assert!(query <= cpu_count && indexer <= cpu_count);
            assert!(cpu_count < 3 || query + indexer + 1 <= cpu_count);
        }
    }
}

#[test]
fn priorities_mirror_each_other() {
    for cpu_count in 0..40 {
        let (query, indexer, _) = threads(cpu_count, AllocationStrategy::QueryPriority, 0, 0);
        assert_eq!(
            threads(cpu_count, AllocationStrategy::IndexerPriority, 0, 0),
            (indexer, query, 1)
        );
        assert!(query >= indexer);
    }
    assert_eq!(threads(11, AllocationStrategy::IndexerPriority, 2, 0), (2, 7, 1));
    assert_eq!(threads(11, AllocationStrategy::QueryPriority, 0, 2), (7, 2, 1));
    assert_eq!(threads(11, AllocationStrategy::IndexerPriority, 40, 5), (11, 5, 1));
    assert_eq!(threads(11, AllocationStrategy::QueryPriority, 5, 40), (5, 11, 1));
}

#[test]
fn more_processors_never_cost_threads() {
    let strategies = [
        AllocationStrategy::Adaptive,
        AllocationStrategy::QueryPriority,
        AllocationStrategy::IndexerPriority,
        AllocationStrategy::Balanced,
    ];
    for cpu_count in 0..64 {
        for strategy in strategies {
            let fewer = threads(cpu_count, strategy, 0, 9);
            let more = threads(cpu_count + 1, strategy, 0, 9);
            assert!(fewer.0 <= more.0 && fewer.1 <= more.1);
        }
    }
    assert_eq!(threads(12, AllocationStrategy::QueryPriority, 0, 0), (7, 4, 1));
}

#[test]
fn strategy_names() {
    assert_eq!(AllocationStrategy::from("adaptive"), AllocationStrategy::Adaptive);
    assert_eq!(AllocationStrategy::from("query_priority"), AllocationStrategy::QueryPriority);
    assert_eq!(AllocationStrategy::from("indexer_priority"), AllocationStrategy::IndexerPriority);
    assert_eq!(AllocationStrategy::from("balanced"), AllocationStrategy::Balanced);
    assert_eq!(AllocationStrategy::from("fastest"), AllocationStrategy::Adaptive);
    assert_eq!(AllocationStrategy::from(""), AllocationStrategy::Adaptive);
}

#[test]
fn strategy_names_in_any_case() {
    assert_eq!(AllocationStrategy::from("Query_Priority"), AllocationStrategy::QueryPriority);
    assert_eq!(AllocationStrategy::from("BALANCED"), AllocationStrategy::Balanced);
    assert_eq!(AllocationStrategy::from_lowercase("balanced"), AllocationStrategy::Balanced);
    assert_eq!(AllocationStrategy::from_lowercase("BALANCED"), AllocationStrategy::Adaptive);
}
