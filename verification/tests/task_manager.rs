use torii::config::EventProcessorConfig;
use torii::events::{ContractType, Event, Felt, IndexingMode, ParallelizedEvent};
use torii::task_manager::TaskManager;

fn manager() -> TaskManager<&'static str> {
    TaskManager::new(
        "backend",
        100,
        EventProcessorConfig {
            strict_model_reader: false,
            namespaces: vec![],
            historical_models: vec![],
            max_metadata_tasks: 7,
            models: vec![],
            external_contracts: false,
            external_contract_whitelist: vec![],
        },
    )
}

fn event(id: &str, indexing_mode: IndexingMode) -> ParallelizedEvent {
    ParallelizedEvent {
        indexing_mode,
        contract_type: ContractType::WORLD,
        block_number: 1,
        block_timestamp: 2,
        event_id: id.to_string(),
        event: Event {
            from_address: Felt { bytes: [3; 32] },
            keys: vec![Felt { bytes: [4; 32] }],
            data: vec![],
        },
    }
}

fn ids(manager: &mut TaskManager<&'static str>) -> Vec<Vec<String>> {
    manager
        .process_ready_tasks()
        .iter()
        .map(|batch| batch.iter().map(|event| event.event_id.clone()).collect())
        .collect()
}

#[test]
fn new_manager_has_no_tasks() {
    let mut manager = manager();
    assert_eq!(manager.pending_tasks_count(), 0);
    assert_eq!(ids(&mut manager), Vec::<Vec<String>>::new());
    assert_eq!(manager.nft_metadata_semaphore().available_permits(), 7);
    assert_eq!(manager.event_processor_config().max_metadata_tasks, 7);
}

#[test]
fn processors_are_given_what_the_manager_holds() {
    let manager = manager();
    let dispatch = manager.process_events(vec![event("a", IndexingMode::Historical)]);
    let context = manager.event_context(&dispatch).unwrap();
    assert_eq!(*context.backend, "backend");
    assert_eq!((context.event.block_number, context.event.block_timestamp), (1, 2));
    assert_eq!(context.event.event_id, "a");
    assert_eq!(context.event.event.from_address, Felt { bytes: [3; 32] });
    assert_eq!(context.config.max_metadata_tasks, 7);
    let permit = context.nft_metadata_semaphore.try_acquire().unwrap();
    assert_eq!(manager.nft_metadata_semaphore().available_permits(), 6);
    drop(permit);
    assert_eq!(manager.nft_metadata_semaphore().available_permits(), 7);
    let finished = manager.process_events(vec![]);
    assert!(manager.event_context(&finished).is_none());
}

#[test]
fn historical_events_stay_in_order() {
    let mut manager = manager();
    manager.add_parallelized_event(1, event("a", IndexingMode::Historical));
    manager.add_parallelized_event(1, event("b", IndexingMode::Historical));
    manager.add_parallelized_event(1, event("a", IndexingMode::Historical));
    assert_eq!(manager.pending_tasks_count(), 1);
    assert_eq!(ids(&mut manager), vec![vec!["a", "b", "a"]]);
}

#[test]
fn later_event_replaces_earlier_under_its_key() {
    let mut manager = manager();
    manager.add_parallelized_event(1, event("first", IndexingMode::Latest(5)));
    manager.add_parallelized_event(1, event("other", IndexingMode::Latest(6)));
    manager.add_parallelized_event(1, event("second", IndexingMode::Latest(5)));
    assert_eq!(ids(&mut manager), vec![vec!["other", "second"]]);
}

#[test]
fn historical_events_come_before_latest_ones() {
    let mut manager = manager();
    manager.add_parallelized_event(1, event("latest", IndexingMode::Latest(5)));
    manager.add_parallelized_event(1, event("historical", IndexingMode::Historical));
    assert_eq!(ids(&mut manager), vec![vec!["historical", "latest"]]);
}

#[test]
fn task_that_gains_an_event_goes_to_the_back() {
    let mut manager = manager();
    manager.add_parallelized_event(1, event("a", IndexingMode::Historical));
    manager.add_parallelized_event(2, event("b", IndexingMode::Historical));
    manager.add_parallelized_event(1, event("c", IndexingMode::Historical));
    assert_eq!(manager.pending_tasks_count(), 2);
    assert_eq!(ids(&mut manager), vec![vec!["b"], vec!["a", "c"]]);
}

#[test]
fn batches_hold_what_was_added_since_the_tasks_were_emptied() {
    let mut manager = manager();
    manager.add_parallelized_event(9, event("gone", IndexingMode::Historical));
    manager.clear();
    manager.add_parallelized_event(1, event("a", IndexingMode::Latest(5)));
    manager.add_parallelized_event(2, event("b", IndexingMode::Historical));
    manager.add_parallelized_event(3, event("c", IndexingMode::Latest(5)));
    manager.add_parallelized_event(1, event("d", IndexingMode::Historical));
    manager.add_parallelized_event(2, event("e", IndexingMode::Latest(6)));
    manager.add_parallelized_event(1, event("f", IndexingMode::Latest(7)));
    manager.add_parallelized_event(1, event("g", IndexingMode::Latest(5)));
    manager.add_parallelized_event(1, event("h", IndexingMode::Historical));
    assert_eq!(manager.pending_tasks_count(), 3);
    assert_eq!(ids(&mut manager), vec![vec!["c"], vec!["b", "e"], vec!["d", "h", "f", "g"]]);
    assert_eq!(manager.pending_tasks_count(), 0);
    manager.add_parallelized_event(2, event("i", IndexingMode::Latest(6)));
    assert_eq!(ids(&mut manager), vec![vec!["i"]]);
}

#[test]
fn same_key_in_another_task_is_another_event() {
    let mut manager = manager();
    manager.add_parallelized_event(1, event("a", IndexingMode::Latest(5)));
    manager.add_parallelized_event(2, event("b", IndexingMode::Latest(5)));
    assert_eq!(ids(&mut manager), vec![vec!["a"], vec!["b"]]);
}

#[test]
fn dependencies_have_no_influence() {
    let mut manager = manager();
    manager.add_parallelized_event_with_dependencies(
        1,
        vec![2, 3],
        event("a", IndexingMode::Historical),
    );
    assert_eq!(manager.pending_tasks_count(), 1);
    assert_eq!(ids(&mut manager), vec![vec!["a"]]);
}

#[test]
fn processing_takes_the_tasks_out() {
    let mut manager = manager();
    manager.add_parallelized_event(1, event("a", IndexingMode::Historical));
    assert_eq!(ids(&mut manager).len(), 1);
    assert_eq!(manager.pending_tasks_count(), 0);
    assert!(ids(&mut manager).is_empty());
    manager.add_parallelized_event(1, event("b", IndexingMode::Latest(1)));
    assert_eq!(ids(&mut manager), vec![vec!["b"]]);
}

#[test]
fn clearing_forgets_the_tasks() {
    let mut manager = manager();
    manager.add_parallelized_event(1, event("a", IndexingMode::Historical));
    manager.add_parallelized_event(2, event("b", IndexingMode::Latest(1)));
    assert_eq!(manager.pending_tasks_count(), 2);
    manager.clear();
    assert_eq!(manager.pending_tasks_count(), 0);
    assert!(ids(&mut manager).is_empty());
}

#[test]
fn events_are_copied_whole() {
    let first = event("a", IndexingMode::Latest(9));
    let copy = first.clone();
    assert_eq!(copy.event_id, "a");
    assert_eq!(copy.indexing_mode, IndexingMode::Latest(9));
    assert_eq!(copy.event.keys, first.event.keys);
    assert_eq!(copy.event.from_address, first.event.from_address);
    assert_eq!((copy.block_number, copy.block_timestamp), (1, 2));
}
