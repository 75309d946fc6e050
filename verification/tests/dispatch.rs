use torii::dispatch::{DispatchPhase, DispatchReply, EventDispatch, EventStatus};
use torii::events::{ContractType, Event, Felt, IndexingMode, ParallelizedEvent};

fn event(id: &str) -> ParallelizedEvent {
    ParallelizedEvent {
        indexing_mode: IndexingMode::Historical,
        contract_type: ContractType::OTHER(2),
        block_number: 11,
        block_timestamp: 12,
        event_id: id.to_string(),
        event: Event { from_address: Felt { bytes: [1; 32] }, keys: vec![], data: vec![] },
    }
}

/// Runs a batch: of each event, what each processor says, and what the catch-all processor does.
fn run(scripts: &[(Vec<(bool, bool)>, bool)]) -> Vec<(String, DispatchPhase, Option<EventStatus>)> {
    let events = (0..scripts.len()).map(|i| event(&format!("{}", i))).collect();
    let mut dispatch = EventDispatch::new(events);
    let mut steps = vec![];
    while let Some(context) = dispatch.context() {
        let script = &scripts[context.event_id.parse::<usize>().unwrap()];
        let phase = dispatch.phase();
        let reply = match phase {
            DispatchPhase::Select => DispatchReply::Processors(script.0.len()),
            DispatchPhase::Validate(k) => DispatchReply::Validated(script.0[k].0),
            DispatchPhase::Process(k) => DispatchReply::Processed(script.0[k].1),
            DispatchPhase::CatchAll => DispatchReply::CaughtAll(script.1),
            DispatchPhase::Finished => unreachable!(),
        };
        let status = dispatch.step(reply);
        steps.push((context.event_id, phase, status));
    }
    assert_eq!(dispatch.phase(), DispatchPhase::Finished);
    steps
}

#[test]
fn empty_batch_is_finished() {
    assert!(run(&[]).is_empty());
}

#[test]
fn event_without_processors_is_caught() {
    assert_eq!(
        run(&[(vec![], true)]),
        vec![
            ("0".to_string(), DispatchPhase::Select, None),
            ("0".to_string(), DispatchPhase::CatchAll, None),
        ]
    );
}

#[test]
fn failure_of_the_catch_all_processor_is_counted() {
    assert_eq!(
        run(&[(vec![(false, true)], false)]),
        vec![
            ("0".to_string(), DispatchPhase::Select, None),
            ("0".to_string(), DispatchPhase::Validate(0), None),
            ("0".to_string(), DispatchPhase::CatchAll, Some(EventStatus::Failed)),
        ]
    );
}

#[test]
fn every_processor_that_takes_an_event_processes_it() {
    assert_eq!(
        run(&[(vec![(true, true), (false, false), (true, false), (true, true)], true)]),
        vec![
            ("0".to_string(), DispatchPhase::Select, None),
            ("0".to_string(), DispatchPhase::Validate(0), None),
            ("0".to_string(), DispatchPhase::Process(0), Some(EventStatus::Success)),
            ("0".to_string(), DispatchPhase::Validate(1), None),
            ("0".to_string(), DispatchPhase::Validate(2), None),
            ("0".to_string(), DispatchPhase::Process(2), Some(EventStatus::Failed)),
            ("0".to_string(), DispatchPhase::Validate(3), None),
            ("0".to_string(), DispatchPhase::Process(3), Some(EventStatus::Success)),
        ]
    );
}

#[test]
fn failed_event_is_caught() {
    assert_eq!(
        run(&[(vec![(true, false)], true)]),
        vec![
            ("0".to_string(), DispatchPhase::Select, None),
            ("0".to_string(), DispatchPhase::Validate(0), None),
            ("0".to_string(), DispatchPhase::Process(0), Some(EventStatus::Failed)),
            ("0".to_string(), DispatchPhase::CatchAll, None),
        ]
    );
}

#[test]
fn events_are_handled_one_by_one() {
    assert_eq!(
        run(&[(vec![(true, true)], true), (vec![], true)]),
        vec![
            ("0".to_string(), DispatchPhase::Select, None),
            ("0".to_string(), DispatchPhase::Validate(0), None),
            ("0".to_string(), DispatchPhase::Process(0), Some(EventStatus::Success)),
            ("1".to_string(), DispatchPhase::Select, None),
            ("1".to_string(), DispatchPhase::CatchAll, None),
        ]
    );
}

#[test]
fn context_holds_what_the_event_holds() {
    let dispatch = EventDispatch::new(vec![event("x")]);
    let context = dispatch.context().unwrap();
    assert_eq!(context.block_number, 11);
    assert_eq!(context.block_timestamp, 12);
    assert_eq!(context.event_id, "x");
    assert_eq!(context.event.from_address, Felt { bytes: [1; 32] });
    assert_eq!(dispatch.current_event().unwrap().contract_type, ContractType::OTHER(2));
}
