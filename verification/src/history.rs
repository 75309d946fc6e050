//! What waits after any number of events were added, tasks handed out and tasks forgotten.

use crate::config::EventProcessorConfig;
use crate::events::{IndexingMode, ParallelizedEvent, TaskId};
use crate::linked::{
    has_key, is_last_at, last_entries, last_place, lemma_last_entries_keys,
    lemma_last_entries_places, lemma_last_entries_push, lemma_lookup_entry,
    lemma_put_back_same_keys, same_keys, values,
};
use crate::places::{
    entry_at, last_of_its_key, law_places, lemma_last_entries_at_places, lemma_places_agree, places,
};
use crate::task_manager::{
    added, law_adding_keeps_tasks_well_formed, law_every_task_is_processed,
    law_other_tasks_untouched, law_task_gains_event, ready_batches, task_batches, task_of,
    tasks_wf, TaskManager, TaskView,
};
use vstd::prelude::*;

verus! {

/// What can happen to the waiting tasks.
pub enum TaskStep {
    /// An event was added to a task.
    Added(TaskId, ParallelizedEvent),
    /// The tasks were handed out to be processed, or forgotten.
    Emptied,
}

/// The tasks that wait after what happened to a new manager: each step does what the manager's
/// function for it does.
pub open spec fn tasks_after(history: Seq<TaskStep>) -> Seq<(TaskId, TaskView)>
    decreases history.len(),
{
    if history.len() == 0 {
        Seq::empty()
    } else {
        match history.last() {
            TaskStep::Added(id, event) => added(tasks_after(history.drop_last()), id, event),
            TaskStep::Emptied => Seq::empty(),
        }
    }
}

/// The events that were added since the tasks were last handed out or forgotten, oldest first.
pub open spec fn additions(history: Seq<TaskStep>) -> Seq<(TaskId, ParallelizedEvent)>
    decreases history.len(),
{
    if history.len() == 0 {
        Seq::empty()
    } else {
        match history.last() {
            TaskStep::Added(id, event) => additions(history.drop_last()).push((id, event)),
            TaskStep::Emptied => Seq::empty(),
        }
    }
}

/// The tasks that events were added to.
pub open spec fn added_ids(additions: Seq<(TaskId, ParallelizedEvent)>) -> Seq<TaskId> {
    additions.map_values(|addition: (TaskId, ParallelizedEvent)| addition.0)
}

/// Picks what was added to a task.
pub open spec fn to_task(id: TaskId) -> spec_fn((TaskId, ParallelizedEvent)) -> bool {
    |addition: (TaskId, ParallelizedEvent)| addition.0 == id
}

/// The events that were added to a task, oldest first.
pub open spec fn events_of(additions: Seq<(TaskId, ParallelizedEvent)>, id: TaskId) -> Seq<
    ParallelizedEvent,
> {
    values(additions.filter(to_task(id)))
}

/// Picks the events of which each one counts.
pub open spec fn each_counts() -> spec_fn(ParallelizedEvent) -> bool {
    |event: ParallelizedEvent| event.indexing_mode is Historical
}

/// Picks the events of which only the latest under each key counts.
pub open spec fn latest_counts() -> spec_fn(ParallelizedEvent) -> bool {
    |event: ParallelizedEvent| event.indexing_mode is Latest
}

/// Events of which only the latest under each key counts, with their keys.
pub open spec fn with_keys(events: Seq<ParallelizedEvent>) -> Seq<(u64, ParallelizedEvent)> {
    events.map_values(
        |event: ParallelizedEvent| (event.indexing_mode->Latest_0, event),
    )
}

/// What a task holds after those events were added to it: every event that counts for itself, and
/// the last event under each key.
pub open spec fn task_from(events: Seq<ParallelizedEvent>) -> TaskView {
    TaskView {
        events: events.filter(each_counts()),
        latest: last_entries(with_keys(events.filter(latest_counts()))),
    }
}

/// The batch of the task of an addition.
pub open spec fn batch_of(additions: Seq<(TaskId, ParallelizedEvent)>) -> spec_fn(
    (TaskId, ParallelizedEvent),
) -> Seq<ParallelizedEvent> {
    |addition: (TaskId, ParallelizedEvent)|
        task_from(events_of(additions, addition.0)).batch()
}

proof fn lemma_task_from_push(events: Seq<ParallelizedEvent>, event: ParallelizedEvent)
    ensures
        task_from(events.push(event)) == task_from(events).with(event),
{
    let longer = events.push(event);
    let keyed = with_keys(events.filter(latest_counts()));
    reveal(Seq::filter);
    assert(longer.drop_last() =~= events);
    match event.indexing_mode {
        IndexingMode::Latest(key) => {
            assert(with_keys(longer.filter(latest_counts())) =~= keyed.push((key, event)));
            lemma_last_entries_push(keyed, (key, event));
        },
        IndexingMode::Historical => {},
    }
    assert(task_from(longer) =~= task_from(events).with(event));
}

proof fn lemma_events_of_push(
    additions: Seq<(TaskId, ParallelizedEvent)>,
    addition: (TaskId, ParallelizedEvent),
    id: TaskId,
)
    ensures
        addition.0 == id ==> events_of(additions.push(addition), id) == events_of(
            additions,
            id,
        ).push(addition.1),
        addition.0 != id ==> events_of(additions.push(addition), id) == events_of(additions, id),
{
    reveal(Seq::filter);
    assert(additions.push(addition).drop_last() =~= additions);
    if addition.0 == id {
        assert(events_of(additions.push(addition), id) =~= events_of(additions, id).push(
            addition.1,
        ));
    }
}

proof fn lemma_nothing_added(id: TaskId)
    ensures
        task_of(Seq::empty(), id) == task_from(events_of(Seq::empty(), id)),
{
    reveal(Seq::filter);
    assert(events_of(Seq::empty(), id) =~= Seq::empty());
    assert(task_from(Seq::empty()) =~= TaskView::empty());
}

/// After any history, what holds of the waiting tasks holds, each task stands where it was last
/// added to, and it holds what its additions make of it.
pub proof fn law_tasks_follow_their_additions(history: Seq<TaskStep>)
    ensures
        tasks_wf(tasks_after(history)),
        same_keys(tasks_after(history), last_entries(additions(history))),
        forall|id: TaskId| #[trigger]
            task_of(tasks_after(history), id) == task_from(events_of(additions(history), id)),
    decreases history.len(),
{
    if history.len() > 0 && history.last() is Added {
        let front = history.drop_last();
        let id = history.last()->Added_0;
        let event = history.last()->Added_1;
        let before = tasks_after(front);
        let earlier = additions(front);
        law_tasks_follow_their_additions(front);
        law_adding_keeps_tasks_well_formed(before, id, event);
        lemma_last_entries_push(earlier, (id, event));
        lemma_put_back_same_keys(
            before,
            last_entries(earlier),
            id,
            task_of(before, id).with(event),
            event,
        );
        assert forall|other: TaskId| #[trigger]
            task_of(tasks_after(history), other) == task_from(
                events_of(additions(history), other),
            ) by {
            lemma_events_of_push(earlier, (id, event), other);
            assert(task_of(before, other) == task_from(events_of(earlier, other)));
            if other == id {
                law_task_gains_event(before, id, event);
                lemma_task_from_push(events_of(earlier, id), event);
            } else {
                law_other_tasks_untouched(before, id, event, other);
            }
        }
    } else {
        assert forall|id: TaskId| #[trigger]
            task_of(tasks_after(history), id) == task_from(events_of(additions(history), id)) by {
            lemma_nothing_added(id);
        }
    }
}

/// As many tasks wait as there are different tasks that events were added to since the tasks were
/// last handed out or forgotten.
pub proof fn law_count_is_the_number_of_tasks(history: Seq<TaskStep>)
    ensures
        tasks_after(history).len() == added_ids(additions(history)).to_set().len(),
{
    let added = additions(history);
    let last = last_entries(added);
    law_tasks_follow_their_additions(history);
    lemma_last_entries_keys(added);
    let ids = added_ids(last);
    assert forall|i: int, j: int| 0 <= i < ids.len() && 0 <= j < ids.len() && i != j implies ids[i]
        != ids[j] by {
        if i < j {
            assert(last[i].0 != last[j].0);
        } else {
            assert(last[j].0 != last[i].0);
        }
    }
    ids.unique_seq_to_set();
    assert forall|id: TaskId| ids.contains(id) <==> added_ids(added).contains(id) by {
        lemma_contains_key(last, id);
        lemma_contains_key(added, id);
    }
    assert(ids.to_set() =~= added_ids(added).to_set());
}

proof fn lemma_contains_key(additions: Seq<(TaskId, ParallelizedEvent)>, id: TaskId)
    ensures
        added_ids(additions).contains(id) <==> has_key(additions, id),
{
    if has_key(additions, id) {
        let i = choose|i: int| 0 <= i < additions.len() && (#[trigger] additions[i]).0 == id;
        assert(added_ids(additions)[i] == id);
    }
    if added_ids(additions).contains(id) {
        let i = choose|i: int| 0 <= i < additions.len() && added_ids(additions)[i] == id;
        assert(additions[i].0 == id);
    }
}

/// The tasks come out in the order in which they were last added to.
pub proof fn law_tasks_come_in_the_order_of_their_last_addition(history: Seq<TaskStep>)
    ensures
        forall|i: int|
            0 <= i < tasks_after(history).len() ==> is_last_at(
                additions(history),
                (#[trigger] tasks_after(history)[i]).0,
                last_place(additions(history), tasks_after(history)[i].0),
            ),
        forall|i: int, j: int|
            0 <= i < j < tasks_after(history).len() ==> last_place(
                additions(history),
                (#[trigger] tasks_after(history)[i]).0,
            ) < last_place(additions(history), (#[trigger] tasks_after(history)[j]).0),
{
    let tasks = tasks_after(history);
    let last = last_entries(additions(history));
    law_tasks_follow_their_additions(history);
    lemma_last_entries_places(additions(history));
    assert forall|i: int| 0 <= i < tasks.len() implies is_last_at(
        additions(history),
        (#[trigger] tasks[i]).0,
        last_place(additions(history), tasks[i].0),
    ) by {
        assert(tasks[i].0 == last[i].0);
    }
    assert forall|i: int, j: int| 0 <= i < j < tasks.len() implies last_place(
        additions(history),
        (#[trigger] tasks[i]).0,
    ) < last_place(additions(history), (#[trigger] tasks[j]).0) by {
        assert(tasks[i].0 == last[i].0 && tasks[j].0 == last[j].0);
    }
}

/// The batches to process are those of the tasks that events were added to since the tasks were
/// last handed out or forgotten, in the order of their last additions. Each batch holds every
/// event of its task that counts for itself, and then the last event under each key.
pub proof fn law_batches_hold_what_was_added(history: Seq<TaskStep>)
    ensures
        ready_batches(tasks_after(history)) == last_entries(additions(history)).map_values(
            batch_of(additions(history)),
        ),
{
    let tasks = tasks_after(history);
    let added = additions(history);
    let last = last_entries(added);
    law_tasks_follow_their_additions(history);
    law_every_task_is_processed(tasks);
    assert forall|i: int| 0 <= i < tasks.len() implies #[trigger] task_batches(tasks)[i] == batch_of(
        added,
    )(last[i]) by {
        lemma_lookup_entry(tasks, i);
        assert(tasks[i].0 == last[i].0);
        assert(task_of(tasks, tasks[i].0) == task_from(events_of(added, tasks[i].0)));
    }
    assert(task_batches(tasks) =~= last.map_values(batch_of(added)));
}

/// Holds where an event that counts for itself was added to a task.
pub open spec fn historical_at(
    additions: Seq<(TaskId, ParallelizedEvent)>,
    id: TaskId,
) -> spec_fn(int) -> bool {
    |i: int| additions[i].0 == id && additions[i].1.indexing_mode == IndexingMode::Historical
}

/// Holds where an event was added to a task under a key, and none was added to it under that key
/// later.
pub open spec fn latest_at(
    additions: Seq<(TaskId, ParallelizedEvent)>,
    id: TaskId,
) -> spec_fn(int) -> bool {
    |i: int|
        additions[i].0 == id && additions[i].1.indexing_mode != IndexingMode::Historical && forall|
            j: int,
        |
            i < j < additions.len() ==> !((#[trigger] additions[j]).0 == id
                && additions[j].1.indexing_mode == additions[i].1.indexing_mode)
}

/// Holds where a task was added to for the last time.
pub open spec fn last_of_task(additions: Seq<(TaskId, ParallelizedEvent)>) -> spec_fn(int) -> bool {
    |i: int|
        forall|j: int| i < j < additions.len() ==> (#[trigger] additions[j]).0 != additions[i].0
}

/// Whether a batch holds, one behind the other, the events of a task that count for themselves and
/// then the last event under each of its keys, in the order in which they were added.
pub open spec fn is_batch_of(
    batch: Seq<ParallelizedEvent>,
    additions: Seq<(TaskId, ParallelizedEvent)>,
    id: TaskId,
) -> bool {
    let historical = places(additions.len(), historical_at(additions, id));
    let latest = places(additions.len(), latest_at(additions, id));
    &&& batch.len() == historical.len() + latest.len()
    &&& forall|k: int|
        0 <= k < historical.len() ==> #[trigger] batch[k] == additions[historical[k]].1
    &&& forall|k: int|
        historical.len() <= k < batch.len() ==> #[trigger] batch[k] == additions[latest[k
            - historical.len()]].1
}

/// Whether batches are those of the tasks that were added to, in the order in which this last
/// happened.
pub open spec fn hands_out(
    batches: Seq<Seq<ParallelizedEvent>>,
    additions: Seq<(TaskId, ParallelizedEvent)>,
) -> bool {
    let last = places(additions.len(), last_of_task(additions));
    &&& batches.len() == last.len()
    &&& forall|t: int|
        0 <= t < batches.len() ==> is_batch_of(
            #[trigger] batches[t],
            additions,
            additions[last[t]].0,
        )
}

spec fn event_at(additions: Seq<(TaskId, ParallelizedEvent)>) -> spec_fn(
    int,
) -> ParallelizedEvent {
    |i: int| additions[i].1
}

spec fn task_at(additions: Seq<(TaskId, ParallelizedEvent)>) -> spec_fn(int) -> u64 {
    |i: int| additions[i].0
}

spec fn key_at(additions: Seq<(TaskId, ParallelizedEvent)>) -> spec_fn(int) -> u64 {
    |i: int| additions[i].1.indexing_mode->Latest_0
}

spec fn keyed_at(additions: Seq<(TaskId, ParallelizedEvent)>, id: TaskId) -> spec_fn(int) -> bool {
    |i: int| additions[i].0 == id && additions[i].1.indexing_mode is Latest
}

spec fn anywhere() -> spec_fn(int) -> bool {
    |i: int| true
}

proof fn lemma_historical_places(additions: Seq<(TaskId, ParallelizedEvent)>, id: TaskId)
    ensures
        events_of(additions, id).filter(each_counts()) == places(
            additions.len(),
            historical_at(additions, id),
        ).map_values(event_at(additions)),
    decreases additions.len(),
{
    reveal(Seq::filter);
    let all = places(additions.len(), historical_at(additions, id));
    if additions.len() == 0 {
        assert(events_of(additions, id) =~= Seq::empty());
        assert(all.map_values(event_at(additions)) =~= Seq::empty());
    } else {
        let front = additions.drop_last();
        let last = additions.last();
        let before = places(front.len(), historical_at(front, id));
        let events = events_of(front, id);
        lemma_historical_places(front, id);
        assert(front.push(last) =~= additions);
        lemma_events_of_push(front, last, id);
        assert(events.push(last.1).drop_last() =~= events);
        lemma_places_agree(front.len(), historical_at(front, id), historical_at(additions, id));
        law_places(front.len(), historical_at(front, id));
        assert(before.map_values(event_at(additions)) =~= before.map_values(event_at(front)));
        assert(before.push(front.len() as int).map_values(event_at(additions))
            =~= before.map_values(event_at(front)).push(last.1));
    }
}

proof fn lemma_keyed_places(additions: Seq<(TaskId, ParallelizedEvent)>, id: TaskId)
    ensures
        with_keys(events_of(additions, id).filter(latest_counts())) == places(
            additions.len(),
            keyed_at(additions, id),
        ).map_values(entry_at(key_at(additions), event_at(additions))),
    decreases additions.len(),
{
    reveal(Seq::filter);
    let entry = entry_at(key_at(additions), event_at(additions));
    let all = places(additions.len(), keyed_at(additions, id));
    if additions.len() == 0 {
        assert(events_of(additions, id) =~= Seq::empty());
        assert(with_keys(Seq::empty()) =~= Seq::empty());
        assert(all.map_values(entry) =~= Seq::empty());
    } else {
        let front = additions.drop_last();
        let last = additions.last();
        let earlier = entry_at(key_at(front), event_at(front));
        let before = places(front.len(), keyed_at(front, id));
        let events = events_of(front, id);
        let kept = events.filter(latest_counts());
        lemma_keyed_places(front, id);
        assert(front.push(last) =~= additions);
        lemma_events_of_push(front, last, id);
        assert(events.push(last.1).drop_last() =~= events);
        lemma_places_agree(front.len(), keyed_at(front, id), keyed_at(additions, id));
        law_places(front.len(), keyed_at(front, id));
        assert(before.map_values(entry) =~= before.map_values(earlier));
        let pair = (last.1.indexing_mode->Latest_0, last.1);
        assert(with_keys(kept.push(last.1)) =~= with_keys(kept).push(pair));
        assert(before.push(front.len() as int).map_values(entry) =~= before.map_values(
            earlier,
        ).push(pair));
    }
}

proof fn lemma_all_places(count: nat)
    ensures
        places(count, anywhere()) == Seq::new(count, |i: int| i),
    decreases count,
{
    if count > 0 {
        lemma_all_places((count - 1) as nat);
    }
    assert(places(count, anywhere()) =~= Seq::new(count, |i: int| i));
}

proof fn lemma_last_places(additions: Seq<(TaskId, ParallelizedEvent)>)
    ensures
        last_entries(additions) == places(additions.len(), last_of_task(additions)).map_values(
            |i: int| additions[i],
        ),
{
    let count = additions.len();
    let entry = entry_at(task_at(additions), event_at(additions));
    let is_last = last_of_its_key(count, anywhere(), task_at(additions));
    lemma_all_places(count);
    assert(places(count, anywhere()).map_values(entry) =~= additions);
    lemma_last_entries_at_places(count, anywhere(), task_at(additions), event_at(additions));
    assert forall|i: int| 0 <= i < count implies #[trigger] is_last(i) == last_of_task(additions)(
        i,
    ) by {
        if is_last(i) {
            assert forall|j: int| i < j < count implies (#[trigger] additions[j]).0
                != additions[i].0 by {
                assert(!(anywhere()(j) && task_at(additions)(j) == task_at(additions)(i)));
            }
        }
    }
    lemma_places_agree(count, is_last, last_of_task(additions));
    assert(places(count, is_last).map_values(entry) =~= places(count, is_last).map_values(
        |i: int| additions[i],
    ));
}

proof fn lemma_task_from_is_batch(additions: Seq<(TaskId, ParallelizedEvent)>, id: TaskId)
    ensures
        is_batch_of(task_from(events_of(additions, id)).batch(), additions, id),
{
    let count = additions.len();
    let key = key_at(additions);
    let event = event_at(additions);
    let is_last = last_of_its_key(count, keyed_at(additions, id), key);
    let latest = latest_at(additions, id);
    lemma_historical_places(additions, id);
    lemma_keyed_places(additions, id);
    lemma_last_entries_at_places(count, keyed_at(additions, id), key, event);
    assert forall|i: int| 0 <= i < count implies #[trigger] is_last(i) == latest(i) by {
        if is_last(i) {
            assert forall|j: int| i < j < count implies !((#[trigger] additions[j]).0 == id
                && additions[j].1.indexing_mode == additions[i].1.indexing_mode) by {
                assert(!(keyed_at(additions, id)(j) && key(j) == key(i)));
            }
        }
        if latest(i) {
            assert forall|j: int| i < j < count implies !(#[trigger] keyed_at(additions, id)(j)
                && key(j) == key(i)) by {
                assert(!(additions[j].0 == id && additions[j].1.indexing_mode
                    == additions[i].1.indexing_mode));
            }
        }
    }
    lemma_places_agree(count, is_last, latest);
}

/// What comes out after any history is, task by task in the order of their last additions, every
/// event that counts for itself and then the last event under each key: none is lost, none comes
/// twice, and none comes from elsewhere.
pub proof fn law_what_was_added_comes_out(history: Seq<TaskStep>)
    ensures
        hands_out(ready_batches(tasks_after(history)), additions(history)),
{
    let added = additions(history);
    let last = places(added.len(), last_of_task(added));
    let batches = ready_batches(tasks_after(history));
    law_batches_hold_what_was_added(history);
    lemma_last_places(added);
    assert forall|t: int| 0 <= t < batches.len() implies is_batch_of(
        #[trigger] batches[t],
        added,
        added[last[t]].0,
    ) by {
        assert(last_entries(added)[t] == added[last[t]]);
        lemma_task_from_is_batch(added, added[last[t]].0);
    }
}

/// Each batch comes from the additions of one task. There are the places of the additions at which
/// the tasks were added to for the last time, in rising order, and the places that the events of
/// each batch come from: first the places of the events that count for themselves, then those of
/// events after which none came under the same key, both in rising order, and none is left out.
pub proof fn law_where_batches_come_from(history: Seq<TaskStep>) -> (origin: (
    Seq<int>,
    Seq<Seq<int>>,
))
    ensures
        ({
            let (last, from) = origin;
            let added = additions(history);
            let batches = ready_batches(tasks_after(history));
            &&& last.len() == batches.len()
            &&& from.len() == batches.len()
            &&& forall|t: int| 0 <= t < last.len() ==> 0 <= #[trigger] last[t] < added.len()
            &&& forall|t: int, j: int|
                0 <= t < last.len() && last[t] < j < added.len() ==> (#[trigger] added[j]).0
                    != added[#[trigger] last[t]].0
            &&& forall|t: int, u: int|
                0 <= t < u < last.len() ==> #[trigger] last[t] < #[trigger] last[u]
            &&& forall|i: int|
                0 <= i < added.len() ==> exists|t: int|
                    0 <= t < last.len() && added[#[trigger] last[t]].0 == (#[trigger] added[i]).0
            &&& forall|t: int|
                0 <= t < from.len() ==> (#[trigger] from[t]).len() == batches[t].len()
            &&& forall|t: int, k: int|
                0 <= t < from.len() && 0 <= k < from[t].len() ==> {
                    let i = #[trigger] from[t][k];
                    &&& 0 <= i < added.len()
                    &&& added[i].0 == added[last[t]].0
                    &&& batches[t][k] == added[i].1
                    &&& added[i].1.indexing_mode is Historical || forall|j: int|
                        i < j < added.len() ==> (#[trigger] added[j]).0 != added[i].0
                            || added[j].1.indexing_mode != added[i].1.indexing_mode
                }
            &&& forall|t: int, k: int, l: int|
                0 <= t < from.len() && 0 <= k < l < from[t].len() ==> {
                    let i = #[trigger] from[t][k];
                    let j = #[trigger] from[t][l];
                    &&& added[j].1.indexing_mode is Historical
                        ==> added[i].1.indexing_mode is Historical
                    &&& added[i].1.indexing_mode is Historical
                        == added[j].1.indexing_mode is Historical ==> i < j
                }
            &&& forall|t: int, i: int|
                0 <= t < from.len() && 0 <= i < added.len() && added[i].0 == added[last[t]].0 && (
                added[i].1.indexing_mode is Historical || forall|j: int|
                    i < j < added.len() ==> (#[trigger] added[j]).0 != added[i].0
                        || added[j].1.indexing_mode != added[i].1.indexing_mode)
                    ==> #[trigger] from[t].contains(i)
        }),
{
    let added = additions(history);
    let count = added.len();
    let batches = ready_batches(tasks_after(history));
    let last = places(count, last_of_task(added));
    let from = Seq::new(batches.len(), |t: int| places_of(added, added[last[t]].0));
    law_what_was_added_comes_out(history);
    law_places(count, last_of_task(added));
    assert forall|t: int, j: int| 0 <= t < last.len() && last[t] < j < added.len() implies (
    #[trigger] added[j]).0 != added[#[trigger] last[t]].0 by {
        assert(last_of_task(added)(last[t]));
    }
    assert forall|i: int| 0 <= i < added.len() implies exists|t: int|
        0 <= t < last.len() && added[#[trigger] last[t]].0 == (#[trigger] added[i]).0 by {
        let place = last_addition(added, added[i].0, i);
        assert(last_of_task(added)(place));
        let t = choose|t: int| 0 <= t < last.len() && last[t] == place;
        assert(added[last[t]].0 == added[i].0);
    }
    assert forall|t: int| 0 <= t < from.len() implies (#[trigger] from[t]).len()
        == batches[t].len() by {
        assert(is_batch_of(batches[t], added, added[last[t]].0));
    }
    assert forall|t: int, k: int| 0 <= t < from.len() && 0 <= k < from[t].len() implies {
        let i = #[trigger] from[t][k];
        &&& 0 <= i < added.len()
        &&& added[i].0 == added[last[t]].0
        &&& batches[t][k] == added[i].1
        &&& added[i].1.indexing_mode is Historical || forall|j: int|
            i < j < added.len() ==> (#[trigger] added[j]).0 != added[i].0
                || added[j].1.indexing_mode != added[i].1.indexing_mode
    } by {
        let id = added[last[t]].0;
        assert(is_batch_of(batches[t], added, id));
        lemma_places_of(added, id);
        let historical = places(count, historical_at(added, id));
        if k >= historical.len() {
            assert(batches[t][k] == added[places(count, latest_at(added, id))[k
                - historical.len()]].1);
        }
    }
    assert forall|t: int, k: int, l: int|
        0 <= t < from.len() && 0 <= k < l < from[t].len() implies {
        let i = #[trigger] from[t][k];
        let j = #[trigger] from[t][l];
        &&& added[j].1.indexing_mode is Historical ==> added[i].1.indexing_mode is Historical
        &&& added[i].1.indexing_mode is Historical == added[j].1.indexing_mode is Historical ==> i
            < j
    } by {
        lemma_places_of(added, added[last[t]].0);
    }
    assert forall|t: int, i: int|
        0 <= t < from.len() && 0 <= i < added.len() && added[i].0 == added[last[t]].0 && (
        added[i].1.indexing_mode is Historical || forall|j: int|
            i < j < added.len() ==> (#[trigger] added[j]).0 != added[i].0
                || added[j].1.indexing_mode != added[i].1.indexing_mode) implies #[trigger] from[t].contains(i) by {
        let id = added[last[t]].0;
        let historical = places(count, historical_at(added, id));
        let latest = places(count, latest_at(added, id));
        law_places(count, historical_at(added, id));
        law_places(count, latest_at(added, id));
        if added[i].1.indexing_mode is Historical {
            assert(historical_at(added, id)(i));
            let k = choose|k: int| 0 <= k < historical.len() && historical[k] == i;
            assert(from[t][k] == i);
        } else {
            assert(latest_at(added, id)(i));
            let k = choose|k: int| 0 <= k < latest.len() && latest[k] == i;
            assert(from[t][historical.len() + k] == i);
        }
    }
    (last, from)
}

spec fn places_of(additions: Seq<(TaskId, ParallelizedEvent)>, id: TaskId) -> Seq<int> {
    places(additions.len(), historical_at(additions, id)) + places(
        additions.len(),
        latest_at(additions, id),
    )
}

proof fn lemma_places_of(additions: Seq<(TaskId, ParallelizedEvent)>, id: TaskId)
    ensures
        ({
            let historical = places(additions.len(), historical_at(additions, id)).len();
            let from = places_of(additions, id);
            &&& forall|k: int|
                0 <= k < historical ==> 0 <= #[trigger] from[k] < additions.len()
                    && historical_at(additions, id)(from[k])
            &&& forall|k: int|
                historical <= k < from.len() ==> 0 <= #[trigger] from[k] < additions.len()
                    && latest_at(additions, id)(from[k])
            &&& forall|k: int, l: int|
                0 <= k < l < from.len() && (l < historical || historical <= k)
                    ==> #[trigger] from[k] < #[trigger] from[l]
        }),
{
    law_places(additions.len(), historical_at(additions, id));
    law_places(additions.len(), latest_at(additions, id));
}

/// The additions of a history are those since the tasks were last handed out or forgotten: an event
/// that is added is the last of them, and there is none at the beginning.
pub proof fn law_additions_grow(history: Seq<TaskStep>, id: TaskId, event: ParallelizedEvent)
    ensures
        additions(Seq::empty()).len() == 0,
        additions(history.push(TaskStep::Emptied)).len() == 0,
        additions(history.push(TaskStep::Added(id, event))) == additions(history).push((id, event)),
{
    assert(history.push(TaskStep::Added(id, event)).drop_last() =~= history);
}

/// Every event that counts for itself, and every last event under a key of its task, is in the
/// batch of its task.
pub proof fn law_no_event_is_lost(
    batches: Seq<Seq<ParallelizedEvent>>,
    additions: Seq<(TaskId, ParallelizedEvent)>,
    i: int,
)
    requires
        hands_out(batches, additions),
        0 <= i < additions.len(),
        additions[i].1.indexing_mode == IndexingMode::Historical || forall|j: int|
            i < j < additions.len() ==> !((#[trigger] additions[j]).0 == additions[i].0
                && additions[j].1.indexing_mode == additions[i].1.indexing_mode),
    ensures
        exists|t: int|
            0 <= t < batches.len() && (#[trigger] batches[t]).contains(additions[i].1)
                && is_batch_of(batches[t], additions, additions[i].0),
{
    let id = additions[i].0;
    let count = additions.len();
    let last = places(count, last_of_task(additions));
    let historical = places(count, historical_at(additions, id));
    let latest = places(count, latest_at(additions, id));
    law_places(count, last_of_task(additions));
    law_places(count, historical_at(additions, id));
    law_places(count, latest_at(additions, id));
    let place = last_addition(additions, id, i);
    assert(last_of_task(additions)(place));
    let t = choose|t: int| 0 <= t < last.len() && last[t] == place;
    let batch = batches[t];
    assert(is_batch_of(batch, additions, id));
    if additions[i].1.indexing_mode == IndexingMode::Historical {
        assert(historical_at(additions, id)(i));
        let k = choose|k: int| 0 <= k < historical.len() && historical[k] == i;
        assert(batch[k] == additions[i].1);
    } else {
        assert(latest_at(additions, id)(i));
        let k = choose|k: int| 0 <= k < latest.len() && latest[k] == i;
        assert(batch[historical.len() + k] == additions[i].1);
    }
}

proof fn last_addition(
    additions: Seq<(TaskId, ParallelizedEvent)>,
    id: TaskId,
    i: int,
) -> (place: int)
    requires
        0 <= i < additions.len(),
        additions[i].0 == id,
    ensures
        i <= place < additions.len(),
        additions[place].0 == id,
        forall|j: int| place < j < additions.len() ==> (#[trigger] additions[j]).0 != id,
    decreases additions.len() - i,
{
    if exists|j: int| i < j < additions.len() && (#[trigger] additions[j]).0 == id {
        let j = choose|j: int| i < j < additions.len() && (#[trigger] additions[j]).0 == id;
        last_addition(additions, id, j)
    } else {
        i
    }
}

/// The keys under which events were added to a task.
pub open spec fn keys_of(additions: Seq<(TaskId, ParallelizedEvent)>, id: TaskId) -> Set<u64> {
    Set::new(
        |key: u64|
            exists|i: int|
                0 <= i < additions.len() && (#[trigger] additions[i]).0 == id
                    && additions[i].1.indexing_mode == IndexingMode::Latest(key),
    )
}

/// A batch has as many events as the task's additions that count for themselves and its different
/// keys together.
pub proof fn law_length_of_a_batch(
    batch: Seq<ParallelizedEvent>,
    additions: Seq<(TaskId, ParallelizedEvent)>,
    id: TaskId,
)
    requires
        is_batch_of(batch, additions, id),
    ensures
        batch.len() == places(additions.len(), historical_at(additions, id)).len() + keys_of(
            additions,
            id,
        ).len(),
{
    let latest = places(additions.len(), latest_at(additions, id));
    let keys = latest.map_values(key_at(additions));
    law_places(additions.len(), latest_at(additions, id));
    assert forall|k: int, l: int| 0 <= k < keys.len() && 0 <= l < keys.len() && k != l implies keys[k]
        != keys[l] by {
        let (a, b) = if k < l {
            (k, l)
        } else {
            (l, k)
        };
        assert(latest[a] < latest[b]);
        assert(latest_at(additions, id)(latest[a]) && latest_at(additions, id)(latest[b]));
        assert(additions[latest[b]].0 == id);
    }
    keys.unique_seq_to_set();
    assert forall|key: u64| keys.contains(key) <==> keys_of(additions, id).contains(key) by {
        if keys.contains(key) {
            let k = choose|k: int| 0 <= k < keys.len() && keys[k] == key;
            assert(latest_at(additions, id)(latest[k]));
            assert(additions[latest[k]].1.indexing_mode == IndexingMode::Latest(key));
        }
        if keys_of(additions, id).contains(key) {
            let i = choose|i: int|
                0 <= i < additions.len() && (#[trigger] additions[i]).0 == id
                    && additions[i].1.indexing_mode == IndexingMode::Latest(key);
            let place = last_under_key(additions, id, key, i);
            assert(latest_at(additions, id)(place));
            let k = choose|k: int| 0 <= k < latest.len() && latest[k] == place;
            assert(keys[k] == key);
        }
    }
    assert(keys.to_set() =~= keys_of(additions, id));
}

proof fn last_under_key(
    additions: Seq<(TaskId, ParallelizedEvent)>,
    id: TaskId,
    key: u64,
    i: int,
) -> (place: int)
    requires
        0 <= i < additions.len(),
        additions[i].0 == id,
        additions[i].1.indexing_mode == IndexingMode::Latest(key),
    ensures
        i <= place < additions.len(),
        additions[place].0 == id,
        additions[place].1.indexing_mode == IndexingMode::Latest(key),
        forall|j: int|
            place < j < additions.len() ==> !((#[trigger] additions[j]).0 == id
                && additions[j].1.indexing_mode == IndexingMode::Latest(key)),
    decreases additions.len() - i,
{
    if exists|j: int|
        i < j < additions.len() && (#[trigger] additions[j]).0 == id
            && additions[j].1.indexing_mode == IndexingMode::Latest(key) {
        let j = choose|j: int|
            i < j < additions.len() && (#[trigger] additions[j]).0 == id
                && additions[j].1.indexing_mode == IndexingMode::Latest(key);
        last_under_key(additions, id, key, j)
    } else {
        i
    }
}

/// A new manager has no history, and every call of a manager's function is a step of its history.
pub proof fn law_manager_keeps_its_history<B>(history: Seq<TaskStep>)
    ensures
        forall|backend: B, tasks: usize, config: EventProcessorConfig, manager: TaskManager<B>|
            #[trigger]
            call_ensures(TaskManager::<B>::new, (backend, tasks, config), manager) ==> manager@
                == tasks_after(Seq::empty()),
        forall|manager: &mut TaskManager<B>, id: TaskId, event: ParallelizedEvent| #[trigger]
            call_ensures(TaskManager::<B>::add_parallelized_event, (manager, id, event), ())
                && manager@ == tasks_after(history) ==> final(manager)@ == tasks_after(
                history.push(TaskStep::Added(id, event)),
            ),
        forall|
            manager: &mut TaskManager<B>,
            id: TaskId,
            dependencies: Vec<TaskId>,
            event: ParallelizedEvent,
        | #[trigger]
            call_ensures(
                TaskManager::<B>::add_parallelized_event_with_dependencies,
                (manager, id, dependencies, event),
                (),
            ) && manager@ == tasks_after(history) ==> final(manager)@ == tasks_after(
                history.push(TaskStep::Added(id, event)),
            ),
        forall|manager: &mut TaskManager<B>, batches: Vec<Vec<ParallelizedEvent>>| #[trigger]
            call_ensures(TaskManager::<B>::process_ready_tasks, (manager,), batches)
                ==> final(manager)@ == tasks_after(history.push(TaskStep::Emptied)),
        forall|manager: &mut TaskManager<B>| #[trigger]
            call_ensures(TaskManager::<B>::clear, (manager,), ()) ==> final(manager)@
                == tasks_after(history.push(TaskStep::Emptied)),
{
    assert(forall|step: TaskStep| #[trigger]
        history.push(step).drop_last() =~= history && history.push(step).last() == step);
}

/// After any history, a manager hands out what was added, and counts the tasks that were added to,
/// since it last handed tasks out or forgot them.
pub proof fn law_manager_hands_out_what_was_added<B>(history: Seq<TaskStep>)
    ensures
        forall|manager: &mut TaskManager<B>, batches: Vec<Vec<ParallelizedEvent>>| #[trigger]
            call_ensures(TaskManager::<B>::process_ready_tasks, (manager,), batches) && manager@
                == tasks_after(history) ==> hands_out(
                Seq::new(batches@.len(), |t: int| batches@[t]@),
                additions(history),
            ),
        forall|manager: TaskManager<B>, count: usize| #[trigger]
            call_ensures(TaskManager::<B>::pending_tasks_count, (&manager,), count) && manager@
                == tasks_after(history) ==> count == added_ids(additions(history)).to_set().len(),
{
    law_what_was_added_comes_out(history);
    law_count_is_the_number_of_tasks(history);
    assert forall|manager: &mut TaskManager<B>, batches: Vec<Vec<ParallelizedEvent>>| #[trigger]
        call_ensures(TaskManager::<B>::process_ready_tasks, (manager,), batches) && manager@
            == tasks_after(history) implies hands_out(
        Seq::new(batches@.len(), |t: int| batches@[t]@),
        additions(history),
    ) by {
        assert(Seq::new(batches@.len(), |t: int| batches@[t]@) =~= batches@.map_values(
            |batch: Vec<ParallelizedEvent>| batch@,
        ));
    }
}

} // verus!
