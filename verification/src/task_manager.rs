//! The tasks that wait to be processed, in the order in which they were last added to.

use crate::config::EventProcessorConfig;
use crate::dispatch::{DispatchView, EventContext, EventDispatch};
use crate::events::{EventKey, IndexingMode, ParallelizedEvent, TaskId};
use crate::linked::{
    has_key, lemma_lookup_entry, lemma_put_back_lookup, lemma_put_back_twice,
    lemma_put_back_unique, lemma_without_from, lemma_without_len, lemma_without_push, lookup,
    put_back, unique_keys, values, without,
};
use hashlink::LinkedHashMap;
use std::sync::Arc;
use tokio::sync::Semaphore;
use vstd::prelude::*;

verus! {

/// `hashlink::LinkedHashMap`: a hash map that keeps its entries in an order.
#[verifier::external_type_specification]
#[verifier::external_body]
#[verifier::reject_recursive_types(K)]
#[verifier::reject_recursive_types(V)]
#[verifier::reject_recursive_types(S)]
pub struct ExLinkedHashMap<K, V, S>(hashlink::LinkedHashMap<K, V, S>);

/// `hashlink::DefaultHashBuilder`: the hasher that the map uses unless it is given another.
#[verifier::external_type_specification]
#[verifier::external_body]
pub struct ExDefaultHashBuilder(hashlink::DefaultHashBuilder);

/// The events of one task.
#[derive(Debug)]
pub struct TaskData {
    /// The events of which each one counts, oldest first.
    pub events: Vec<ParallelizedEvent>,
    /// The events of which only the latest under each key counts.
    pub latest_only_events: LinkedHashMap<EventKey, ParallelizedEvent>,
}

/// What a task holds.
#[verifier::ext_equal]
pub struct TaskView {
    /// The events of which each one counts, oldest first.
    pub events: Seq<ParallelizedEvent>,
    /// The latest event under each key, in the order in which they came.
    pub latest: Seq<(EventKey, ParallelizedEvent)>,
}

/// The entries of the map of latest events, front to back.
pub uninterp spec fn latest_entries(map: LinkedHashMap<EventKey, ParallelizedEvent>) -> Seq<
    (EventKey, ParallelizedEvent),
>;

/// The entries of the map of tasks, front to back.
pub uninterp spec fn task_entries(map: LinkedHashMap<TaskId, TaskData>) -> Seq<(TaskId, TaskData)>;

impl View for TaskData {
    type V = TaskView;

    open spec fn view(&self) -> TaskView {
        TaskView { events: self.events@, latest: latest_entries(self.latest_only_events) }
    }
}

impl TaskView {
    /// A task without events.
    pub open spec fn empty() -> TaskView {
        TaskView { events: Seq::empty(), latest: Seq::empty() }
    }
}

/// Calls `LinkedHashMap::default`, which makes a map without entries.
#[verifier::external_body]
fn no_latest() -> (map: LinkedHashMap<EventKey, ParallelizedEvent>)
    ensures
        latest_entries(map) == Seq::<(EventKey, ParallelizedEvent)>::empty(),
{
    LinkedHashMap::default()
}

/// Calls `LinkedHashMap::insert`: the value takes the place of the one under its key, if there
/// was one, and its entry goes to the back. The replaced value is handed out.
#[verifier::external_body]
fn latest_insert(
    map: &mut LinkedHashMap<EventKey, ParallelizedEvent>,
    key: EventKey,
    event: ParallelizedEvent,
) -> (replaced: Option<ParallelizedEvent>)
    ensures
        latest_entries(*final(map)) == put_back(latest_entries(*old(map)), key, event),
        replaced == lookup(latest_entries(*old(map)), key),
{
    map.insert(key, event)
}

/// Calls `LinkedHashMap::into_iter` and takes the value of each entry, front to back.
#[verifier::external_body]
fn latest_values(map: LinkedHashMap<EventKey, ParallelizedEvent>) -> (events: Vec<
    ParallelizedEvent,
>)
    ensures
        events@ == values(latest_entries(map)),
{
    map.into_iter().map(|entry| entry.1).collect()
}

/// Calls `LinkedHashMap::new`, which makes a map without entries.
#[verifier::external_body]
fn no_tasks() -> (map: LinkedHashMap<TaskId, TaskData>)
    ensures
        task_entries(map) == Seq::<(TaskId, TaskData)>::empty(),
{
    LinkedHashMap::new()
}

/// Calls `LinkedHashMap::entry` and `Entry::or_insert_with`: the entry under the key, a new one
/// with an empty task if there was none, goes to the back, and its task is handed out for change.
#[verifier::external_body]
fn task_entry(map: &mut LinkedHashMap<TaskId, TaskData>, id: TaskId) -> (task: &mut TaskData)
    ensures
        match lookup(task_entries(*old(map)), id) {
            Some(found) => *task == found,
            None => (*task)@ == TaskView::empty(),
        },
        task_entries(*final(map)) == put_back(task_entries(*old(map)), id, *final(task)),
{
    map.entry(id).or_insert_with(TaskData::default)
}

impl Default for TaskData {
    fn default() -> (task: Self)
        ensures
            task@ == TaskView::empty(),
    {
        TaskData { events: Vec::new(), latest_only_events: no_latest() }
    }
}

/// Calls `LinkedHashMap::len`, which counts the entries.
#[verifier::external_body]
fn task_count(map: &LinkedHashMap<TaskId, TaskData>) -> (count: usize)
    ensures
        count == task_entries(*map).len(),
{
    map.len()
}

/// Calls `LinkedHashMap::is_empty`, which tells whether there is no entry.
#[verifier::external_body]
fn no_task_waits(map: &LinkedHashMap<TaskId, TaskData>) -> (empty: bool)
    ensures
        empty == (task_entries(*map).len() == 0),
{
    map.is_empty()
}

/// Calls `LinkedHashMap::drain`: the map loses its entries, which come out front to back.
#[verifier::external_body]
fn drain_tasks(map: &mut LinkedHashMap<TaskId, TaskData>) -> (tasks: Vec<(TaskId, TaskData)>)
    ensures
        tasks@ == task_entries(*old(map)),
        task_entries(*final(map)) == Seq::<(TaskId, TaskData)>::empty(),
{
    map.drain().collect()
}

/// Calls `LinkedHashMap::clear`: the map loses its entries.
#[verifier::external_body]
fn drop_tasks(map: &mut LinkedHashMap<TaskId, TaskData>)
    ensures
        task_entries(*final(map)) == Seq::<(TaskId, TaskData)>::empty(),
{
    map.clear()
}

/// The most permits that a semaphore can have.
pub open spec fn max_permits() -> int {
    usize::MAX as int / 8
}

/// The number of permits that a semaphore was made with.
pub uninterp spec fn initial_permits(semaphore: Semaphore) -> nat;

/// `tokio::sync::Semaphore`: hands out a limited number of permits.
#[verifier::external_type_specification]
#[verifier::external_body]
pub struct ExSemaphore(tokio::sync::Semaphore);

/// Calls `Semaphore::new`, which makes a semaphore with that many permits. It panics above
/// `Semaphore::MAX_PERMITS`, an eighth of the range of `usize`.
#[verifier::external_body]
fn semaphore_with(permits: usize) -> (semaphore: Semaphore)
    requires
        permits <= max_permits(),
    ensures
        initial_permits(semaphore) == permits,
{
    Semaphore::new(permits)
}

impl TaskView {
    /// The task with one more event: an event of which only the latest counts takes the place of
    /// the one under its key.
    pub open spec fn with(self, event: ParallelizedEvent) -> TaskView {
        match event.indexing_mode {
            IndexingMode::Latest(key) => TaskView {
                events: self.events,
                latest: put_back(self.latest, key, event),
            },
            IndexingMode::Historical => TaskView {
                events: self.events.push(event),
                latest: self.latest,
            },
        }
    }

    /// The events of the task in the order in which they are processed.
    pub open spec fn batch(self) -> Seq<ParallelizedEvent> {
        self.events + values(self.latest)
    }

    /// What holds of every waiting task: it has an event, each event stands where its mode puts
    /// it, and no key occurs twice.
    pub open spec fn wf(self) -> bool {
        &&& self.batch().len() > 0
        &&& unique_keys(self.latest)
        &&& forall|i: int|
            0 <= i < self.events.len() ==> (#[trigger] self.events[i]).indexing_mode
                == IndexingMode::Historical
        &&& forall|i: int|
            0 <= i < self.latest.len() ==> (#[trigger] self.latest[i]).1.indexing_mode
                == IndexingMode::Latest(self.latest[i].0)
    }
}

/// The events of a task, none if it does not wait.
pub open spec fn task_of(tasks: Seq<(TaskId, TaskView)>, id: TaskId) -> TaskView {
    match lookup(tasks, id) {
        Some(task) => task,
        None => TaskView::empty(),
    }
}

/// The waiting tasks after an event was added: its task goes to the back.
pub open spec fn added(
    tasks: Seq<(TaskId, TaskView)>,
    id: TaskId,
    event: ParallelizedEvent,
) -> Seq<(TaskId, TaskView)> {
    put_back(tasks, id, task_of(tasks, id).with(event))
}

/// What holds of the waiting tasks at all times.
pub open spec fn tasks_wf(tasks: Seq<(TaskId, TaskView)>) -> bool {
    &&& unique_keys(tasks)
    &&& forall|i: int| 0 <= i < tasks.len() ==> (#[trigger] tasks[i]).1.wf()
}

/// The batch of each task.
pub open spec fn task_batches(tasks: Seq<(TaskId, TaskView)>) -> Seq<Seq<ParallelizedEvent>> {
    tasks.map_values(|task: (TaskId, TaskView)| task.1.batch())
}

/// The batches to process, front to back: those that hold an event.
pub open spec fn ready_batches(tasks: Seq<(TaskId, TaskView)>) -> Seq<Seq<ParallelizedEvent>> {
    task_batches(tasks).filter(|batch: Seq<ParallelizedEvent>| batch.len() > 0)
}

/// What the entries of the map of tasks stand for.
pub open spec fn entry_views(entries: Seq<(TaskId, TaskData)>) -> Seq<(TaskId, TaskView)> {
    entries.map_values(|entry: (TaskId, TaskData)| (entry.0, entry.1@))
}

/// Keeps the tasks that wait, and what the event processors are given: a backend `B`, which holds
/// the storage, the cache and the provider, and their settings.
#[derive(Debug)]
pub struct TaskManager<B> {
    backend: B,
    pending_tasks: LinkedHashMap<TaskId, TaskData>,
    event_processor_config: EventProcessorConfig,
    nft_metadata_semaphore: Arc<Semaphore>,
}

/// What an event processor is given of an event.
#[derive(Debug)]
pub struct ProcessorContext<'a, B> {
    /// The storage, the cache and the provider.
    pub backend: &'a B,
    /// What is known of the event.
    pub event: EventContext,
    /// What the event processors are told.
    pub config: &'a EventProcessorConfig,
    /// The limit on metadata tasks that run at once.
    pub nft_metadata_semaphore: Arc<Semaphore>,
}

impl<B> View for TaskManager<B> {
    type V = Seq<(TaskId, TaskView)>;

    closed spec fn view(&self) -> Seq<(TaskId, TaskView)> {
        entry_views(task_entries(self.pending_tasks))
    }
}

proof fn lemma_views_put_back(entries: Seq<(TaskId, TaskData)>, id: TaskId, task: TaskData)
    ensures
        entry_views(put_back(entries, id, task)) == put_back(entry_views(entries), id, task@),
{
    lemma_views_without(entries, id);
    assert(entry_views(put_back(entries, id, task)) =~= put_back(
        entry_views(entries),
        id,
        task@,
    ));
}

proof fn lemma_views_without(entries: Seq<(TaskId, TaskData)>, id: TaskId)
    ensures
        entry_views(without(entries, id)) == without(entry_views(entries), id),
    decreases entries.len(),
{
    if entries.len() == 0 {
        reveal(Seq::filter);
        assert(entry_views(without(entries, id)) =~= without(entry_views(entries), id));
    } else {
        let front = entries.drop_last();
        let last = entries.last();
        lemma_views_without(front, id);
        lemma_without_push(front, last, id);
        lemma_without_push(entry_views(front), (last.0, last.1@), id);
        assert(front.push(last) =~= entries);
        assert(entry_views(front).push((last.0, last.1@)) =~= entry_views(entries));
        assert(entry_views(without(entries, id)) =~= without(entry_views(entries), id));
    }
}

proof fn lemma_views_lookup(entries: Seq<(TaskId, TaskData)>, id: TaskId)
    requires
        unique_keys(entry_views(entries)),
    ensures
        match lookup(entries, id) {
            Some(task) => lookup(entry_views(entries), id) == Some(task@),
            None => lookup(entry_views(entries), id) is None,
        },
{
    let views = entry_views(entries);
    assert forall|i: int, j: int| 0 <= i < j < entries.len() implies (#[trigger] entries[i]).0 != (
    #[trigger] entries[j]).0 by {
        assert(views[i].0 != views[j].0);
    }
    if has_key(entries, id) {
        let i = choose|i: int| 0 <= i < entries.len() && (#[trigger] entries[i]).0 == id;
        lemma_lookup_entry(entries, i);
        assert(views[i].0 == id);
        lemma_lookup_entry(views, i);
    } else if has_key(views, id) {
        let i = choose|i: int| 0 <= i < views.len() && (#[trigger] views[i]).0 == id;
        assert(entries[i].0 == id);
    }
}

proof fn lemma_ready_batches_push(tasks: Seq<(TaskId, TaskView)>, task: (TaskId, TaskView))
    ensures
        ready_batches(tasks.push(task)) == (if task.1.batch().len() > 0 {
            ready_batches(tasks).push(task.1.batch())
        } else {
            ready_batches(tasks)
        }),
{
    reveal(Seq::filter);
    assert(task_batches(tasks.push(task)) =~= task_batches(tasks).push(task.1.batch()));
    assert(task_batches(tasks.push(task)).drop_last() =~= task_batches(tasks));
}

/// Adding an event keeps what holds of the waiting tasks.
pub proof fn law_adding_keeps_tasks_well_formed(
    tasks: Seq<(TaskId, TaskView)>,
    id: TaskId,
    event: ParallelizedEvent,
)
    requires
        tasks_wf(tasks),
    ensures
        tasks_wf(added(tasks, id, event)),
{
    let before = task_of(tasks, id);
    let after = before.with(event);
    lemma_put_back_unique(tasks, id, after);
    if has_key(tasks, id) {
        let i = choose|i: int| 0 <= i < tasks.len() && (#[trigger] tasks[i]).0 == id;
        assert(tasks[i].1.wf());
        lemma_lookup_entry(tasks, i);
    }
    match event.indexing_mode {
        IndexingMode::Latest(key) => {
            lemma_put_back_unique(before.latest, key, event);
            assert forall|i: int| 0 <= i < after.latest.len() implies (
            #[trigger] after.latest[i]).1.indexing_mode == IndexingMode::Latest(
                after.latest[i].0,
            ) by {
                if i < after.latest.len() - 1 {
                    lemma_without_from(before.latest, key, i);
                }
            }
            assert(after.wf());
        },
        IndexingMode::Historical => {
            assert(after.wf());
        },
    }
    let result = added(tasks, id, event);
    assert forall|i: int| 0 <= i < result.len() implies (#[trigger] result[i]).1.wf() by {
        if i < result.len() - 1 {
            lemma_without_from(tasks, id, i);
        }
    }
}

/// An added event is in its task, as the task's own rule places it, and the task is the last.
pub proof fn law_task_gains_event(
    tasks: Seq<(TaskId, TaskView)>,
    id: TaskId,
    event: ParallelizedEvent,
)
    requires
        tasks_wf(tasks),
    ensures
        task_of(added(tasks, id, event), id) == task_of(tasks, id).with(event),
        added(tasks, id, event).last() == (id, task_of(tasks, id).with(event)),
{
    lemma_put_back_lookup(tasks, id, task_of(tasks, id).with(event), id);
}

/// Adding an event to a task changes no other task.
pub proof fn law_other_tasks_untouched(
    tasks: Seq<(TaskId, TaskView)>,
    id: TaskId,
    event: ParallelizedEvent,
    other: TaskId,
)
    requires
        tasks_wf(tasks),
        other != id,
    ensures
        lookup(added(tasks, id, event), other) == lookup(tasks, other),
{
    lemma_put_back_lookup(tasks, id, task_of(tasks, id).with(event), other);
}

/// A task is counted once, however many events it has.
pub proof fn law_task_counted_once(
    tasks: Seq<(TaskId, TaskView)>,
    id: TaskId,
    event: ParallelizedEvent,
)
    requires
        tasks_wf(tasks),
    ensures
        has_key(tasks, id) ==> added(tasks, id, event).len() == tasks.len(),
        !has_key(tasks, id) ==> added(tasks, id, event).len() == tasks.len() + 1,
{
    lemma_without_len(tasks, id);
}

/// Of two events under one key of one task, only the second counts: it is as if the first had
/// never come.
pub proof fn law_later_event_replaces_earlier(
    tasks: Seq<(TaskId, TaskView)>,
    id: TaskId,
    key: EventKey,
    first: ParallelizedEvent,
    second: ParallelizedEvent,
)
    requires
        tasks_wf(tasks),
        first.indexing_mode == IndexingMode::Latest(key),
        second.indexing_mode == IndexingMode::Latest(key),
    ensures
        added(added(tasks, id, first), id, second) == added(tasks, id, second),
{
    let before = task_of(tasks, id);
    law_task_gains_event(tasks, id, first);
    lemma_put_back_twice(before.latest, key, first, second);
    lemma_put_back_twice(tasks, id, before.with(first), before.with(second));
}

/// An event that counts for itself stays in its task, at its place, whatever is added later.
pub proof fn law_historical_events_stay(
    tasks: Seq<(TaskId, TaskView)>,
    id: TaskId,
    other: TaskId,
    event: ParallelizedEvent,
)
    requires
        tasks_wf(tasks),
    ensures
        task_of(tasks, id).events.is_prefix_of(task_of(added(tasks, other, event), id).events),
{
    let before = task_of(tasks, id).events;
    let after = task_of(added(tasks, other, event), id).events;
    if other == id {
        law_task_gains_event(tasks, id, event);
    } else {
        law_other_tasks_untouched(tasks, other, event, id);
    }
    assert(after.subrange(0, before.len() as int) =~= before);
}

/// Every waiting task has a batch to process: none is passed over.
pub proof fn law_every_task_is_processed(tasks: Seq<(TaskId, TaskView)>)
    requires
        tasks_wf(tasks),
    ensures
        ready_batches(tasks) == task_batches(tasks),
    decreases tasks.len(),
{
    reveal(Seq::filter);
    if tasks.len() > 0 {
        let front = tasks.drop_last();
        let last = tasks.last();
        assert forall|i: int, j: int| 0 <= i < j < front.len() implies (#[trigger] front[i]).0 != (
        #[trigger] front[j]).0 by {
            assert(tasks[i].0 != tasks[j].0);
        }
        assert forall|i: int| 0 <= i < front.len() implies (#[trigger] front[i]).1.wf() by {
            assert(tasks[i].1.wf());
        }
        law_every_task_is_processed(front);
        lemma_ready_batches_push(front, last);
        assert(front.push(last) =~= tasks);
        assert(tasks[tasks.len() - 1].1.wf());
        assert(task_batches(tasks) =~= task_batches(front).push(last.1.batch()));
    }
}

/// An event that was just added is in the last batch to process: at the end if only the latest
/// under its key counts, else behind the earlier events of its task.
pub proof fn law_added_event_is_processed(
    tasks: Seq<(TaskId, TaskView)>,
    id: TaskId,
    event: ParallelizedEvent,
)
    requires
        tasks_wf(tasks),
    ensures
        ready_batches(added(tasks, id, event)).len() > 0,
        event.indexing_mode is Latest ==> ready_batches(added(tasks, id, event)).last().last()
            == event,
        event.indexing_mode is Historical ==> ready_batches(added(tasks, id, event)).last()[task_of(
            tasks,
            id,
        ).events.len() as int] == event,
{
    law_adding_keeps_tasks_well_formed(tasks, id, event);
    law_every_task_is_processed(added(tasks, id, event));
}

/// When no task waits, there is nothing to process.
pub proof fn law_no_task_no_batch()
    ensures
        ready_batches(Seq::empty()) == Seq::<Seq<ParallelizedEvent>>::empty(),
{
    reveal(Seq::filter);
    assert(task_batches(Seq::empty()) =~= Seq::empty());
}

impl<B> TaskManager<B> {
    /// What holds of a manager at all times.
    pub open spec fn wf(&self) -> bool {
        tasks_wf(self@)
    }

    /// What the event processors are told.
    pub closed spec fn config(&self) -> EventProcessorConfig {
        self.event_processor_config
    }

    /// The storage, the cache and the provider.
    pub closed spec fn backend(&self) -> B {
        self.backend
    }

    /// The limit on metadata tasks that run at once.
    pub closed spec fn semaphore(&self) -> Semaphore {
        *self.nft_metadata_semaphore
    }

    /// A manager without tasks. The number of concurrent tasks has no influence.
    pub fn new(
        backend: B,
        _max_concurrent_tasks: usize,
        event_processor_config: EventProcessorConfig,
    ) -> (manager: Self)
        requires
            event_processor_config.max_metadata_tasks <= max_permits(),
        ensures
            manager.wf(),
            manager@ == Seq::<(TaskId, TaskView)>::empty(),
            manager.backend() == backend,
            manager.config() == event_processor_config,
            initial_permits(manager.semaphore()) == event_processor_config.max_metadata_tasks,
    {
        let manager = TaskManager {
            backend,
            pending_tasks: no_tasks(),
            nft_metadata_semaphore: Arc::new(
                semaphore_with(event_processor_config.max_metadata_tasks),
            ),
            event_processor_config,
        };
        assert(manager@ =~= Seq::<(TaskId, TaskView)>::empty());
        manager
    }

    /// What the event processors are told.
    pub fn event_processor_config(&self) -> (config: &EventProcessorConfig)
        ensures
            *config == self.config(),
    {
        &self.event_processor_config
    }

    /// The limit on metadata tasks that run at once.
    pub fn nft_metadata_semaphore(&self) -> (semaphore: Arc<Semaphore>)
        ensures
            *semaphore == self.semaphore(),
    {
        self.nft_metadata_semaphore.clone()
    }

    /// The number of tasks that wait.
    pub fn pending_tasks_count(&self) -> (count: usize)
        ensures
            count == self@.len(),
    {
        task_count(&self.pending_tasks)
    }

    /// Adds an event to a task, which goes to the back.
    pub fn add_parallelized_event(
        &mut self,
        task_identifier: TaskId,
        parallelized_event: ParallelizedEvent,
    )
        requires
            old(self).wf(),
        ensures
            final(self).wf(),
            final(self)@ == added(old(self)@, task_identifier, parallelized_event),
            final(self).backend() == old(self).backend(),
            final(self).config() == old(self).config(),
            final(self).semaphore() == old(self).semaphore(),
    {
        self.add_parallelized_event_with_dependencies(
            task_identifier,
            Vec::new(),
            parallelized_event,
        );
    }

    /// Adds an event to a task, which goes to the back. The dependencies have no influence.
    pub fn add_parallelized_event_with_dependencies(
        &mut self,
        task_identifier: TaskId,
        _dependencies: Vec<TaskId>,
        parallelized_event: ParallelizedEvent,
    )
        requires
            old(self).wf(),
        ensures
            final(self).wf(),
            final(self)@ == added(old(self)@, task_identifier, parallelized_event),
            final(self).backend() == old(self).backend(),
            final(self).config() == old(self).config(),
            final(self).semaphore() == old(self).semaphore(),
    {
        let ghost before = task_entries(self.pending_tasks);
        let ghost task_before = task_of(self@, task_identifier);
        proof {
            lemma_views_lookup(before, task_identifier);
            law_adding_keeps_tasks_well_formed(self@, task_identifier, parallelized_event);
        }
        let task_data = task_entry(&mut self.pending_tasks, task_identifier);
        assert(task_data@ =~= task_before);
        match parallelized_event.indexing_mode {
            IndexingMode::Latest(event_key) => {
                latest_insert(&mut task_data.latest_only_events, event_key, parallelized_event);
            },
            IndexingMode::Historical => {
                task_data.events.push(parallelized_event);
            },
        }
        let ghost after = *task_data;
        assert(after@ =~= task_before.with(parallelized_event));
        proof {
            lemma_views_put_back(before, task_identifier, after);
        }
    }

    /// Takes out every waiting task and hands out the events of each, front to back: first the
    /// events of which each one counts, then the latest under each key.
    pub fn process_ready_tasks(&mut self) -> (batches: Vec<Vec<ParallelizedEvent>>)
        ensures
            final(self).wf(),
            batches@.map_values(|batch: Vec<ParallelizedEvent>| batch@) == ready_batches(
                old(self)@,
            ),
            final(self)@ == Seq::<(TaskId, TaskView)>::empty(),
            final(self).backend() == old(self).backend(),
            final(self).config() == old(self).config(),
            final(self).semaphore() == old(self).semaphore(),
    {
        let mut batches: Vec<Vec<ParallelizedEvent>> = Vec::new();
        let ghost views = batches@.map_values(|batch: Vec<ParallelizedEvent>| batch@);
        if no_task_waits(&self.pending_tasks) {
            proof {
                reveal(Seq::filter);
                assert(task_batches(self@) =~= Seq::empty());
                assert(views =~= Seq::empty());
                assert(self@ =~= Seq::<(TaskId, TaskView)>::empty());
            }
            return batches;
        }
        let ghost before = self@;
        let tasks: Vec<(TaskId, TaskData)> = drain_tasks(&mut self.pending_tasks);
        let ghost entries = tasks@;
        proof {
            reveal(Seq::filter);
            assert(task_batches(before.take(0)) =~= Seq::empty());
            assert(views =~= Seq::empty());
        }
        for task in iter: tasks
            invariant
                iter.seq() == entries,
                before == entry_views(entries),
                batches@.map_values(|batch: Vec<ParallelizedEvent>| batch@) == ready_batches(
                    before.take(iter.index()),
                ),
        {
            let ghost done = iter.index();
            let (_id, task_data) = task;
            let mut all_events: Vec<ParallelizedEvent> = task_data.events;
            let mut latest: Vec<ParallelizedEvent> = latest_values(task_data.latest_only_events);
            all_events.append(&mut latest);
            assert(all_events@ =~= before[done].1.batch());
            proof {
                lemma_ready_batches_push(before.take(done), before[done]);
                assert(before.take(done).push(before[done]) =~= before.take(done + 1));
            }
            if !all_events.is_empty() {
                batches.push(all_events);
            }
            assert(batches@.map_values(|batch: Vec<ParallelizedEvent>| batch@) =~= ready_batches(
                before.take(done + 1),
            ));
        }
        assert(before.take(entries.len() as int) =~= before);
        batches
    }

    /// Begins to process the events of a batch.
    pub fn process_events(&self, events: Vec<ParallelizedEvent>) -> (dispatch: EventDispatch)
        ensures
            dispatch.wf(),
            dispatch.batch() == events@,
            dispatch@ == DispatchView::start(events@.len()),
    {
        EventDispatch::new(events)
    }

    /// What the processors are given of the event that is being handled: the manager's own
    /// backend, settings and semaphore, and what the event holds. None when the batch is finished.
    pub fn event_context(&self, dispatch: &EventDispatch) -> (context: Option<
        ProcessorContext<'_, B>,
    >)
        requires
            dispatch.wf(),
        ensures
            match context {
                Some(context) => {
                    &&& dispatch@.phase !is Finished
                    &&& *context.backend == self.backend()
                    &&& context.event.is_of(dispatch.batch()[dispatch@.position as int])
                    &&& *context.config == self.config()
                    &&& *context.nft_metadata_semaphore == self.semaphore()
                },
                None => dispatch@.phase is Finished,
            },
    {
        match dispatch.context() {
            Some(event) => Some(
                ProcessorContext {
                    backend: &self.backend,
                    event,
                    config: &self.event_processor_config,
                    nft_metadata_semaphore: self.nft_metadata_semaphore.clone(),
                },
            ),
            None => None,
        }
    }

    /// Forgets every waiting task.
    pub fn clear(&mut self)
        ensures
            final(self).wf(),
            final(self)@ == Seq::<(TaskId, TaskView)>::empty(),
            final(self).backend() == old(self).backend(),
            final(self).config() == old(self).config(),
            final(self).semaphore() == old(self).semaphore(),
    {
        drop_tasks(&mut self.pending_tasks);
        assert(self@ =~= Seq::<(TaskId, TaskView)>::empty());
    }
}

/// A new manager has no tasks and holds what it is made with. As many metadata tasks may run at
/// once as the settings say.
pub proof fn law_manager_is_made<B>(
    backend: B,
    max_concurrent_tasks: usize,
    config: EventProcessorConfig,
    manager: TaskManager<B>,
)
    requires
        call_ensures(TaskManager::<B>::new, (backend, max_concurrent_tasks, config), manager),
    ensures
        manager@.len() == 0,
        manager.backend() == backend,
        manager.config() == config,
        initial_permits(manager.semaphore()) == config.max_metadata_tasks,
{
}

/// Whether two managers hold the same besides their tasks.
pub open spec fn same_holdings<B>(a: TaskManager<B>, b: TaskManager<B>) -> bool {
    &&& a.backend() == b.backend()
    &&& a.config() == b.config()
    &&& a.semaphore() == b.semaphore()
}

/// What a manager was made with stays, whatever is done with its tasks.
pub proof fn law_manager_keeps_what_it_holds<B>()
    ensures
        forall|manager: &mut TaskManager<B>, id: TaskId, event: ParallelizedEvent| #[trigger]
            call_ensures(TaskManager::<B>::add_parallelized_event, (manager, id, event), ())
                ==> same_holdings(*manager, *final(manager)),
        forall|
            manager: &mut TaskManager<B>,
            id: TaskId,
            dependencies: Vec<TaskId>,
            event: ParallelizedEvent,
        | #[trigger]
            call_ensures(
                TaskManager::<B>::add_parallelized_event_with_dependencies,
                (manager, id, dependencies, event),
                (),
            ) ==> same_holdings(*manager, *final(manager)),
        forall|manager: &mut TaskManager<B>, batches: Vec<Vec<ParallelizedEvent>>| #[trigger]
            call_ensures(TaskManager::<B>::process_ready_tasks, (manager,), batches)
                ==> same_holdings(*manager, *final(manager)),
        forall|manager: &mut TaskManager<B>| #[trigger]
            call_ensures(TaskManager::<B>::clear, (manager,), ()) ==> same_holdings(
                *manager,
                *final(manager),
            ),
{
}

/// A batch is dispatched whole and from its first event on. The processors are given the event
/// that is up, and the manager's own backend, settings and semaphore.
pub proof fn law_processors_are_given_the_event<B>(
    manager: TaskManager<B>,
    events: Vec<ParallelizedEvent>,
    begun: EventDispatch,
    dispatch: EventDispatch,
    context: Option<ProcessorContext<'_, B>>,
    config: &EventProcessorConfig,
    semaphore: Arc<Semaphore>,
)
    requires
        dispatch.wf(),
        call_ensures(TaskManager::<B>::process_events, (&manager, events), begun),
        call_ensures(TaskManager::<B>::event_context, (&manager, &dispatch), context),
        call_ensures(TaskManager::<B>::event_processor_config, (&manager,), config),
        call_ensures(TaskManager::<B>::nft_metadata_semaphore, (&manager,), semaphore),
    ensures
        begun.batch() == events@,
        begun@.position == 0,
        begun@.events == events@.len(),
        begun@.phase is Finished <==> events@.len() == 0,
        begun@.phase is Select <==> events@.len() > 0,
        *config == manager.config(),
        *semaphore == manager.semaphore(),
        context is Some <==> dispatch@.phase !is Finished,
        context matches Some(given) ==> {
            let event = dispatch.batch()[dispatch@.position as int];
            &&& given.event.block_number == event.block_number
            &&& given.event.block_timestamp == event.block_timestamp
            &&& given.event.event_id@ == event.event_id@
            &&& given.event.event.from_address.bytes == event.event.from_address.bytes
            &&& given.event.event.keys@ == event.event.keys@
            &&& given.event.event.data@ == event.event.data@
            &&& *given.backend == manager.backend()
            &&& *given.config == manager.config()
            &&& *given.nft_metadata_semaphore == manager.semaphore()
        },
{
}

} // verus!
