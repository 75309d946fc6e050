//! How the events of a batch are handed to the event processors.

use crate::events::{Event, ParallelizedEvent};
use vstd::prelude::*;

verus! {

/// Where the processing of a batch stands.
#[derive(Debug, Clone, Copy, PartialEq, Eq, Structural)]
pub enum DispatchPhase {
    /// The processors for the current event are to be looked up.
    Select,
    /// A processor is to be asked whether it takes the event.
    Validate(usize),
    /// A processor is to process the event.
    Process(usize),
    /// The catch-all processor is to process the event.
    CatchAll,
    /// Every event has been handled.
    Finished,
}

/// What was learnt from the outside.
#[derive(Debug, Clone, Copy, PartialEq, Eq, Structural)]
pub enum DispatchReply {
    /// There are this many processors for the event.
    Processors(usize),
    /// Whether the processor takes the event.
    Validated(bool),
    /// Whether the processor succeeded.
    Processed(bool),
    /// Whether the catch-all processor succeeded.
    CaughtAll(bool),
}

/// What is counted of a step.
#[derive(Debug, Clone, Copy, PartialEq, Eq, Structural)]
pub enum EventStatus {
    /// A processor succeeded.
    Success,
    /// A processor failed.
    Failed,
}

/// What a processor is told of an event.
#[derive(Debug)]
pub struct EventContext {
    /// The number of the event's block.
    pub block_number: u64,
    /// The time of the event's block.
    pub block_timestamp: u64,
    /// The event's identifier.
    pub event_id: String,
    /// The event itself.
    pub event: Event,
}

impl EventContext {
    /// Whether this is what is known of an event.
    pub open spec fn is_of(&self, event: ParallelizedEvent) -> bool {
        &&& self.block_number == event.block_number
        &&& self.block_timestamp == event.block_timestamp
        &&& self.event_id@ == event.event_id@
        &&& self.event.same(&event.event)
    }
}

/// The events of a batch, and where their processing stands.
#[derive(Debug)]
pub struct EventDispatch {
    events: Vec<ParallelizedEvent>,
    position: usize,
    phase: DispatchPhase,
    processors: usize,
    processed: bool,
}

/// Where the processing of a batch stands.
pub struct DispatchView {
    /// The number of events.
    pub events: nat,
    /// The event that is being handled.
    pub position: nat,
    /// What is to be done with it.
    pub phase: DispatchPhase,
    /// The number of processors for it.
    pub processors: nat,
    /// Whether one of them succeeded.
    pub processed: bool,
}

impl DispatchView {
    /// Before the first event.
    pub open spec fn start(events: nat) -> DispatchView {
        DispatchView {
            events,
            position: 0,
            phase: if events == 0 {
                DispatchPhase::Finished
            } else {
                DispatchPhase::Select
            },
            processors: 0,
            processed: false,
        }
    }

    /// What holds at all times.
    pub open spec fn wf(self) -> bool {
        &&& self.processors <= usize::MAX
        &&& match self.phase {
            DispatchPhase::Select => self.position < self.events,
            DispatchPhase::Validate(k) => self.position < self.events && k < self.processors,
            DispatchPhase::Process(k) => self.position < self.events && k < self.processors,
            DispatchPhase::CatchAll => self.position < self.events && !self.processed,
            DispatchPhase::Finished => self.position == self.events,
        }
    }

    /// Whether a reply answers what is to be done.
    pub open spec fn expects(self, reply: DispatchReply) -> bool {
        match self.phase {
            DispatchPhase::Select => reply is Processors,
            DispatchPhase::Validate(_) => reply is Validated,
            DispatchPhase::Process(_) => reply is Processed,
            DispatchPhase::CatchAll => reply is CaughtAll,
            DispatchPhase::Finished => false,
        }
    }

    /// The next event is up, if there is one.
    pub open spec fn next_event(self) -> DispatchView {
        DispatchView {
            position: self.position + 1,
            phase: if self.position + 1 == self.events {
                DispatchPhase::Finished
            } else {
                DispatchPhase::Select
            },
            ..self
        }
    }

    /// Processor `k` is up, if there is one. Behind the last, the catch-all processor takes an
    /// event that none of them processed.
    pub open spec fn next_processor(self, k: nat) -> DispatchView {
        if k < self.processors {
            DispatchView { phase: DispatchPhase::Validate(k as usize), ..self }
        } else if self.processed {
            self.next_event()
        } else {
            DispatchView { phase: DispatchPhase::CatchAll, ..self }
        }
    }

    /// What follows a reply, and what is counted.
    pub open spec fn next(self, reply: DispatchReply) -> (DispatchView, Option<EventStatus>) {
        match (self.phase, reply) {
            (DispatchPhase::Select, DispatchReply::Processors(processors)) => (
                (DispatchView { processors: processors as nat, processed: false, ..self }
                ).next_processor(0),
                None,
            ),
            (DispatchPhase::Validate(k), DispatchReply::Validated(takes)) => (
                if takes {
                    DispatchView { phase: DispatchPhase::Process(k), ..self }
                } else {
                    self.next_processor(k as nat + 1)
                },
                None,
            ),
            (DispatchPhase::Process(k), DispatchReply::Processed(success)) => (
                (DispatchView { processed: self.processed || success, ..self }).next_processor(
                    k as nat + 1,
                ),
                Some(
                    if success {
                        EventStatus::Success
                    } else {
                        EventStatus::Failed
                    },
                ),
            ),
            (DispatchPhase::CatchAll, DispatchReply::CaughtAll(success)) => (
                self.next_event(),
                if success {
                    None
                } else {
                    Some(EventStatus::Failed)
                },
            ),
            _ => (self, None),
        }
    }
}

impl View for EventDispatch {
    type V = DispatchView;

    closed spec fn view(&self) -> DispatchView {
        DispatchView {
            events: self.events@.len(),
            position: self.position as nat,
            phase: self.phase,
            processors: self.processors as nat,
            processed: self.processed,
        }
    }
}

impl EventDispatch {
    /// What holds at all times.
    pub open spec fn wf(&self) -> bool {
        self@.wf()
    }

    /// The events of the batch.
    pub closed spec fn batch(&self) -> Seq<ParallelizedEvent> {
        self.events@
    }

    /// Begins with the first event of a batch.
    pub fn new(events: Vec<ParallelizedEvent>) -> (dispatch: Self)
        ensures
            dispatch.wf(),
            dispatch.batch() == events@,
            dispatch@ == DispatchView::start(events@.len()),
    {
        let phase: DispatchPhase = if events.len() == 0 {
            DispatchPhase::Finished
        } else {
            DispatchPhase::Select
        };
        EventDispatch { events, position: 0, phase, processors: 0, processed: false }
    }

    /// What is to be done next.
    pub fn phase(&self) -> (phase: DispatchPhase)
        ensures
            phase == self@.phase,
    {
        self.phase
    }

    /// The event that is being handled, none when the batch is finished.
    pub fn current_event(&self) -> (event: Option<&ParallelizedEvent>)
        requires
            self.wf(),
        ensures
            match event {
                Some(event) => self@.phase !is Finished && *event
                    == self.batch()[self@.position as int],
                None => self@.phase is Finished,
            },
    {
        match self.phase {
            DispatchPhase::Finished => None,
            _ => Some(&self.events[self.position]),
        }
    }

    /// What the processors are told of the event that is being handled.
    pub fn context(&self) -> (context: Option<EventContext>)
        requires
            self.wf(),
        ensures
            match context {
                Some(context) => self@.phase !is Finished && context.is_of(
                    self.batch()[self@.position as int],
                ),
                None => self@.phase is Finished,
            },
    {
        match self.current_event() {
            Some(event) => Some(
                EventContext {
                    block_number: event.block_number,
                    block_timestamp: event.block_timestamp,
                    event_id: event.event_id.clone(),
                    event: event.event.clone(),
                },
            ),
            None => None,
        }
    }

    fn move_to_event(&mut self)
        requires
            old(self)@.position < old(self)@.events,
        ensures
            final(self)@ == old(self)@.next_event(),
            final(self).batch() == old(self).batch(),
    {
        let events: usize = self.events.len();
        self.position = self.position + 1;
        self.phase = if self.position == events {
            DispatchPhase::Finished
        } else {
            DispatchPhase::Select
        };
    }

    fn move_to_processor(&mut self, k: usize)
        requires
            old(self)@.position < old(self)@.events,
            k <= old(self)@.processors,
        ensures
            final(self)@ == old(self)@.next_processor(k as nat),
            final(self).batch() == old(self).batch(),
    {
        if k < self.processors {
            self.phase = DispatchPhase::Validate(k);
        } else if self.processed {
            self.move_to_event();
        } else {
            self.phase = DispatchPhase::CatchAll;
        }
    }

    /// Takes a reply, moves on, and hands out what is to be counted.
    pub fn step(&mut self, reply: DispatchReply) -> (status: Option<EventStatus>)
        requires
            old(self).wf(),
            old(self)@.expects(reply),
        ensures
            final(self).wf(),
            final(self).batch() == old(self).batch(),
            (final(self)@, status) == old(self)@.next(reply),
    {
        match (self.phase, reply) {
            (DispatchPhase::Select, DispatchReply::Processors(processors)) => {
                self.processors = processors;
                self.processed = false;
                self.move_to_processor(0);
                None
            },
            (DispatchPhase::Validate(k), DispatchReply::Validated(takes)) => {
                if takes {
                    self.phase = DispatchPhase::Process(k);
                } else {
                    self.move_to_processor(k + 1);
                }
                None
            },
            (DispatchPhase::Process(k), DispatchReply::Processed(success)) => {
                if success {
                    self.processed = true;
                }
                self.move_to_processor(k + 1);
                if success {
                    Some(EventStatus::Success)
                } else {
                    Some(EventStatus::Failed)
                }
            },
            (DispatchPhase::CatchAll, DispatchReply::CaughtAll(success)) => {
                self.move_to_event();
                if success {
                    None
                } else {
                    Some(EventStatus::Failed)
                }
            },
            _ => None,
        }
    }
}

/// What the processors would say to an event.
pub struct EventScript {
    /// Of each processor, whether it takes the event and whether it would succeed.
    pub verdicts: Seq<(bool, bool)>,
    /// Whether the catch-all processor would succeed.
    pub catch_all: bool,
}

/// A step: the event, what was done with it, and what was counted.
pub type DispatchStep = (nat, DispatchPhase, Option<EventStatus>);

impl EventScript {
    /// Whether a processor takes the event and succeeds.
    pub open spec fn handled(self) -> bool {
        exists|k: int|
            0 <= k < self.verdicts.len() && (#[trigger] self.verdicts[k]).0 && self.verdicts[k].1
    }

    /// The steps of processor `k` and of those behind it: each is asked once, in order, and
    /// processes the event if it takes it.
    pub open spec fn processor_steps(self, event: nat, k: nat) -> Seq<DispatchStep>
        decreases self.verdicts.len() - k,
    {
        if k >= self.verdicts.len() {
            Seq::empty()
        } else {
            let asked: Seq<DispatchStep> = seq![(event, DispatchPhase::Validate(k as usize), None)];
            let processed: Seq<DispatchStep> = if self.verdicts[k as int].0 {
                seq![
                    (
                        event,
                        DispatchPhase::Process(k as usize),
                        Some(
                            if self.verdicts[k as int].1 {
                                EventStatus::Success
                            } else {
                                EventStatus::Failed
                            },
                        ),
                    ),
                ]
            } else {
                Seq::empty()
            };
            asked + processed + self.processor_steps(event, k + 1)
        }
    }

    /// The step of the catch-all processor: it processes an event that no processor handled.
    pub open spec fn catch_all_steps(self, event: nat) -> Seq<DispatchStep> {
        if self.handled() {
            Seq::empty()
        } else {
            seq![
                (
                    event,
                    DispatchPhase::CatchAll,
                    if self.catch_all {
                        None
                    } else {
                        Some(EventStatus::Failed)
                    },
                ),
            ]
        }
    }

    /// The steps of an event.
    pub open spec fn steps(self, event: nat) -> Seq<DispatchStep> {
        seq![(event, DispatchPhase::Select, None::<EventStatus>)] + self.processor_steps(event, 0)
            + self.catch_all_steps(event)
    }

    /// What the outside replies when this is what the processors would say.
    pub open spec fn reply(self, phase: DispatchPhase) -> DispatchReply {
        match phase {
            DispatchPhase::Validate(k) => DispatchReply::Validated(self.verdicts[k as int].0),
            DispatchPhase::Process(k) => DispatchReply::Processed(self.verdicts[k as int].1),
            DispatchPhase::CatchAll => DispatchReply::CaughtAll(self.catch_all),
            _ => DispatchReply::Processors(self.verdicts.len() as usize),
        }
    }
}

/// The steps of event `event` and of those behind it.
pub open spec fn batch_steps(scripts: Seq<EventScript>, event: nat) -> Seq<DispatchStep>
    decreases scripts.len() - event,
{
    if event >= scripts.len() {
        Seq::empty()
    } else {
        scripts[event as int].steps(event) + batch_steps(scripts, event + 1)
    }
}

/// How many steps the current event may still take.
pub open spec fn remaining_work(state: DispatchView, scripts: Seq<EventScript>) -> nat {
    match state.phase {
        DispatchPhase::Select => 2 * scripts[state.position as int].verdicts.len() + 3,
        DispatchPhase::Validate(k) => (2 * (state.processors - k) + 2) as nat,
        DispatchPhase::Process(k) => (2 * (state.processors - k) + 1) as nat,
        DispatchPhase::CatchAll => 1,
        DispatchPhase::Finished => 0,
    }
}

/// The steps that are taken from a state on, when the replies follow the scripts.
#[verifier::opaque]
pub open spec fn run_steps(state: DispatchView, scripts: Seq<EventScript>) -> Seq<DispatchStep>
    decreases state.events - state.position, remaining_work(state, scripts),
    when state.wf() && state.events == scripts.len() && scripts_fit(scripts)
{
    if state.phase is Finished {
        Seq::empty()
    } else {
        let reply = scripts[state.position as int].reply(state.phase);
        let next = state.next(reply);
        seq![(state.position, state.phase, next.1)] + run_steps(next.0, scripts)
    }
}

/// No event has more processors than can be counted.
pub open spec fn scripts_fit(scripts: Seq<EventScript>) -> bool {
    forall|i: int|
        0 <= i < scripts.len() ==> (#[trigger] scripts[i]).verdicts.len() <= usize::MAX
}

/// Whether a processor before `k` handled the event.
pub open spec fn handled_before(script: EventScript, k: nat) -> bool {
    exists|j: int| 0 <= j < k && (#[trigger] script.verdicts[j]).0 && script.verdicts[j].1
}

proof fn lemma_run_step(state: DispatchView, scripts: Seq<EventScript>, reply: DispatchReply)
    requires
        state.wf(),
        state.events == scripts.len(),
        scripts_fit(scripts),
        !(state.phase is Finished),
        reply == scripts[state.position as int].reply(state.phase),
    ensures
        run_steps(state, scripts) == seq![(state.position, state.phase, state.next(reply).1)]
            + run_steps(state.next(reply).0, scripts),
{
    reveal(run_steps);
}

proof fn lemma_regroup(
    a: Seq<DispatchStep>,
    b: Seq<DispatchStep>,
    c: Seq<DispatchStep>,
    d: Seq<DispatchStep>,
    e: Seq<DispatchStep>,
)
    ensures
        a + (b + (c + d + e)) == a + b + c + d + e,
{
    assert(a + (b + (c + d + e)) =~= a + b + c + d + e);
}

proof fn lemma_handled_step(script: EventScript, k: nat)
    requires
        k < script.verdicts.len(),
    ensures
        handled_before(script, k + 1) == (handled_before(script, k) || (
        script.verdicts[k as int].0 && script.verdicts[k as int].1)),
{
    if handled_before(script, k) {
        let j = choose|j: int|
            0 <= j < k && (#[trigger] script.verdicts[j]).0 && script.verdicts[j].1;
        assert(0 <= j < k + 1 && script.verdicts[j].0 && script.verdicts[j].1);
    }
}

proof fn lemma_processors_run(state: DispatchView, scripts: Seq<EventScript>, k: nat)
    requires
        scripts_fit(scripts),
        state.events == scripts.len(),
        state.position < state.events,
        state.processors == scripts[state.position as int].verdicts.len(),
        k <= state.processors,
        state.processed == handled_before(scripts[state.position as int], k),
    ensures
        run_steps(state.next_processor(k), scripts) == scripts[state.position as int].processor_steps(
            state.position,
            k,
        ) + scripts[state.position as int].catch_all_steps(state.position) + run_steps(
            state.next_event(),
            scripts,
        ),
    decreases state.processors - k,
{
    let script = scripts[state.position as int];
    let position = state.position;
    let caught_all = script.catch_all_steps(position);
    let rest = run_steps(state.next_event(), scripts);
    let none = Seq::<DispatchStep>::empty();
    if k < state.processors {
        let asked = state.next_processor(k);
        let verdict = script.verdicts[k as int];
        let later = script.processor_steps(position, k + 1);
        let first: Seq<DispatchStep> = seq![(position, asked.phase, None)];
        lemma_handled_step(script, k);
        lemma_run_step(asked, scripts, DispatchReply::Validated(verdict.0));
        if verdict.0 {
            let taken = asked.next(DispatchReply::Validated(true)).0;
            let outcome = taken.next(DispatchReply::Processed(verdict.1));
            let after = DispatchView { processed: state.processed || verdict.1, ..taken };
            let second: Seq<DispatchStep> = seq![(position, taken.phase, outcome.1)];
            lemma_run_step(taken, scripts, DispatchReply::Processed(verdict.1));
            lemma_processors_run(after, scripts, k + 1);
            lemma_next_event_ignores(after, state, scripts);
            lemma_regroup(first, second, later, caught_all, rest);
        } else {
            lemma_processors_run(asked, scripts, k + 1);
            lemma_next_event_ignores(asked, state, scripts);
            lemma_regroup(first, none, later, caught_all, rest);
            assert(none + (later + caught_all + rest) =~= later + caught_all + rest);
        }
    } else if state.processed {
        assert(script.handled());
        assert(none + none + rest =~= rest);
    } else {
        let caught = state.next_processor(k);
        assert(!script.handled());
        lemma_run_step(caught, scripts, DispatchReply::CaughtAll(script.catch_all));
        lemma_next_event_ignores(caught, state, scripts);
        assert(none + caught_all + rest =~= caught_all + rest);
    }
}

/// What comes after an event does not depend on how it was handled.
proof fn lemma_next_event_ignores(a: DispatchView, b: DispatchView, scripts: Seq<EventScript>)
    requires
        scripts_fit(scripts),
        a.events == b.events,
        a.position == b.position,
        a.events == scripts.len(),
        a.position < a.events,
        a.processors <= usize::MAX,
        b.processors <= usize::MAX,
    ensures
        run_steps(a.next_event(), scripts) == run_steps(b.next_event(), scripts),
{
    reveal(run_steps);
    let next_a = a.next_event();
    let next_b = b.next_event();
    if !(next_a.phase is Finished) {
        let reply = scripts[next_a.position as int].reply(DispatchPhase::Select);
        assert(next_a.next(reply) == next_b.next(reply));
    }
}

proof fn lemma_batch_runs(state: DispatchView, scripts: Seq<EventScript>)
    requires
        scripts_fit(scripts),
        state.events == scripts.len(),
        state.wf(),
        state.phase is Select || state.phase is Finished,
    ensures
        run_steps(state, scripts) == batch_steps(scripts, state.position),
    decreases state.events - state.position,
{
    if state.phase is Select {
        let script = scripts[state.position as int];
        let position = state.position;
        let selected = DispatchView {
            processors: script.verdicts.len(),
            processed: false,
            ..state
        };
        let first: Seq<DispatchStep> = seq![(position, DispatchPhase::Select, None)];
        let none = Seq::<DispatchStep>::empty();
        let steps = script.processor_steps(position, 0);
        let caught_all = script.catch_all_steps(position);
        let rest = batch_steps(scripts, position + 1);
        lemma_run_step(state, scripts, script.reply(DispatchPhase::Select));
        lemma_processors_run(selected, scripts, 0);
        lemma_batch_runs(selected.next_event(), scripts);
        lemma_regroup(first, none, steps, caught_all, rest);
        assert(none + (steps + caught_all + rest) =~= steps + caught_all + rest);
        assert(first + none =~= first);
    } else {
        reveal(run_steps);
    }
}

/// A batch is processed event by event. Of each event, every processor is asked once, in order,
/// and processes the event if it takes it, whatever the others did. The catch-all processor
/// processes an event exactly if no processor both took it and succeeded. Each success of a
/// processor and each failure, the catch-all's too, is counted once.
pub proof fn law_batch_is_dispatched(scripts: Seq<EventScript>)
    requires
        scripts_fit(scripts),
    ensures
        run_steps(DispatchView::start(scripts.len()), scripts) == batch_steps(scripts, 0),
{
    lemma_batch_runs(DispatchView::start(scripts.len()), scripts);
}

/// The replies that follow a script are the ones that the processing expects.
pub proof fn law_scripted_replies_are_expected(state: DispatchView, script: EventScript)
    requires
        state.wf(),
        !(state.phase is Finished),
    ensures
        state.expects(script.reply(state.phase)),
        state.next(script.reply(state.phase)).0.wf(),
{
}

/// A dispatch begins with the first of its events, if there is one.
pub proof fn law_dispatch_begins(events: Vec<ParallelizedEvent>, dispatch: EventDispatch)
    requires
        call_ensures(EventDispatch::new, (events,), dispatch),
    ensures
        dispatch.batch() == events@,
        dispatch@.events == events@.len(),
        dispatch@.position == 0,
        dispatch@.phase is Finished <==> events@.len() == 0,
        dispatch@.phase is Select <==> events@.len() > 0,
{
}

/// The event that is being handled is the one at the dispatch's position, and what the processors
/// are told of it is what it holds.
pub proof fn law_current_event_is_told(
    dispatch: EventDispatch,
    phase: DispatchPhase,
    event: Option<&ParallelizedEvent>,
    context: Option<EventContext>,
)
    requires
        dispatch.wf(),
        call_ensures(EventDispatch::phase, (&dispatch,), phase),
        call_ensures(EventDispatch::current_event, (&dispatch,), event),
        call_ensures(EventDispatch::context, (&dispatch,), context),
    ensures
        phase == dispatch@.phase,
        event is None <==> phase is Finished,
        context is None <==> phase is Finished,
        event matches Some(event) ==> *event == dispatch.batch()[dispatch@.position as int],
        context matches Some(context) ==> {
            let event = dispatch.batch()[dispatch@.position as int];
            &&& context.block_number == event.block_number
            &&& context.block_timestamp == event.block_timestamp
            &&& context.event_id@ == event.event_id@
            &&& context.event.from_address.bytes == event.event.from_address.bytes
            &&& context.event.keys@ == event.event.keys@
            &&& context.event.data@ == event.event.data@
        },
{
}

/// When the processors for an event are known, the first of them is asked, and if there is none the
/// catch-all processor is up.
pub proof fn law_first_processor_is_asked()
    ensures
        forall|dispatch: &mut EventDispatch, processors: usize, status: Option<EventStatus>|
            #[trigger]
            call_ensures(
                EventDispatch::step,
                (dispatch, DispatchReply::Processors(processors)),
                status,
            ) && dispatch@.phase is Select ==> {
                &&& status is None
                &&& final(dispatch).batch() == dispatch.batch()
                &&& final(dispatch)@.events == dispatch@.events
                &&& final(dispatch)@.position == dispatch@.position
                &&& final(dispatch)@.processors == processors
                &&& !final(dispatch)@.processed
                &&& processors > 0 ==> final(dispatch)@.phase == DispatchPhase::Validate(0)
                &&& processors == 0 ==> final(dispatch)@.phase is CatchAll
            },
{
}

/// A processor that takes the event processes it.
pub proof fn law_processor_that_takes_processes()
    ensures
        forall|dispatch: &mut EventDispatch, status: Option<EventStatus>| #[trigger]
            call_ensures(EventDispatch::step, (dispatch, DispatchReply::Validated(true)), status)
                && dispatch@.phase is Validate ==> {
                &&& status is None
                &&& final(dispatch).batch() == dispatch.batch()
                &&& final(dispatch)@ == (DispatchView {
                    phase: DispatchPhase::Process(dispatch@.phase->Validate_0),
                    ..dispatch@
                })
            },
{
}

/// Behind a processor that does not take the event, or has processed it, the next is asked. Behind
/// the last one the event is left if one has processed it, and else the catch-all processor is up.
/// Only what was processed is counted: as a success or as a failure.
pub proof fn law_every_processor_is_asked()
    ensures
        forall|dispatch: &mut EventDispatch, reply: DispatchReply, status: Option<EventStatus>|
            #[trigger]
            call_ensures(EventDispatch::step, (dispatch, reply), status) && dispatch.wf() && ((
            dispatch@.phase is Validate && reply == DispatchReply::Validated(false)) || (
            dispatch@.phase is Process && reply is Processed)) ==> {
                let k = if dispatch@.phase is Validate {
                    dispatch@.phase->Validate_0
                } else {
                    dispatch@.phase->Process_0
                };
                let succeeded = reply == DispatchReply::Processed(true);
                let processed = dispatch@.processed || succeeded;
                &&& reply is Validated ==> status is None
                &&& succeeded ==> status == Some(EventStatus::Success)
                &&& reply == DispatchReply::Processed(false) ==> status == Some(
                    EventStatus::Failed,
                )
                &&& final(dispatch).batch() == dispatch.batch()
                &&& final(dispatch)@.events == dispatch@.events
                &&& final(dispatch)@.processors == dispatch@.processors
                &&& final(dispatch)@.processed == processed
                &&& k + 1 < dispatch@.processors ==> final(dispatch)@.position == dispatch@.position
                    && final(dispatch)@.phase == DispatchPhase::Validate((k + 1) as usize)
                &&& k + 1 >= dispatch@.processors && !processed ==> final(dispatch)@.position
                    == dispatch@.position && final(dispatch)@.phase is CatchAll
                &&& k + 1 >= dispatch@.processors && processed ==> final(dispatch)@.position
                    == dispatch@.position + 1 && (final(dispatch)@.phase is Finished
                    || final(dispatch)@.phase is Select) && (final(dispatch)@.phase is Finished
                    <==> final(dispatch)@.position == dispatch@.events)
            },
{
}

/// Behind the catch-all processor the event is left. Only its failure is counted.
pub proof fn law_catch_all_is_the_last()
    ensures
        forall|dispatch: &mut EventDispatch, success: bool, status: Option<EventStatus>| #[trigger]
            call_ensures(EventDispatch::step, (dispatch, DispatchReply::CaughtAll(success)), status)
                && dispatch@.phase is CatchAll ==> {
                &&& success ==> status is None
                &&& !success ==> status == Some(EventStatus::Failed)
                &&& final(dispatch).batch() == dispatch.batch()
                &&& final(dispatch)@.events == dispatch@.events
                &&& final(dispatch)@.position == dispatch@.position + 1
                &&& final(dispatch)@.phase is Finished || final(dispatch)@.phase is Select
                &&& final(dispatch)@.phase is Finished <==> final(dispatch)@.position
                    == dispatch@.events
            },
{
}

} // verus!
