//! A run of the indexer, from the first check to its end.

use crate::allocation::{
    allocation_for, available_threads, strategy_named, AllocationStrategy, RuntimeAllocation,
};
use crate::config::{
    all_tags_valid, is_written, lemma_tags, names_first_without_dash, refuses_tag,
    ContractDefinition, IndexingOptions, PoolPlan, ToriiArgs,
};
use crate::distinct::texts;
use crate::error::{supported_spec, RunError, Service};
use crate::places::{law_places, places};
use crate::selector::dashes;
use crate::services::{activity_supported, lemma_plan_tells, tells_services, ServicePlan};
use crate::text::{has_prefix, lowercase};
use vstd::prelude::*;
use vstd::string::StringExecFns;

verus! {

/// Runs the indexer with settings.
#[derive(Debug)]
pub struct Runner {
    /// The settings.
    pub args: ToriiArgs,
    /// The version that the provider is told.
    pub version_spec: String,
}

/// What a run is based on.
#[derive(Debug)]
pub struct Run {
    /// The settings.
    pub args: ToriiArgs,
    /// The version that the provider is told.
    pub version_spec: String,
    /// How the threads are divided.
    pub allocation: RuntimeAllocation,
}

/// Where a run stands.
#[derive(Debug)]
pub enum RunState {
    /// The settings are being written to a file.
    Dumping(Run),
    /// The provider is being asked for its version.
    Checking(Run),
    /// The contracts are being looked up.
    Verifying(Run),
    /// The database is being reached.
    Connecting(Run),
    /// The database is being brought up to date.
    Migrating(Run),
    /// The services are running.
    Serving,
    /// The run has ended.
    Finished,
}

/// How a service ended.
#[derive(Debug)]
pub enum ServiceEnd {
    /// Without an error.
    Returned,
    /// With an error.
    Failed(String),
    /// With a panic.
    Panicked(String),
}

/// What was learnt from the outside.
#[derive(Debug)]
pub enum RunReply {
    /// The settings have been written.
    Dumped,
    /// The version that the provider follows.
    SpecVersion(String),
    /// Of each contract, whether it was found.
    Deployed(Vec<bool>),
    /// The database answers.
    Connected,
    /// The database is up to date.
    Migrated,
    /// A service ended.
    ServiceEnded(Service, ServiceEnd),
    /// A signal asks for the end of the run.
    Signalled,
}

/// What is to be done next.
#[derive(Debug)]
pub enum RunAction {
    /// Write these settings to this file.
    DumpConfig(String, ToriiArgs),
    /// Ask the provider at an address for its version, as this agent.
    FetchSpecVersion(String, String),
    /// Look these contracts up.
    LookUpContracts(Vec<ContractDefinition>),
    /// Reach the database.
    Connect(PoolPlan),
    /// Bring the database up to date, with the migrations of this directory too.
    Migrate(Option<String>),
    /// Start the services, and wait until one ends or a signal comes.
    Serve(ServicePlan),
    /// End the run.
    Exit(Result<(), RunError>),
}

/// Whether a version of the RPC specification is supported.
pub open spec fn spec_supported(version: Seq<char>) -> bool {
    supported_spec().is_prefix_of(version)
}

/// The contracts that were not found.
pub open spec fn undeployed(
    contracts: Seq<ContractDefinition>,
    deployed: Seq<bool>,
) -> Seq<ContractDefinition>
    decreases contracts.len(),
{
    if contracts.len() == 0 {
        Seq::empty()
    } else {
        let front = undeployed(contracts.drop_last(), deployed);
        if deployed[contracts.len() - 1] {
            front
        } else {
            front.push(contracts.last())
        }
    }
}

/// The contracts that were not found, in their order.
pub fn verify_contracts_deployed(contracts: &Vec<ContractDefinition>, deployed: &Vec<bool>) -> (
missing: Vec<ContractDefinition>)
    requires
        contracts@.len() == deployed@.len(),
    ensures
        missing@ == undeployed(contracts@, deployed@),
{
    let mut missing: Vec<ContractDefinition> = Vec::new();
    let mut i: usize = 0;
    while i < contracts.len()
        invariant
            i <= contracts@.len(),
            contracts@.len() == deployed@.len(),
            missing@ == undeployed(contracts@.take(i as int), deployed@),
        decreases contracts@.len() - i,
    {
        proof {
            assert(contracts@.take(i + 1).drop_last() =~= contracts@.take(i as int));
        }
        if !deployed[i] {
            missing.push(contracts[i]);
        }
        i = i + 1;
    }
    assert(contracts@.take(contracts@.len() as int) =~= contracts@);
    missing
}

/// How the threads are divided on a machine with `cpu_count` processors.
pub open spec fn run_allocation(args: ToriiArgs, cpu_count: int) -> (int, int) {
    allocation_for(
        cpu_count,
        strategy_named(lowercase(args.runner.allocation_strategy@)),
        args.runner.query_threads as int,
        args.runner.indexer_threads as int,
    )
}

/// Whether two texts that need not be there are the same.
pub open spec fn same_option(a: Option<String>, b: Option<String>) -> bool {
    match (a, b) {
        (Some(a), Some(b)) => a@ == b@,
        (None, None) => true,
        _ => false,
    }
}

impl Run {
    /// Whether the numbers of threads can be added and multiplied as a run needs it.
    pub open spec fn fits(&self) -> bool {
        &&& self.allocation.query_threads + self.allocation.indexer_threads <= usize::MAX
        &&& self.args.indexing.max_concurrent_tasks == 100 ==> self.allocation.indexer_threads * 8
            <= usize::MAX
    }

    /// Whether this is the start of a run with those settings.
    pub open spec fn is_start(&self, runner: Runner, cpu_count: int) -> bool {
        &&& self.version_spec == runner.version_spec
        &&& (
            self.allocation.query_threads as int,
            self.allocation.indexer_threads as int,
        ) == run_allocation(runner.args, cpu_count)
        &&& self.allocation.main_threads == 1
    }
}

impl RunState {
    /// What the run is based on, while it is needed.
    pub open spec fn run(&self) -> Option<Run> {
        match *self {
            RunState::Dumping(run) => Some(run),
            RunState::Checking(run) => Some(run),
            RunState::Verifying(run) => Some(run),
            RunState::Connecting(run) => Some(run),
            RunState::Migrating(run) => Some(run),
            RunState::Serving => None,
            RunState::Finished => None,
        }
    }

    /// What holds at all times.
    pub open spec fn wf(&self) -> bool {
        self.run() matches Some(run) ==> run.fits()
    }

    /// Whether a reply answers what is to be done.
    pub open spec fn expects(&self, reply: RunReply) -> bool {
        match (*self, reply) {
            (RunState::Dumping(_), RunReply::Dumped) => true,
            (RunState::Checking(_), RunReply::SpecVersion(_)) => true,
            (RunState::Verifying(run), RunReply::Deployed(deployed)) => deployed@.len()
                == run.args.indexing.contracts@.len(),
            (RunState::Connecting(_), RunReply::Connected) => true,
            (RunState::Migrating(_), RunReply::Migrated) => true,
            (RunState::Serving, RunReply::ServiceEnded(_, _)) => true,
            (RunState::Serving, RunReply::Signalled) => true,
            _ => false,
        }
    }

    /// How far the run has come.
    pub open spec fn rank(&self) -> int {
        match *self {
            RunState::Dumping(_) => 0,
            RunState::Checking(_) => 1,
            RunState::Verifying(_) => 2,
            RunState::Connecting(_) => 3,
            RunState::Migrating(_) => 4,
            RunState::Serving => 5,
            RunState::Finished => 6,
        }
    }
}

/// The provider is asked next: the world is among the contracts from here on.
pub open spec fn asks_provider(before: Run, next: RunState, action: RunAction) -> bool {
    &&& next matches RunState::Checking(run) && run.args.is_with_world(before.args)
        && run.version_spec == before.version_spec && run.allocation == before.allocation
    &&& action matches RunAction::FetchSpecVersion(url, agent) && url@ == before.args.rpc@
        && agent@ == "Torii/"@ + before.version_spec@
}

/// The database is reached next.
pub open spec fn connects(before: Run, next: RunState, action: RunAction) -> bool {
    &&& next == RunState::Connecting(before)
    &&& action matches RunAction::Connect(plan) && plan.follows(before.args, before.allocation)
}

/// The run ends with an error.
pub open spec fn fails(next: RunState, action: RunAction) -> bool {
    &&& next is Finished
    &&& action matches RunAction::Exit(result) && result is Err
}

/// The error that a run ends with.
pub open spec fn failure(action: RunAction) -> RunError {
    action->Exit_0->Err_0
}

/// How the end of a service ends the run.
pub open spec fn service_result(
    result: Result<(), RunError>,
    service: Service,
    end: ServiceEnd,
) -> bool {
    match end {
        ServiceEnd::Returned => result is Ok,
        ServiceEnd::Failed(reason) => result == Err::<(), RunError>(
            RunError::ServiceFailed(service, reason),
        ),
        ServiceEnd::Panicked(reason) => result == Err::<(), RunError>(
            RunError::ServicePanicked(service, reason),
        ),
    }
}

/// What follows a reply.
pub open spec fn follows(
    state: RunState,
    reply: RunReply,
    next: RunState,
    action: RunAction,
) -> bool {
    match (state, reply) {
        (RunState::Dumping(run), RunReply::Dumped) => asks_provider(run, next, action),
        (RunState::Checking(run), RunReply::SpecVersion(version)) => if !spec_supported(version@) {
            &&& fails(next, action)
            &&& failure(action) == RunError::UnsupportedSpec(version)
        } else if run.args.runner.check_contracts {
            &&& next == RunState::Verifying(run)
            &&& action matches RunAction::LookUpContracts(contracts) && contracts@
                == run.args.indexing.contracts@
        } else {
            connects(run, next, action)
        },
        (RunState::Verifying(run), RunReply::Deployed(deployed)) => {
            let missing = undeployed(run.args.indexing.contracts@, deployed@);
            if missing.len() > 0 {
                &&& fails(next, action)
                &&& failure(action) matches RunError::ContractsNotDeployed(contracts)
                    && contracts@ == missing
            } else {
                connects(run, next, action)
            }
        },
        (RunState::Connecting(run), RunReply::Connected) => {
            &&& next == RunState::Migrating(run)
            &&& action matches RunAction::Migrate(directory) && same_option(
                directory,
                run.args.sql.migrations,
            )
        },
        (RunState::Migrating(run), RunReply::Migrated) => if !activity_supported(run.args) {
            &&& fails(next, action)
            &&& failure(action) == RunError::ActivityWithoutTransactions
        } else if !all_tags_valid(texts(run.args.sql.historical@)) {
            &&& fails(next, action)
            &&& refuses_tag(failure(action), texts(run.args.sql.historical@))
        } else {
            &&& next is Serving
            &&& action matches RunAction::Serve(plan) && plan.follows(run.args, run.allocation)
        },
        (RunState::Serving, RunReply::ServiceEnded(service, end)) => {
            &&& next is Finished
            &&& action matches RunAction::Exit(result) && service_result(result, service, end)
        },
        (RunState::Serving, RunReply::Signalled) => {
            &&& next is Finished
            &&& action matches RunAction::Exit(result) && result is Ok
        },
        _ => false,
    }
}

fn ask_provider(run: Run) -> (result: (RunState, RunAction))
    ensures
        asks_provider(run, result.0, result.1),
{
    let mut agent: String = String::from_str("Torii/");
    agent.append(run.version_spec.as_str());
    let action = RunAction::FetchSpecVersion(run.args.rpc.clone(), agent);
    (
        RunState::Checking(
            Run {
                args: run.args.with_world(),
                version_spec: run.version_spec,
                allocation: run.allocation,
            },
        ),
        action,
    )
}

fn connect(run: Run) -> (result: (RunState, RunAction))
    requires
        run.fits(),
    ensures
        connects(run, result.0, result.1),
{
    let plan: PoolPlan = PoolPlan::new(&run.args, &run.allocation);
    (RunState::Connecting(run), RunAction::Connect(plan))
}

fn exit(result: Result<(), RunError>) -> (end: (RunState, RunAction))
    ensures
        end == (RunState::Finished, RunAction::Exit(result)),
{
    (RunState::Finished, RunAction::Exit(result))
}

/// How the end of a service ends the run.
pub fn handle_task(service: Service, end: ServiceEnd) -> (result: Result<(), RunError>)
    ensures
        service_result(result, service, end),
{
    match end {
        ServiceEnd::Returned => Ok(()),
        ServiceEnd::Failed(reason) => Err(RunError::ServiceFailed(service, reason)),
        ServiceEnd::Panicked(reason) => Err(RunError::ServicePanicked(service, reason)),
    }
}

impl Runner {
    /// A runner with settings.
    pub fn new(args: ToriiArgs, version_spec: String) -> (runner: Self)
        ensures
            runner.args == args,
            runner.version_spec == version_spec,
    {
        Runner { args, version_spec }
    }

    /// Begins a run on a machine with `cpu_count` processors.
    pub fn run(self, cpu_count: usize) -> (result: (RunState, RunAction))
        requires
            available_threads(cpu_count as int) * 7 <= usize::MAX,
            self.args.indexing.max_concurrent_tasks == 100 ==> cpu_count * 8 <= usize::MAX,
        ensures
            result.0.wf(),
            match self.args.dump_config {
                Some(path) => {
                    &&& result.0 matches RunState::Dumping(run) && run.args == self.args
                        && run.is_start(self, cpu_count as int)
                    &&& result.1 matches RunAction::DumpConfig(file, dump) && file@ == path@
                        && dump.is_dump_of(self.args)
                },
                None => exists|run: Run|
                    #![trigger run.is_start(self, cpu_count as int)]
                    run.args == self.args && run.is_start(self, cpu_count as int) && asks_provider(
                        run,
                        result.0,
                        result.1,
                    ),
            },
    {
        let strategy: AllocationStrategy = AllocationStrategy::from(
            self.args.runner.allocation_strategy.as_str(),
        );
        let allocation: RuntimeAllocation = RuntimeAllocation::calculate(
            cpu_count,
            &strategy,
            self.args.runner.query_threads,
            self.args.runner.indexer_threads,
        );
        let path: Option<String> = match &self.args.dump_config {
            Some(path) => Some(path.clone()),
            None => None,
        };
        let run = Run { args: self.args, version_spec: self.version_spec, allocation };
        assert(run.is_start(self, cpu_count as int));
        match path {
            Some(path) => {
                let dump: ToriiArgs = run.args.dumped();
                (RunState::Dumping(run), RunAction::DumpConfig(path, dump))
            },
            None => ask_provider(run),
        }
    }
}

impl RunState {
    /// Takes a reply, and says what is to be done next.
    pub fn step(self, reply: RunReply) -> (result: (RunState, RunAction))
        requires
            self.wf(),
            self.expects(reply),
        ensures
            result.0.wf(),
            follows(self, reply, result.0, result.1),
    {
        match (self, reply) {
            (RunState::Dumping(run), RunReply::Dumped) => ask_provider(run),
            (RunState::Checking(run), RunReply::SpecVersion(version)) => {
                if !has_prefix(version.as_str(), "0.9") {
                    exit(Err(RunError::UnsupportedSpec(version)))
                } else if run.args.runner.check_contracts {
                    let contracts: Vec<ContractDefinition> = run.args.indexing.contracts.clone();
                    assert(contracts@ =~= run.args.indexing.contracts@);
                    (RunState::Verifying(run), RunAction::LookUpContracts(contracts))
                } else {
                    connect(run)
                }
            },
            (RunState::Verifying(run), RunReply::Deployed(deployed)) => {
                let missing: Vec<ContractDefinition> = verify_contracts_deployed(
                    &run.args.indexing.contracts,
                    &deployed,
                );
                if !missing.is_empty() {
                    exit(Err(RunError::ContractsNotDeployed(missing)))
                } else {
                    connect(run)
                }
            },
            (RunState::Connecting(run), RunReply::Connected) => {
                let directory: Option<String> = match &run.args.sql.migrations {
                    Some(directory) => Some(directory.clone()),
                    None => None,
                };
                (RunState::Migrating(run), RunAction::Migrate(directory))
            },
            (RunState::Migrating(run), RunReply::Migrated) => {
                match ServicePlan::new(run.args, &run.allocation) {
                    Ok(plan) => (RunState::Serving, RunAction::Serve(plan)),
                    Err(error) => exit(Err(error)),
                }
            },
            (RunState::Serving, RunReply::ServiceEnded(service, end)) => {
                exit(handle_task(service, end))
            },
            (RunState::Serving, RunReply::Signalled) => exit(Ok(())),
            (state, _) => (state, RunAction::Exit(Ok(()))),
        }
    }
}

/// A step of a run: a state, the reply to what it asked for, the state that follows and what it
/// asks for.
pub struct RunStep {
    /// The state before.
    pub before: RunState,
    /// The reply.
    pub reply: RunReply,
    /// The state after.
    pub after: RunState,
    /// What is to be done next.
    pub action: RunAction,
}

/// Whether steps follow each other in one run.
pub open spec fn is_path(steps: Seq<RunStep>) -> bool {
    &&& forall|i: int|
        #![trigger steps[i]]
        0 <= i < steps.len() ==> steps[i].before.expects(steps[i].reply) && follows(
            steps[i].before,
            steps[i].reply,
            steps[i].after,
            steps[i].action,
        )
    &&& forall|i: int|
        #![trigger steps[i].after]
        0 <= i < steps.len() - 1 ==> steps[i].after == steps[i + 1].before
}

/// Whether a run begins there.
pub open spec fn is_initial(state: RunState) -> bool {
    state is Dumping || state is Checking
}

/// Whether a reply names a supported version.
pub open spec fn names_supported_version(reply: RunReply) -> bool {
    reply matches RunReply::SpecVersion(version) && spec_supported(version@)
}

/// Whether a reply finds every contract.
pub open spec fn finds_every_contract(reply: RunReply) -> bool {
    reply matches RunReply::Deployed(deployed) && forall|i: int|
        0 <= i < deployed@.len() ==> deployed@[i]
}

/// Whether the provider named a supported version in one of the steps.
pub open spec fn version_was_supported(steps: Seq<RunStep>) -> bool {
    exists|i: int|
        0 <= i < steps.len() && names_supported_version((#[trigger] steps[i]).reply)
}

/// Whether every contract was found in one of the steps.
pub open spec fn contracts_were_found(steps: Seq<RunStep>) -> bool {
    exists|i: int|
        0 <= i < steps.len() && finds_every_contract((#[trigger] steps[i]).reply)
}

/// Whether the database was reached in one of the steps.
pub open spec fn database_was_reached(steps: Seq<RunStep>) -> bool {
    exists|i: int| 0 <= i < steps.len() && (#[trigger] steps[i]).reply is Connected
}

/// What has been made sure of when a run is in a state.
pub open spec fn made_sure(steps: Seq<RunStep>, state: RunState, first: Run) -> bool {
    &&& state.run() matches Some(run) ==> run.args.runner == first.args.runner
    &&& state is Verifying || state is Connecting || state is Migrating || state is Serving
        ==> version_was_supported(steps)
    &&& (state is Connecting || state is Migrating || state is Serving)
        && first.args.runner.check_contracts ==> contracts_were_found(steps)
    &&& state is Migrating || state is Serving ==> database_was_reached(steps)
}

proof fn lemma_nothing_missing(contracts: Seq<ContractDefinition>, deployed: Seq<bool>)
    requires
        contracts.len() <= deployed.len(),
        undeployed(contracts, deployed).len() == 0,
    ensures
        forall|i: int| 0 <= i < contracts.len() ==> deployed[i],
    decreases contracts.len(),
{
    if contracts.len() > 0 {
        lemma_nothing_missing(contracts.drop_last(), deployed);
    }
}

proof fn lemma_still_sure(steps: Seq<RunStep>, step: RunStep)
    ensures
        version_was_supported(steps) ==> version_was_supported(steps.push(step)),
        contracts_were_found(steps) ==> contracts_were_found(steps.push(step)),
        database_was_reached(steps) ==> database_was_reached(steps.push(step)),
{
    let longer = steps.push(step);
    if version_was_supported(steps) {
        let i = choose|i: int|
            0 <= i < steps.len() && names_supported_version((#[trigger] steps[i]).reply);
        assert(names_supported_version(longer[i].reply));
    }
    if contracts_were_found(steps) {
        let i = choose|i: int|
            0 <= i < steps.len() && finds_every_contract((#[trigger] steps[i]).reply);
        assert(finds_every_contract(longer[i].reply));
    }
    if database_was_reached(steps) {
        let i = choose|i: int| 0 <= i < steps.len() && (#[trigger] steps[i]).reply is Connected;
        assert(longer[i].reply is Connected);
    }
}

proof fn lemma_step_made_sure(steps: Seq<RunStep>, step: RunStep, first: Run)
    requires
        made_sure(steps, step.before, first),
        step.before.expects(step.reply),
        follows(step.before, step.reply, step.after, step.action),
    ensures
        made_sure(steps.push(step), step.after, first),
{
    let longer = steps.push(step);
    lemma_still_sure(steps, step);
    assert(longer[steps.len() as int] == step);
    match (step.before, step.reply) {
        (RunState::Checking(_), RunReply::SpecVersion(version)) => {
            assert(spec_supported(version@) ==> names_supported_version(
                longer[steps.len() as int].reply,
            ));
        },
        (RunState::Verifying(run), RunReply::Deployed(deployed)) => {
            let contracts = run.args.indexing.contracts@;
            if undeployed(contracts, deployed@).len() == 0 {
                lemma_nothing_missing(contracts, deployed@);
                assert(finds_every_contract(longer[steps.len() as int].reply));
            }
        },
        (RunState::Connecting(_), RunReply::Connected) => {
            assert(longer[steps.len() as int].reply is Connected);
        },
        _ => {},
    }
}

#[verifier::spinoff_prover]
proof fn lemma_made_sure(steps: Seq<RunStep>, first: Run)
    requires
        steps.len() > 0,
        is_path(steps),
        is_initial(steps[0].before),
        steps[0].before.run() == Some(first),
    ensures
        made_sure(steps, steps.last().after, first),
    decreases steps.len(),
{
    let front = steps.drop_last();
    let last = steps[steps.len() - 1];
    assert(front.push(last) =~= steps);
    if steps.len() > 1 {
        assert forall|i: int|
            #![trigger front[i]]
            0 <= i < front.len() implies front[i].before.expects(front[i].reply) && follows(
            front[i].before,
            front[i].reply,
            front[i].after,
            front[i].action,
        ) by {
            assert(front[i] == steps[i]);
        }
        assert forall|i: int|
            #![trigger front[i].after]
            0 <= i < front.len() - 1 implies front[i].after == front[i + 1].before by {
            assert(steps[i].after == steps[i + 1].before);
        }
        assert(front[0] == steps[0]);
        lemma_made_sure(front, first);
        assert(steps[steps.len() - 2].after == last.before);
        assert(front.last() == steps[steps.len() - 2]);
    }
    lemma_step_made_sure(front, last, first);
}

/// The services start only after the provider named a supported version, every contract was
/// found if they are to be looked up, and the database was reached.
pub proof fn law_services_start_only_when_checked(steps: Seq<RunStep>, first: Run)
    requires
        steps.len() > 0,
        is_path(steps),
        is_initial(steps[0].before),
        steps[0].before.run() == Some(first),
        steps.last().after is Serving,
    ensures
        version_was_supported(steps),
        first.args.runner.check_contracts ==> contracts_were_found(steps),
        database_was_reached(steps),
{
    lemma_made_sure(steps, first);
}

/// The database is reached only after the provider named a supported version and, if they are
/// to be looked up, every contract was found.
pub proof fn law_database_is_reached_only_when_checked(steps: Seq<RunStep>, first: Run)
    requires
        steps.len() > 0,
        is_path(steps),
        is_initial(steps[0].before),
        steps[0].before.run() == Some(first),
        steps.last().action is Connect,
    ensures
        version_was_supported(steps),
        first.args.runner.check_contracts ==> contracts_were_found(steps),
{
    lemma_made_sure(steps, first);
    assert(steps.last() == steps[steps.len() - 1]);
}

/// Every reply brings the run closer to its end.
pub proof fn law_run_moves_on(
    state: RunState,
    reply: RunReply,
    next: RunState,
    action: RunAction,
)
    requires
        follows(state, reply, next, action),
    ensures
        state.rank() < next.rank() <= 6,
{
}

/// The run exits exactly when it is finished, and then no reply is expected any more.
pub proof fn law_exit_is_final(
    state: RunState,
    reply: RunReply,
    next: RunState,
    action: RunAction,
)
    requires
        follows(state, reply, next, action),
    ensures
        action is Exit <==> next is Finished,
        next is Finished ==> forall|later: RunReply| !next.expects(later),
{
}

/// Every contract that was not found is reported, and no other: none is reported exactly if each
/// was found.
pub proof fn law_undeployed_contracts_are_reported(
    contracts: Seq<ContractDefinition>,
    deployed: Seq<bool>,
)
    requires
        contracts.len() == deployed.len(),
    ensures
        undeployed(contracts, deployed).len() == 0 <==> forall|i: int|
            0 <= i < deployed.len() ==> deployed[i],
        forall|i: int|
            0 <= i < contracts.len() && !deployed[i] ==> undeployed(contracts, deployed).contains(
                #[trigger] contracts[i],
            ),
        forall|k: int|
            0 <= k < undeployed(contracts, deployed).len() ==> exists|i: int|
                0 <= i < contracts.len() && !deployed[i] && contracts[i]
                    == #[trigger] undeployed(contracts, deployed)[k],
{
    lemma_reports_missing(contracts, deployed);
    if undeployed(contracts, deployed).len() == 0 {
        lemma_nothing_missing(contracts, deployed);
    } else if forall|i: int| 0 <= i < deployed.len() ==> deployed[i] {
        lemma_nothing_reported(contracts, deployed);
    }
}

proof fn lemma_nothing_reported(contracts: Seq<ContractDefinition>, deployed: Seq<bool>)
    requires
        contracts.len() <= deployed.len(),
        forall|i: int| 0 <= i < deployed.len() ==> deployed[i],
    ensures
        undeployed(contracts, deployed).len() == 0,
    decreases contracts.len(),
{
    if contracts.len() > 0 {
        lemma_nothing_reported(contracts.drop_last(), deployed);
    }
}

proof fn lemma_reports_missing(contracts: Seq<ContractDefinition>, deployed: Seq<bool>)
    requires
        contracts.len() <= deployed.len(),
    ensures
        forall|i: int|
            0 <= i < contracts.len() && !deployed[i] ==> undeployed(contracts, deployed).contains(
                #[trigger] contracts[i],
            ),
        forall|k: int|
            0 <= k < undeployed(contracts, deployed).len() ==> exists|i: int|
                0 <= i < contracts.len() && !deployed[i] && contracts[i]
                    == #[trigger] undeployed(contracts, deployed)[k],
    decreases contracts.len(),
{
    if contracts.len() > 0 {
        let front = contracts.drop_last();
        let before = undeployed(front, deployed);
        let after = undeployed(contracts, deployed);
        lemma_reports_missing(front, deployed);
        assert forall|i: int| 0 <= i < contracts.len() && !deployed[i] implies after.contains(
            #[trigger] contracts[i],
        ) by {
            if i < front.len() {
                assert(before.contains(front[i]));
                let j = choose|j: int| 0 <= j < before.len() && before[j] == front[i];
                assert(after[j] == contracts[i]);
            } else {
                assert(after[before.len() as int] == contracts[i]);
            }
        }
        assert forall|k: int| 0 <= k < after.len() implies exists|i: int|
            0 <= i < contracts.len() && !deployed[i] && contracts[i] == #[trigger] after[k] by {
            if k < before.len() {
                let i = choose|i: int|
                    0 <= i < front.len() && !deployed[i] && front[i] == before[k];
                assert(contracts[i] == after[k]);
            } else {
                assert(contracts[contracts.len() - 1] == after[k]);
            }
        }
    }
}

proof fn lemma_supported(version: Seq<char>)
    ensures
        spec_supported(version) <==> version.len() >= 3 && version[0] == '0' && version[1] == '.'
            && version[2] == '9',
{
    reveal_strlit("0.9");
    let supported = "0.9"@;
    assert(supported.len() == 3 && supported[0] == '0' && supported[1] == '.' && supported[2]
        == '9');
    if spec_supported(version) {
        assert(version.subrange(0, 3)[0] == version[0]);
        assert(version.subrange(0, 3)[1] == version[1]);
        assert(version.subrange(0, 3)[2] == version[2]);
    } else if version.len() >= 3 && version[0] == '0' && version[1] == '.' && version[2] == '9' {
        assert(version.subrange(0, 3) =~= supported);
    }
}

/// A run begins with the settings as they were given, and with the threads that its strategy and
/// its overrides give. It writes the settings first if they are to be written, and else asks the
/// provider first.
pub proof fn law_run_begins(
    runner: Runner,
    cpu_count: usize,
    state: RunState,
    action: RunAction,
    name: &str,
    strategy: AllocationStrategy,
    allocation: RuntimeAllocation,
)
    requires
        call_ensures(Runner::run, (runner, cpu_count), (state, action)),
        name@ == runner.args.runner.allocation_strategy@,
        call_ensures(<AllocationStrategy as From<&str>>::from, (name,), strategy),
        call_ensures(
            RuntimeAllocation::calculate,
            (
                cpu_count,
                &strategy,
                runner.args.runner.query_threads,
                runner.args.runner.indexer_threads,
            ),
            allocation,
        ),
    ensures
        state.run() is Some,
        state.run()->0.allocation == allocation,
        state.run()->0.version_spec@ == runner.version_spec@,
        runner.args.dump_config matches Some(path) ==> {
            &&& state is Dumping
            &&& state->Dumping_0.args == runner.args
            &&& action is DumpConfig
            &&& action->DumpConfig_0@ == path@
            &&& is_written(action->DumpConfig_1, runner.args)
        },
        runner.args.dump_config is None ==> {
            &&& state is Checking
            &&& action is FetchSpecVersion
            &&& action->FetchSpecVersion_0@ == runner.args.rpc@
            &&& action->FetchSpecVersion_1@ == "Torii/"@ + runner.version_spec@
            &&& forall|args: ToriiArgs| #[trigger]
                call_ensures(ToriiArgs::with_world, (runner.args,), args)
                    ==> state->Checking_0.args.indexing.contracts@ == args.indexing.contracts@
            &&& state->Checking_0.args == (ToriiArgs {
                indexing: IndexingOptions {
                    contracts: state->Checking_0.args.indexing.contracts,
                    ..runner.args.indexing
                },
                ..runner.args
            })
        },
{
}

/// A runner holds what it is made with.
pub proof fn law_runner_holds_the_settings(args: ToriiArgs, version_spec: String, runner: Runner)
    requires
        call_ensures(Runner::new, (args, version_spec), runner),
    ensures
        runner.args == args,
        runner.version_spec == version_spec,
{
}

/// When the settings have been written, the provider is asked.
pub proof fn law_provider_is_asked_after_the_dump(run: Run, next: RunState, action: RunAction)
    requires
        call_ensures(RunState::step, (RunState::Dumping(run), RunReply::Dumped), (next, action)),
    ensures
        next is Checking,
        next->Checking_0.version_spec@ == run.version_spec@,
        next->Checking_0.allocation == run.allocation,
        action is FetchSpecVersion,
        action->FetchSpecVersion_0@ == run.args.rpc@,
        action->FetchSpecVersion_1@ == "Torii/"@ + run.version_spec@,
        forall|args: ToriiArgs| #[trigger]
            call_ensures(ToriiArgs::with_world, (run.args,), args)
                ==> next->Checking_0.args.indexing.contracts@ == args.indexing.contracts@,
        next->Checking_0.args == (ToriiArgs {
            indexing: IndexingOptions {
                contracts: next->Checking_0.args.indexing.contracts,
                ..run.args.indexing
            },
            ..run.args
        }),
{
}

/// A provider goes exactly if its version begins with 0.9. The contracts are then looked up, all of
/// them, if they are to be, and else the database is reached.
pub proof fn law_version_decides(run: Run, version: String, next: RunState, action: RunAction)
    requires
        call_ensures(
            RunState::step,
            (RunState::Checking(run), RunReply::SpecVersion(version)),
            (next, action),
        ),
    ensures
        ({
            let goes = version@.len() >= 3 && version@[0] == '0' && version@[1] == '.'
                && version@[2] == '9';
            &&& !goes ==> next is Finished && action is Exit && action->Exit_0 == Err::<
                (),
                RunError,
            >(RunError::UnsupportedSpec(version))
            &&& goes ==> next !is Finished
            &&& goes && run.args.runner.check_contracts ==> {
                &&& next == RunState::Verifying(run)
                &&& action is LookUpContracts
                &&& action->LookUpContracts_0@ == run.args.indexing.contracts@
            }
            &&& goes && !run.args.runner.check_contracts ==> next is Connecting
        }),
        next is Connecting ==> {
            &&& next == RunState::Connecting(run)
            &&& action is Connect
            &&& forall|plan: PoolPlan| #[trigger]
                call_ensures(PoolPlan::new, (&run.args, &run.allocation), plan) ==> {
                    &&& action->Connect_0.url@ == plan.url@
                    &&& action->Connect_0.require_ssl == plan.require_ssl
                    &&& action->Connect_0.min_connections == plan.min_connections
                    &&& action->Connect_0.max_connections == plan.max_connections
                    &&& action->Connect_0.acquire_timeout == plan.acquire_timeout
                    &&& action->Connect_0.idle_timeout == plan.idle_timeout
                }
        },
{
    lemma_supported(version@);
}

/// Holds where a contract was not found.
pub open spec fn not_found(deployed: Seq<bool>) -> spec_fn(int) -> bool {
    |i: int| !deployed[i]
}

/// Whether a list holds the contracts that were not found, in their order.
pub open spec fn lists_missing(
    missing: Seq<ContractDefinition>,
    contracts: Seq<ContractDefinition>,
    deployed: Seq<bool>,
) -> bool {
    let absent = places(contracts.len(), not_found(deployed));
    &&& missing.len() == absent.len()
    &&& forall|k: int|
        0 <= k < missing.len() ==> #[trigger] missing[k] == contracts[absent[k]]
}

proof fn lemma_lists_missing(contracts: Seq<ContractDefinition>, deployed: Seq<bool>)
    ensures
        lists_missing(undeployed(contracts, deployed), contracts, deployed),
    decreases contracts.len(),
{
    if contracts.len() > 0 {
        lemma_lists_missing(contracts.drop_last(), deployed);
        law_places((contracts.len() - 1) as nat, not_found(deployed));
    }
}

/// The contracts that were not found are listed, in their order and as often as they were looked
/// up: there are the places that they come from.
pub proof fn law_missing_contracts_are_listed(
    contracts: Vec<ContractDefinition>,
    deployed: Vec<bool>,
    missing: Vec<ContractDefinition>,
) -> (from: Seq<int>)
    requires
        call_ensures(verify_contracts_deployed, (&contracts, &deployed), missing),
    ensures
        from.len() == missing@.len(),
        forall|k: int|
            0 <= k < from.len() ==> 0 <= #[trigger] from[k] < contracts@.len()
                && !deployed@[from[k]] && missing@[k] == contracts@[from[k]],
        forall|k: int, l: int| 0 <= k < l < from.len() ==> #[trigger] from[k] < #[trigger] from[l],
        forall|i: int|
            0 <= i < contracts@.len() && !(#[trigger] deployed@[i]) ==> from.contains(i),
{
    let from = places(contracts@.len(), not_found(deployed@));
    lemma_lists_missing(contracts@, deployed@);
    law_places(contracts@.len(), not_found(deployed@));
    assert forall|i: int| 0 <= i < contracts@.len() && !(#[trigger] deployed@[i]) implies
        from.contains(i) by {
        assert(not_found(deployed@)(i));
    }
    from
}

/// The database is reached exactly if every contract was found. Else the run ends, and the error
/// lists the contracts that were not.
pub proof fn law_every_contract_must_be_found(
    run: Run,
    deployed: Vec<bool>,
    next: RunState,
    action: RunAction,
)
    requires
        deployed@.len() == run.args.indexing.contracts@.len(),
        call_ensures(
            RunState::step,
            (RunState::Verifying(run), RunReply::Deployed(deployed)),
            (next, action),
        ),
    ensures
        (forall|i: int| 0 <= i < deployed@.len() ==> deployed@[i]) ==> {
            &&& next == RunState::Connecting(run)
            &&& action is Connect
            &&& forall|plan: PoolPlan| #[trigger]
                call_ensures(PoolPlan::new, (&run.args, &run.allocation), plan) ==> {
                    &&& action->Connect_0.url@ == plan.url@
                    &&& action->Connect_0.require_ssl == plan.require_ssl
                    &&& action->Connect_0.min_connections == plan.min_connections
                    &&& action->Connect_0.max_connections == plan.max_connections
                    &&& action->Connect_0.acquire_timeout == plan.acquire_timeout
                    &&& action->Connect_0.idle_timeout == plan.idle_timeout
                }
        },
        (exists|i: int| 0 <= i < deployed@.len() && !deployed@[i]) ==> {
            &&& next is Finished
            &&& action is Exit
            &&& action->Exit_0 is Err
            &&& action->Exit_0->Err_0 is ContractsNotDeployed
            &&& forall|missing: Vec<ContractDefinition>| #[trigger]
                call_ensures(
                    verify_contracts_deployed,
                    (&run.args.indexing.contracts, &deployed),
                    missing,
                ) ==> action->Exit_0->Err_0->ContractsNotDeployed_0@ == missing@
        },
{
    law_undeployed_contracts_are_reported(run.args.indexing.contracts@, deployed@);
}

/// A database that answers is brought up to date, with the further migrations that are named.
pub proof fn law_database_is_brought_up_to_date(run: Run, next: RunState, action: RunAction)
    requires
        call_ensures(
            RunState::step,
            (RunState::Connecting(run), RunReply::Connected),
            (next, action),
        ),
    ensures
        next == RunState::Migrating(run),
        action is Migrate,
        action->Migrate_0 is Some <==> run.args.sql.migrations is Some,
        run.args.sql.migrations matches Some(directory) ==> action->Migrate_0->0@ == directory@,
{
}

/// When the database is up to date, the run ends with `ActivityWithoutTransactions` exactly if
/// activity is to be tracked and transactions are not indexed. Else the services start, told the
/// settings, exactly if every historical tag holds one dash.
pub proof fn law_services_start_unless_settings_contradict(
    run: Run,
    next: RunState,
    action: RunAction,
)
    requires
        call_ensures(
            RunState::step,
            (RunState::Migrating(run), RunReply::Migrated),
            (next, action),
        ),
    ensures
        run.args.activity.enabled && !run.args.indexing.transactions <==> next is Finished
            && action == RunAction::Exit(Err::<(), RunError>(RunError::ActivityWithoutTransactions)),
        ({
            let tags = run.args.sql.historical@;
            let dashed = forall|i: int| 0 <= i < tags.len() ==> dashes((#[trigger] tags[i])@) == 1;
            &&& !(run.args.activity.enabled && !run.args.indexing.transactions) && dashed ==> {
                &&& next is Serving
                &&& action is Serve
                &&& tells_services(action->Serve_0, run.args, run.allocation)
            }
            &&& !(run.args.activity.enabled && !run.args.indexing.transactions) && !dashed ==> {
                &&& next is Finished
                &&& action is Exit
                &&& action->Exit_0 is Err
                &&& names_first_without_dash(action->Exit_0->Err_0, tags)
            }
        }),
{
    lemma_tags(run.args.sql.historical@);
    if action is Serve {
        lemma_plan_tells(action->Serve_0, run.args, run.allocation);
    }
}

/// How a service ended decides how the run ends: without an error if it returned, and else with an
/// error that names the service and its reason.
pub proof fn law_end_of_a_service_is_told(
    service: Service,
    end: ServiceEnd,
    result: Result<(), RunError>,
    next: RunState,
    action: RunAction,
)
    requires
        call_ensures(handle_task, (service, end), result),
        call_ensures(
            RunState::step,
            (RunState::Serving, RunReply::ServiceEnded(service, end)),
            (next, action),
        ),
    ensures
        end is Returned <==> result is Ok,
        end matches ServiceEnd::Failed(reason) ==> result == Err::<(), RunError>(
            RunError::ServiceFailed(service, reason),
        ),
        end matches ServiceEnd::Panicked(reason) ==> result == Err::<(), RunError>(
            RunError::ServicePanicked(service, reason),
        ),
        next is Finished,
        action is Exit,
        end is Returned <==> action->Exit_0 is Ok,
        end !is Returned ==> action->Exit_0 == result,
{
}

/// A signal ends the run without an error.
pub proof fn law_signal_ends_the_run(next: RunState, action: RunAction)
    requires
        call_ensures(RunState::step, (RunState::Serving, RunReply::Signalled), (next, action)),
    ensures
        next is Finished,
        action is Exit,
        action->Exit_0 is Ok,
{
}

} // verus!
