//! What the services of a run are told.

use crate::allocation::RuntimeAllocation;
use crate::config::{
    activity_excluded_entrypoints, all_tags_valid, excluded_entrypoints, historical_models,
    lemma_default_entrypoints_differ, lemma_excluded, lemma_selectors_select, lemma_tags,
    names_first_without_dash, refuses_tag, selectors_of, selects_each_once, usual_entrypoints,
    ContractDefinition, EventProcessorConfig, ToriiArgs,
};
use crate::distinct::{
    distinct, distinct_texts, holds_each_once, law_distinct, lemma_distinct_holds_each_once,
    numbers, texts,
};
use crate::error::RunError;
use crate::events::Felt;
use crate::selector::{dashes, tag_selector};
use vstd::prelude::*;

verus! {

/// What the database is told. The lists of historical models and of entrypoints hold nothing twice.
#[derive(Debug)]
pub struct SqlConfig {
    /// Whether every member of every model is indexed.
    pub all_model_indices: bool,
    /// The members of models that are indexed, as the settings write them.
    pub model_indices: Vec<String>,
    /// The selectors of the models whose history is kept.
    pub historical_models: Vec<Felt>,
    /// The statements that follow a change of a model, as the settings write them.
    pub hooks: Vec<String>,
    /// What is summed up over models, as the settings write it.
    pub aggregators: Vec<String>,
    /// The size from which the log is cut.
    pub wal_truncate_size_threshold: u64,
    /// How often the database is optimized.
    pub optimize_interval: u64,
    /// Whether activity is tracked.
    pub activity_enabled: bool,
    /// How long a session lasts.
    pub activity_session_timeout: u64,
    /// The entrypoints that do not count as activity.
    pub activity_excluded_entrypoints: Vec<String>,
}

/// What the engine stores.
#[derive(Debug, Clone, Copy, PartialEq, Eq, Structural)]
pub struct IndexingFlags {
    /// Raw events.
    pub raw_events: bool,
}

/// What the engine fetches.
#[derive(Debug, Clone, Copy, PartialEq, Eq, Structural)]
pub struct FetchingFlags {
    /// Transactions.
    pub transactions: bool,
    /// The preconfirmed block.
    pub preconfirmed_block: bool,
}

/// How the engine fetches.
#[derive(Debug, Clone, Copy, PartialEq, Eq, Structural)]
pub struct FetcherConfig {
    /// The size of a batch of requests.
    pub batch_chunk_size: usize,
    /// The number of blocks that are fetched at once.
    pub blocks_chunk_size: u64,
    /// The number of events that are fetched at once.
    pub events_chunk_size: u64,
    /// The block of the world.
    pub world_block: u64,
    /// What is fetched.
    pub flags: FetchingFlags,
}

/// What the engine is told.
#[derive(Debug)]
pub struct EngineConfig {
    /// How many tasks run at once.
    pub max_concurrent_tasks: usize,
    /// How it fetches.
    pub fetcher_config: FetcherConfig,
    /// The time between two looks at the chain, in milliseconds.
    pub polling_interval: u64,
    /// What it stores.
    pub flags: IndexingFlags,
    /// What the event processors are told.
    pub event_processor_config: EventProcessorConfig,
    /// The block of the world.
    pub world_block: u64,
}

/// What the messaging service is told.
#[derive(Debug, Clone, Copy, PartialEq, Eq, Structural)]
pub struct MessagingConfig {
    /// How old a message may be, in seconds.
    pub max_age: u64,
    /// How far in the future a message may lie, in seconds.
    pub future_tolerance: u64,
    /// Whether a message must have a time.
    pub require_timestamp: bool,
}

/// How a runtime is set up.
#[derive(Debug, Clone, Copy)]
pub struct RuntimePlan {
    /// The number of its threads.
    pub threads: usize,
    /// The name of its threads.
    pub name: &'static str,
    /// The bytes of a thread's stack.
    pub stack_size: usize,
}

/// What all services are told.
#[derive(Debug)]
pub struct ServicePlan {
    /// The contracts to index.
    pub contracts: Vec<ContractDefinition>,
    /// What the database is told.
    pub sql: SqlConfig,
    /// Whether controllers are synchronized.
    pub controllers: bool,
    /// What the engine is told.
    pub engine: EngineConfig,
    /// Where artifacts are kept, a temporary directory if not named.
    pub artifacts_path: Option<String>,
    /// What the messaging service is told.
    pub messaging: MessagingConfig,
    /// How the runtime for queries is set up.
    pub query_runtime: RuntimePlan,
    /// How the runtime for indexing is set up.
    pub indexer_runtime: RuntimePlan,
}

/// The runtime for queries, with a stack of 2 MiB for complex ones.
pub fn create_query_runtime(threads: usize) -> (plan: RuntimePlan)
    ensures
        plan.threads == threads,
        plan.name@ == "torii-query"@,
        plan.stack_size == 2 * 1024 * 1024,
{
    RuntimePlan { threads, name: "torii-query", stack_size: 2 * 1024 * 1024 }
}

/// The runtime for indexing, with a stack of 1 MiB.
pub fn create_indexer_runtime(threads: usize) -> (plan: RuntimePlan)
    ensures
        plan.threads == threads,
        plan.name@ == "torii-indexer"@,
        plan.stack_size == 1024 * 1024,
{
    RuntimePlan { threads, name: "torii-indexer", stack_size: 1024 * 1024 }
}

/// How many tasks run at once: the usual number, 100, gives way to eight for each indexer thread,
/// between 50 and 500. Any other number is kept.
pub open spec fn concurrent_tasks(max_concurrent_tasks: int, indexer_threads: int) -> int {
    if max_concurrent_tasks == 100 {
        if indexer_threads * 8 < 50 {
            50
        } else if indexer_threads * 8 > 500 {
            500
        } else {
            indexer_threads * 8
        }
    } else {
        max_concurrent_tasks
    }
}

/// How many tasks run at once.
pub fn optimal_concurrent_tasks(max_concurrent_tasks: usize, indexer_threads: usize) -> (tasks:
    usize)
    requires
        max_concurrent_tasks == 100 ==> indexer_threads * 8 <= usize::MAX,
    ensures
        tasks == concurrent_tasks(max_concurrent_tasks as int, indexer_threads as int),
{
    if max_concurrent_tasks == 100 {
        let tasks: usize = indexer_threads * 8;
        if tasks < 50 {
            50
        } else if tasks > 500 {
            500
        } else {
            tasks
        }
    } else {
        max_concurrent_tasks
    }
}

/// What the messaging service is told: messages of the last day count, and of the next five
/// minutes, with a time or without.
pub fn messaging_config() -> (config: MessagingConfig)
    ensures
        config.max_age == 86400,
        config.future_tolerance == 300,
        !config.require_timestamp,
{
    MessagingConfig { max_age: 86400, future_tolerance: 300, require_timestamp: false }
}

/// Whether activity can be tracked: it needs transactions.
pub open spec fn activity_supported(args: ToriiArgs) -> bool {
    args.activity.enabled ==> args.indexing.transactions
}

impl SqlConfig {
    /// Whether the database is told what the settings say.
    pub open spec fn follows(&self, args: ToriiArgs) -> bool {
        &&& self.all_model_indices == args.sql.all_model_indices
        &&& self.model_indices == args.sql.model_indices
        &&& self.hooks == args.sql.hooks
        &&& self.aggregators == args.sql.aggregators
        &&& numbers(self.historical_models@) == selectors_of(texts(args.sql.historical@))
        &&& self.wal_truncate_size_threshold == args.sql.wal_truncate_size_threshold
        &&& self.optimize_interval == args.sql.optimize_interval
        &&& self.activity_enabled == args.activity.enabled
        &&& self.activity_session_timeout == args.activity.session_timeout
        &&& texts(self.activity_excluded_entrypoints@) == excluded_entrypoints(
            texts(args.activity.excluded_entrypoints@),
        )
    }
}

impl EventProcessorConfig {
    /// Whether the event processors are told what the settings say.
    pub open spec fn follows(&self, args: ToriiArgs) -> bool {
        &&& self.strict_model_reader == args.indexing.strict_model_reader
        &&& texts(self.namespaces@) == distinct(texts(args.indexing.namespaces@))
        &&& numbers(self.historical_models@) == selectors_of(texts(args.sql.historical@))
        &&& self.max_metadata_tasks == args.erc.max_metadata_tasks
        &&& texts(self.models@) == distinct(texts(args.indexing.models@))
        &&& self.external_contracts == args.indexing.external_contracts
        &&& texts(self.external_contract_whitelist@) == distinct(
            texts(args.indexing.external_contract_whitelist@),
        )
    }
}

impl EngineConfig {
    /// Whether the engine is told what the settings say.
    pub open spec fn follows(&self, args: ToriiArgs, allocation: RuntimeAllocation) -> bool {
        &&& self.max_concurrent_tasks == concurrent_tasks(
            args.indexing.max_concurrent_tasks as int,
            allocation.indexer_threads as int,
        )
        &&& self.fetcher_config.batch_chunk_size == args.indexing.batch_chunk_size
        &&& self.fetcher_config.blocks_chunk_size == args.indexing.blocks_chunk_size
        &&& self.fetcher_config.events_chunk_size == args.indexing.events_chunk_size
        &&& self.fetcher_config.world_block == args.indexing.world_block
        &&& self.fetcher_config.flags.transactions == args.indexing.transactions
        &&& self.fetcher_config.flags.preconfirmed_block == args.indexing.preconfirmed
        &&& self.polling_interval == args.indexing.polling_interval
        &&& self.flags.raw_events == args.raw_events
        &&& self.event_processor_config.follows(args)
        &&& self.world_block == args.indexing.world_block
    }
}

impl ServicePlan {
    /// Whether the services are told what the settings say.
    pub open spec fn follows(&self, args: ToriiArgs, allocation: RuntimeAllocation) -> bool {
        &&& self.contracts == args.indexing.contracts
        &&& self.sql.follows(args)
        &&& self.controllers == args.indexing.controllers
        &&& self.engine.follows(args, allocation)
        &&& self.artifacts_path == args.erc.artifacts_path
        &&& self.messaging.max_age == 86400
        &&& self.messaging.future_tolerance == 300
        &&& !self.messaging.require_timestamp
        &&& self.query_runtime.threads == allocation.query_threads
        &&& self.query_runtime.name@ == "torii-query"@
        &&& self.query_runtime.stack_size == 2 * 1024 * 1024
        &&& self.indexer_runtime.threads == allocation.indexer_threads
        &&& self.indexer_runtime.name@ == "torii-indexer"@
        &&& self.indexer_runtime.stack_size == 1024 * 1024
    }

    /// What the services are told, unless the settings contradict themselves.
    pub fn new(args: ToriiArgs, allocation: &RuntimeAllocation) -> (plan: Result<
        ServicePlan,
        RunError,
    >)
        requires
            args.indexing.max_concurrent_tasks == 100 ==> allocation.indexer_threads * 8
                <= usize::MAX,
        ensures
            match plan {
                Ok(plan) => activity_supported(args) && all_tags_valid(texts(args.sql.historical@))
                    && plan.follows(args, *allocation),
                Err(RunError::ActivityWithoutTransactions) => !activity_supported(args),
                Err(error) => activity_supported(args) && refuses_tag(
                    error,
                    texts(args.sql.historical@),
                ),
            },
    {
        if args.activity.enabled && !args.indexing.transactions {
            return Err(RunError::ActivityWithoutTransactions);
        }
        let historical: Vec<Felt> = match historical_models(&args.sql.historical) {
            Ok(models) => models,
            Err(error) => {
                return Err(error);
            },
        };
        let models: Vec<Felt> = historical.clone();
        assert(numbers(models@) =~= numbers(historical@));
        let sql = SqlConfig {
            all_model_indices: args.sql.all_model_indices,
            model_indices: args.sql.model_indices,
            historical_models: models,
            hooks: args.sql.hooks,
            aggregators: args.sql.aggregators,
            wal_truncate_size_threshold: args.sql.wal_truncate_size_threshold,
            optimize_interval: args.sql.optimize_interval,
            activity_enabled: args.activity.enabled,
            activity_session_timeout: args.activity.session_timeout,
            activity_excluded_entrypoints: activity_excluded_entrypoints(
                &args.activity.excluded_entrypoints,
            ),
        };
        let engine = EngineConfig {
            max_concurrent_tasks: optimal_concurrent_tasks(
                args.indexing.max_concurrent_tasks,
                allocation.indexer_threads,
            ),
            fetcher_config: FetcherConfig {
                batch_chunk_size: args.indexing.batch_chunk_size,
                blocks_chunk_size: args.indexing.blocks_chunk_size,
                events_chunk_size: args.indexing.events_chunk_size,
                world_block: args.indexing.world_block,
                flags: FetchingFlags {
                    transactions: args.indexing.transactions,
                    preconfirmed_block: args.indexing.preconfirmed,
                },
            },
            polling_interval: args.indexing.polling_interval,
            flags: IndexingFlags { raw_events: args.raw_events },
            event_processor_config: EventProcessorConfig {
                strict_model_reader: args.indexing.strict_model_reader,
                namespaces: distinct_texts(&args.indexing.namespaces),
                historical_models: historical,
                max_metadata_tasks: args.erc.max_metadata_tasks,
                models: distinct_texts(&args.indexing.models),
                external_contracts: args.indexing.external_contracts,
                external_contract_whitelist: distinct_texts(
                    &args.indexing.external_contract_whitelist,
                ),
            },
            world_block: args.indexing.world_block,
        };
        Ok(
            ServicePlan {
                contracts: args.indexing.contracts,
                sql,
                controllers: args.indexing.controllers,
                engine,
                artifacts_path: args.erc.artifacts_path,
                messaging: messaging_config(),
                query_runtime: create_query_runtime(allocation.query_threads),
                indexer_runtime: create_indexer_runtime(allocation.indexer_threads),
            },
        )
    }
}

/// The database and the event processors are told the same historical models.
pub proof fn law_history_is_told_alike(
    plan: ServicePlan,
    args: ToriiArgs,
    allocation: RuntimeAllocation,
)
    requires
        plan.follows(args, allocation),
    ensures
        numbers(plan.sql.historical_models@) == numbers(
            plan.engine.event_processor_config.historical_models@,
        ),
{
}

/// No list that stands for a set holds anything twice.
pub proof fn law_nothing_is_told_twice(
    plan: ServicePlan,
    args: ToriiArgs,
    allocation: RuntimeAllocation,
)
    requires
        plan.follows(args, allocation),
    ensures
        numbers(plan.sql.historical_models@).no_duplicates(),
        texts(plan.sql.activity_excluded_entrypoints@).no_duplicates(),
        texts(plan.engine.event_processor_config.namespaces@).no_duplicates(),
        texts(plan.engine.event_processor_config.models@).no_duplicates(),
        texts(
            plan.engine.event_processor_config.external_contract_whitelist@,
        ).no_duplicates(),
{
    law_distinct(texts(args.sql.historical@).map_values(|tag: Seq<char>| tag_selector(tag)));
    law_distinct(texts(args.activity.excluded_entrypoints@));
    law_distinct(texts(args.indexing.namespaces@));
    law_distinct(texts(args.indexing.models@));
    law_distinct(texts(args.indexing.external_contract_whitelist@));
    if args.activity.excluded_entrypoints@.len() == 0 {
        lemma_default_entrypoints_differ();
    }
}

/// With the usual setting, no fewer than 50 and no more than 500 tasks run at once, and more
/// indexer threads never mean fewer tasks.
pub proof fn law_usual_concurrency(indexer_threads: int, more_threads: int)
    requires
        0 <= indexer_threads <= more_threads,
    ensures
        50 <= concurrent_tasks(100, indexer_threads) <= concurrent_tasks(100, more_threads) <= 500,
{
}

/// Activity cannot be tracked without transactions: this is refused exactly if it is to be tracked
/// and they are not indexed. Settings that do not ask for this are refused only for a tag that
/// does not hold exactly one dash, and the first such tag is named.
pub proof fn law_only_contradictions_are_refused(
    args: ToriiArgs,
    allocation: RuntimeAllocation,
    plan: Result<ServicePlan, RunError>,
)
    requires
        call_ensures(ServicePlan::new, (args, &allocation), plan),
    ensures
        (plan is Err && plan->Err_0 is ActivityWithoutTransactions) <==> (args.activity.enabled
            && !args.indexing.transactions),
        !args.activity.enabled || args.indexing.transactions ==> (plan is Ok <==> forall|i: int|
            0 <= i < args.sql.historical@.len() ==> dashes((#[trigger] args.sql.historical@[i])@)
                == 1),
        plan matches Err(error) ==> error is ActivityWithoutTransactions || (
        error is InvalidModelTag && exists|i: int|
            0 <= i < args.sql.historical@.len() && (#[trigger] args.sql.historical@[i])@
                == error->InvalidModelTag_0@ && dashes(args.sql.historical@[i]@) != 1 && forall|
                j: int,
            |
                0 <= j < i ==> dashes((#[trigger] args.sql.historical@[j])@) == 1),
{
    lemma_tags(args.sql.historical@);
}

/// Whether the database is told the settings.
pub open spec fn tells_database(told: SqlConfig, args: ToriiArgs) -> bool {
    &&& told.all_model_indices == args.sql.all_model_indices
    &&& told.model_indices@ == args.sql.model_indices@
    &&& selects_each_once(told.historical_models@, args.sql.historical@)
    &&& told.hooks@ == args.sql.hooks@
    &&& told.aggregators@ == args.sql.aggregators@
    &&& told.wal_truncate_size_threshold == args.sql.wal_truncate_size_threshold
    &&& told.optimize_interval == args.sql.optimize_interval
    &&& told.activity_enabled == args.activity.enabled
    &&& told.activity_session_timeout == args.activity.session_timeout
    &&& if args.activity.excluded_entrypoints@.len() == 0 {
        usual_entrypoints(told.activity_excluded_entrypoints@)
    } else {
        holds_each_once(
            told.activity_excluded_entrypoints@,
            args.activity.excluded_entrypoints@,
        )
    }
}

/// Whether the event processors are told the settings.
pub open spec fn tells_processors(told: EventProcessorConfig, args: ToriiArgs) -> bool {
    &&& told.strict_model_reader == args.indexing.strict_model_reader
    &&& holds_each_once(told.namespaces@, args.indexing.namespaces@)
    &&& selects_each_once(told.historical_models@, args.sql.historical@)
    &&& told.max_metadata_tasks == args.erc.max_metadata_tasks
    &&& holds_each_once(told.models@, args.indexing.models@)
    &&& told.external_contracts == args.indexing.external_contracts
    &&& holds_each_once(
        told.external_contract_whitelist@,
        args.indexing.external_contract_whitelist@,
    )
}

/// Whether the engine fetches and stores as the settings say.
pub open spec fn tells_engine(told: EngineConfig, args: ToriiArgs) -> bool {
    &&& told.fetcher_config.batch_chunk_size == args.indexing.batch_chunk_size
    &&& told.fetcher_config.blocks_chunk_size == args.indexing.blocks_chunk_size
    &&& told.fetcher_config.events_chunk_size == args.indexing.events_chunk_size
    &&& told.fetcher_config.world_block == args.indexing.world_block
    &&& told.fetcher_config.flags.transactions == args.indexing.transactions
    &&& told.fetcher_config.flags.preconfirmed_block == args.indexing.preconfirmed
    &&& told.polling_interval == args.indexing.polling_interval
    &&& told.flags.raw_events == args.raw_events
    &&& told.world_block == args.indexing.world_block
}

/// What the services are told are the settings: the database, the event processors and the engine
/// each get theirs, the contracts are all there, and each runtime gets its own share of the
/// threads.
pub proof fn law_services_are_told_the_settings(
    args: ToriiArgs,
    allocation: RuntimeAllocation,
    result: Result<ServicePlan, RunError>,
    plan: ServicePlan,
)
    requires
        call_ensures(ServicePlan::new, (args, &allocation), result),
        result == Ok::<ServicePlan, RunError>(plan),
    ensures
        plan.contracts@ == args.indexing.contracts@,
        plan.controllers == args.indexing.controllers,
        plan.artifacts_path == args.erc.artifacts_path,
        plan.sql.all_model_indices == args.sql.all_model_indices,
        plan.sql.model_indices@ == args.sql.model_indices@,
        plan.sql.hooks@ == args.sql.hooks@,
        plan.sql.aggregators@ == args.sql.aggregators@,
        plan.sql.wal_truncate_size_threshold == args.sql.wal_truncate_size_threshold,
        plan.sql.optimize_interval == args.sql.optimize_interval,
        plan.sql.activity_enabled == args.activity.enabled,
        plan.sql.activity_session_timeout == args.activity.session_timeout,
        plan.engine.fetcher_config.batch_chunk_size == args.indexing.batch_chunk_size,
        plan.engine.fetcher_config.blocks_chunk_size == args.indexing.blocks_chunk_size,
        plan.engine.fetcher_config.events_chunk_size == args.indexing.events_chunk_size,
        plan.engine.fetcher_config.world_block == args.indexing.world_block,
        plan.engine.fetcher_config.flags.transactions == args.indexing.transactions,
        plan.engine.fetcher_config.flags.preconfirmed_block == args.indexing.preconfirmed,
        plan.engine.polling_interval == args.indexing.polling_interval,
        plan.engine.flags.raw_events == args.raw_events,
        plan.engine.world_block == args.indexing.world_block,
        plan.engine.event_processor_config.strict_model_reader
            == args.indexing.strict_model_reader,
        plan.engine.event_processor_config.max_metadata_tasks == args.erc.max_metadata_tasks,
        plan.engine.event_processor_config.external_contracts == args.indexing.external_contracts,
        forall|tasks: usize| #[trigger]
            call_ensures(
                optimal_concurrent_tasks,
                (args.indexing.max_concurrent_tasks, allocation.indexer_threads),
                tasks,
            ) ==> plan.engine.max_concurrent_tasks == tasks,
        plan.messaging.max_age == 24 * 60 * 60,
        plan.messaging.future_tolerance == 5 * 60,
        !plan.messaging.require_timestamp,
        plan.query_runtime.threads == allocation.query_threads,
        plan.query_runtime.name@ == "torii-query"@,
        plan.query_runtime.stack_size == 2097152,
        plan.indexer_runtime.threads == allocation.indexer_threads,
        plan.indexer_runtime.name@ == "torii-indexer"@,
        plan.indexer_runtime.stack_size == 1048576,
{
}

/// The namespaces of the settings are told to the event processors, each once, and no others.
pub proof fn law_namespaces_are_told(
    args: ToriiArgs,
    allocation: RuntimeAllocation,
    result: Result<ServicePlan, RunError>,
    plan: ServicePlan,
)
    requires
        call_ensures(ServicePlan::new, (args, &allocation), result),
        result == Ok::<ServicePlan, RunError>(plan),
    ensures
        ({
            let told = plan.engine.event_processor_config.namespaces@;
            let given = args.indexing.namespaces@;
            &&& forall|i: int|
                0 <= i < given.len() ==> exists|j: int|
                    0 <= j < told.len() && (#[trigger] told[j])@ == (#[trigger] given[i])@
            &&& forall|j: int|
                0 <= j < told.len() ==> exists|i: int|
                    0 <= i < given.len() && (#[trigger] told[j])@ == (#[trigger] given[i])@
            &&& forall|j: int, k: int|
                0 <= j < k < told.len() ==> (#[trigger] told[j])@ != (#[trigger] told[k])@
        }),
{
    lemma_distinct_holds_each_once(
        plan.engine.event_processor_config.namespaces@,
        args.indexing.namespaces@,
    );
    reveal(holds_each_once);
}

/// The models of the settings are told to the event processors, each once, and no others.
pub proof fn law_models_are_told(
    args: ToriiArgs,
    allocation: RuntimeAllocation,
    result: Result<ServicePlan, RunError>,
    plan: ServicePlan,
)
    requires
        call_ensures(ServicePlan::new, (args, &allocation), result),
        result == Ok::<ServicePlan, RunError>(plan),
    ensures
        ({
            let told = plan.engine.event_processor_config.models@;
            let given = args.indexing.models@;
            &&& forall|i: int|
                0 <= i < given.len() ==> exists|j: int|
                    0 <= j < told.len() && (#[trigger] told[j])@ == (#[trigger] given[i])@
            &&& forall|j: int|
                0 <= j < told.len() ==> exists|i: int|
                    0 <= i < given.len() && (#[trigger] told[j])@ == (#[trigger] given[i])@
            &&& forall|j: int, k: int|
                0 <= j < k < told.len() ==> (#[trigger] told[j])@ != (#[trigger] told[k])@
        }),
{
    lemma_distinct_holds_each_once(
        plan.engine.event_processor_config.models@,
        args.indexing.models@,
    );
    reveal(holds_each_once);
}

/// The contracts that are indexed though the world did not deploy them are told to the event
/// processors, each once, and no others.
pub proof fn law_whitelist_is_told(
    args: ToriiArgs,
    allocation: RuntimeAllocation,
    result: Result<ServicePlan, RunError>,
    plan: ServicePlan,
)
    requires
        call_ensures(ServicePlan::new, (args, &allocation), result),
        result == Ok::<ServicePlan, RunError>(plan),
    ensures
        ({
            let told = plan.engine.event_processor_config.external_contract_whitelist@;
            let given = args.indexing.external_contract_whitelist@;
            &&& forall|i: int|
                0 <= i < given.len() ==> exists|j: int|
                    0 <= j < told.len() && (#[trigger] told[j])@ == (#[trigger] given[i])@
            &&& forall|j: int|
                0 <= j < told.len() ==> exists|i: int|
                    0 <= i < given.len() && (#[trigger] told[j])@ == (#[trigger] given[i])@
            &&& forall|j: int, k: int|
                0 <= j < k < told.len() ==> (#[trigger] told[j])@ != (#[trigger] told[k])@
        }),
{
    lemma_distinct_holds_each_once(
        plan.engine.event_processor_config.external_contract_whitelist@,
        args.indexing.external_contract_whitelist@,
    );
    reveal(holds_each_once);
}

/// Entrypoints that are named are told to the database, each once, and no others.
pub proof fn law_named_entrypoints_are_told(
    args: ToriiArgs,
    allocation: RuntimeAllocation,
    result: Result<ServicePlan, RunError>,
    plan: ServicePlan,
)
    requires
        call_ensures(ServicePlan::new, (args, &allocation), result),
        result == Ok::<ServicePlan, RunError>(plan),
        args.activity.excluded_entrypoints@.len() > 0,
    ensures
        ({
            let told = plan.sql.activity_excluded_entrypoints@;
            let given = args.activity.excluded_entrypoints@;
            &&& forall|i: int|
                0 <= i < given.len() ==> exists|j: int|
                    0 <= j < told.len() && (#[trigger] told[j])@ == (#[trigger] given[i])@
            &&& forall|j: int|
                0 <= j < told.len() ==> exists|i: int|
                    0 <= i < given.len() && (#[trigger] told[j])@ == (#[trigger] given[i])@
            &&& forall|j: int, k: int|
                0 <= j < k < told.len() ==> (#[trigger] told[j])@ != (#[trigger] told[k])@
        }),
{
    lemma_distinct_holds_each_once(
        plan.sql.activity_excluded_entrypoints@,
        args.activity.excluded_entrypoints@,
    );
    reveal(holds_each_once);
}

/// When no entrypoint is named, the database is told the usual ones.
pub proof fn law_usual_entrypoints_are_told(
    args: ToriiArgs,
    allocation: RuntimeAllocation,
    result: Result<ServicePlan, RunError>,
    plan: ServicePlan,
    usual: Vec<String>,
)
    requires
        call_ensures(ServicePlan::new, (args, &allocation), result),
        result == Ok::<ServicePlan, RunError>(plan),
        args.activity.excluded_entrypoints@.len() == 0,
        call_ensures(
            activity_excluded_entrypoints,
            (&args.activity.excluded_entrypoints,),
            usual,
        ),
    ensures
        plan.sql.activity_excluded_entrypoints@.len() == usual@.len(),
        forall|i: int|
            0 <= i < usual@.len() ==> (#[trigger] plan.sql.activity_excluded_entrypoints@[i])@
                == usual@[i]@,
{
    let told = plan.sql.activity_excluded_entrypoints@;
    assert(texts(told) == texts(usual@));
    assert forall|i: int| 0 <= i < usual@.len() implies (#[trigger] told[i])@ == usual@[i]@ by {
        assert(texts(told)[i] == told[i]@ && texts(usual@)[i] == usual@[i]@);
    }
}

/// The models of all historical tags are told to the database and to the event processors, each
/// once, and no others.
pub proof fn law_historical_models_are_told(
    args: ToriiArgs,
    allocation: RuntimeAllocation,
    result: Result<ServicePlan, RunError>,
    plan: ServicePlan,
)
    requires
        call_ensures(ServicePlan::new, (args, &allocation), result),
        result == Ok::<ServicePlan, RunError>(plan),
    ensures
        ({
            let models = plan.sql.historical_models@;
            let tags = args.sql.historical@;
            &&& forall|i: int|
                0 <= i < tags.len() ==> exists|j: int|
                    0 <= j < models.len() && (#[trigger] models[j])@ == tag_selector(
                        (#[trigger] tags[i])@,
                    )
            &&& forall|j: int|
                0 <= j < models.len() ==> exists|i: int|
                    0 <= i < tags.len() && (#[trigger] models[j])@ == tag_selector(
                        (#[trigger] tags[i])@,
                    )
            &&& forall|j: int, k: int|
                0 <= j < k < models.len() ==> (#[trigger] models[j])@ != (#[trigger] models[k])@
        }),
        ({
            let models = plan.engine.event_processor_config.historical_models@;
            let tags = args.sql.historical@;
            &&& forall|i: int|
                0 <= i < tags.len() ==> exists|j: int|
                    0 <= j < models.len() && (#[trigger] models[j])@ == tag_selector(
                        (#[trigger] tags[i])@,
                    )
            &&& forall|j: int|
                0 <= j < models.len() ==> exists|i: int|
                    0 <= i < tags.len() && (#[trigger] models[j])@ == tag_selector(
                        (#[trigger] tags[i])@,
                    )
            &&& forall|j: int, k: int|
                0 <= j < k < models.len() ==> (#[trigger] models[j])@ != (#[trigger] models[k])@
        }),
{
    lemma_selectors_select(plan.sql.historical_models@, args.sql.historical@);
    lemma_selectors_select(
        plan.engine.event_processor_config.historical_models@,
        args.sql.historical@,
    );
    reveal(selects_each_once);
}

/// Whether all services are told the settings.
pub open spec fn tells_services(
    plan: ServicePlan,
    args: ToriiArgs,
    allocation: RuntimeAllocation,
) -> bool {
    &&& tells_database(plan.sql, args)
    &&& tells_processors(plan.engine.event_processor_config, args)
    &&& tells_engine(plan.engine, args)
    &&& args.indexing.max_concurrent_tasks != 100 ==> plan.engine.max_concurrent_tasks
        == args.indexing.max_concurrent_tasks
    &&& args.indexing.max_concurrent_tasks == 100 ==> is_scaled(
        plan.engine.max_concurrent_tasks as int,
        allocation.indexer_threads as int,
    )
    &&& plan.contracts@ == args.indexing.contracts@
    &&& plan.controllers == args.indexing.controllers
    &&& plan.artifacts_path == args.erc.artifacts_path
    &&& plan.messaging.max_age == 24 * 60 * 60
    &&& plan.messaging.future_tolerance == 5 * 60
    &&& !plan.messaging.require_timestamp
    &&& plan.query_runtime.threads == allocation.query_threads
    &&& plan.query_runtime.name@ == "torii-query"@
    &&& plan.query_runtime.stack_size == 2097152
    &&& plan.indexer_runtime.threads == allocation.indexer_threads
    &&& plan.indexer_runtime.name@ == "torii-indexer"@
    &&& plan.indexer_runtime.stack_size == 1048576
}

/// What follows the settings tells them to the services.
pub proof fn lemma_plan_tells(plan: ServicePlan, args: ToriiArgs, allocation: RuntimeAllocation)
    requires
        plan.follows(args, allocation),
    ensures
        tells_services(plan, args, allocation),
{
    let told = plan.engine.event_processor_config;
    lemma_selectors_select(plan.sql.historical_models@, args.sql.historical@);
    lemma_selectors_select(told.historical_models@, args.sql.historical@);
    lemma_distinct_holds_each_once(told.namespaces@, args.indexing.namespaces@);
    lemma_distinct_holds_each_once(told.models@, args.indexing.models@);
    lemma_distinct_holds_each_once(
        told.external_contract_whitelist@,
        args.indexing.external_contract_whitelist@,
    );
    lemma_excluded(
        plan.sql.activity_excluded_entrypoints@,
        args.activity.excluded_entrypoints@,
    );
}

/// Whether a number of tasks is eight for each thread, 50 if that is less and 500 if it is more.
pub open spec fn is_scaled(tasks: int, threads: int) -> bool {
    &&& 50 <= tasks <= 500
    &&& 50 <= threads * 8 <= 500 ==> tasks == threads * 8
    &&& threads * 8 < 50 ==> tasks == 50
    &&& threads * 8 > 500 ==> tasks == 500
}

/// A number of tasks that was chosen is kept, and the usual one follows the threads.
pub proof fn law_chosen_concurrency_is_kept(
    max_concurrent_tasks: usize,
    indexer_threads: usize,
    tasks: usize,
)
    requires
        call_ensures(optimal_concurrent_tasks, (max_concurrent_tasks, indexer_threads), tasks),
    ensures
        max_concurrent_tasks != 100 ==> tasks == max_concurrent_tasks,
        max_concurrent_tasks == 100 && 50 <= indexer_threads * 8 <= 500 ==> tasks
            == indexer_threads * 8,
        max_concurrent_tasks == 100 && indexer_threads * 8 < 50 ==> tasks == 50,
        max_concurrent_tasks == 100 && indexer_threads * 8 > 500 ==> tasks == 500,
{
}

/// Both runtimes get the threads that they are made with, under their own names. A thread for
/// queries has a stack of 2 MiB, one for indexing of 1 MiB.
pub proof fn law_runtimes_get_their_threads(
    threads: usize,
    query: RuntimePlan,
    indexer: RuntimePlan,
)
    requires
        call_ensures(create_query_runtime, (threads,), query),
        call_ensures(create_indexer_runtime, (threads,), indexer),
    ensures
        query.threads == threads,
        indexer.threads == threads,
        query.name@ == "torii-query"@,
        indexer.name@ == "torii-indexer"@,
        indexer.stack_size == 1048576,
        query.stack_size == 2 * indexer.stack_size,
{
}

/// Messages may be a day old and lie five minutes ahead, and need no time.
pub proof fn law_messages_may_be_a_day_old(config: MessagingConfig)
    requires
        call_ensures(messaging_config, (), config),
    ensures
        config.max_age == 24 * 60 * 60,
        config.future_tolerance == 5 * 60,
        !config.require_timestamp,
{
}

} // verus!
