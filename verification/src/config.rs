//! The settings of the indexer, and what follows from them.

use crate::allocation::RuntimeAllocation;
use crate::distinct::{
    add_felt, distinct, distinct_texts, holds_each_once, law_distinct,
    lemma_distinct_holds_each_once, numbers, texts,
};
use crate::error::RunError;
use crate::events::{ContractType, Felt};
use crate::selector::{
    dashes, law_valid_tags_hold_one_dash, tag_selector, try_compute_selector_from_tag, valid_tag,
};
use crate::text::{decimal, decimal_text};
use vstd::prelude::*;
use vstd::string::StringExecFns;

verus! {

/// What the event processors are told. A list here holds nothing twice.
#[derive(Debug)]
pub struct EventProcessorConfig {
    /// Whether a model that cannot be read is an error.
    pub strict_model_reader: bool,
    /// The namespaces to index.
    pub namespaces: Vec<String>,
    /// The selectors of the models whose history is kept.
    pub historical_models: Vec<Felt>,
    /// How many metadata tasks may run at once.
    pub max_metadata_tasks: usize,
    /// The models to index.
    pub models: Vec<String>,
    /// Whether contracts that the world did not deploy are indexed.
    pub external_contracts: bool,
    /// Those of them that are indexed.
    pub external_contract_whitelist: Vec<String>,
}

/// A contract to index.
#[derive(Debug, Clone, Copy, PartialEq, Eq)]
pub struct ContractDefinition {
    /// Its address.
    pub address: Felt,
    /// Its kind.
    pub contract_type: ContractType,
    /// The block to begin with.
    pub starting_block: Option<u64>,
}

/// How the database is reached.
#[derive(Debug)]
pub struct DatabaseOptions {
    /// The whole address, in place of its parts.
    pub url: Option<String>,
    /// The user.
    pub username: String,
    /// The user's password.
    pub password: Option<String>,
    /// The host.
    pub host: String,
    /// The port.
    pub port: u16,
    /// The name of the database.
    pub database: String,
    /// Whether the connection must be encrypted.
    pub ssl: bool,
}

/// How the run itself is set up.
#[derive(Debug)]
pub struct RunnerOptions {
    /// Whether the contracts are looked up first.
    pub check_contracts: bool,
    /// The name of the allocation strategy.
    pub allocation_strategy: String,
    /// Query threads, zero to leave them to the strategy.
    pub query_threads: usize,
    /// Indexer threads, zero to leave them to the strategy.
    pub indexer_threads: usize,
}

/// How the database is used.
#[derive(Debug)]
pub struct SqlOptions {
    /// The fewest connections that the pool may be limited to.
    pub max_connections: u32,
    /// How long to wait for a connection, in milliseconds.
    pub acquire_timeout: u64,
    /// How long a connection may idle, in milliseconds.
    pub idle_timeout: u64,
    /// The directory of further migrations.
    pub migrations: Option<String>,
    /// Whether every member of every model is indexed.
    pub all_model_indices: bool,
    /// The members of models that are indexed, as the settings write them.
    pub model_indices: Vec<String>,
    /// The tags of the models whose history is kept.
    pub historical: Vec<String>,
    /// The statements that follow a change of a model, as the settings write them.
    pub hooks: Vec<String>,
    /// What is summed up over models, as the settings write it.
    pub aggregators: Vec<String>,
    /// The size from which the log is cut.
    pub wal_truncate_size_threshold: u64,
    /// How often the database is optimized.
    pub optimize_interval: u64,
}

/// How activity is tracked.
#[derive(Debug)]
pub struct ActivityOptions {
    /// Whether it is tracked.
    pub enabled: bool,
    /// How long a session lasts.
    pub session_timeout: u64,
    /// The entrypoints that do not count, none for the usual ones.
    pub excluded_entrypoints: Vec<String>,
}

/// What is indexed, and how.
#[derive(Debug)]
pub struct IndexingOptions {
    /// The contracts to index.
    pub contracts: Vec<ContractDefinition>,
    /// Whether transactions are indexed.
    pub transactions: bool,
    /// Whether the preconfirmed block is indexed.
    pub preconfirmed: bool,
    /// Whether controllers are synchronized.
    pub controllers: bool,
    /// How many tasks run at once.
    pub max_concurrent_tasks: usize,
    /// The size of a batch of requests.
    pub batch_chunk_size: usize,
    /// The number of blocks that are fetched at once.
    pub blocks_chunk_size: u64,
    /// The number of events that are fetched at once.
    pub events_chunk_size: u64,
    /// The block of the world.
    pub world_block: u64,
    /// The time between two looks at the chain, in milliseconds.
    pub polling_interval: u64,
    /// Whether a model that cannot be read is an error.
    pub strict_model_reader: bool,
    /// The namespaces to index.
    pub namespaces: Vec<String>,
    /// The models to index.
    pub models: Vec<String>,
    /// Whether contracts that the world did not deploy are indexed.
    pub external_contracts: bool,
    /// Those of them that are indexed.
    pub external_contract_whitelist: Vec<String>,
}

/// How tokens are handled.
#[derive(Debug)]
pub struct ErcOptions {
    /// How many metadata tasks may run at once.
    pub max_metadata_tasks: usize,
    /// Where artifacts are kept.
    pub artifacts_path: Option<String>,
}

/// What the database begins with.
#[derive(Debug)]
pub struct SnapshotOptions {
    /// Where a snapshot is to be had.
    pub snapshot_url: Option<String>,
}

/// The settings of a run.
#[derive(Debug)]
pub struct ToriiArgs {
    /// The world to index.
    pub world_address: Option<Felt>,
    /// The address of the provider.
    pub rpc: String,
    /// The file that the settings were read from.
    pub config: Option<String>,
    /// The file to write the settings to.
    pub dump_config: Option<String>,
    /// How the database is reached.
    pub database: DatabaseOptions,
    /// What the database begins with.
    pub snapshot: SnapshotOptions,
    /// How the run itself is set up.
    pub runner: RunnerOptions,
    /// How the database is used.
    pub sql: SqlOptions,
    /// How activity is tracked.
    pub activity: ActivityOptions,
    /// What is indexed, and how.
    pub indexing: IndexingOptions,
    /// How tokens are handled.
    pub erc: ErcOptions,
    /// Whether raw events are indexed.
    pub raw_events: bool,
}

fn copy_text(text: &Option<String>) -> (copy: Option<String>)
    ensures
        copy == *text,
{
    match text {
        Some(text) => Some(text.clone()),
        None => None,
    }
}

fn copy_texts(items: &Vec<String>) -> (copy: Vec<String>)
    ensures
        copy@ == items@,
{
    let mut copy: Vec<String> = Vec::new();
    let mut i: usize = 0;
    while i < items.len()
        invariant
            i <= items@.len(),
            copy@ == items@.take(i as int),
        decreases items@.len() - i,
    {
        copy.push(items[i].clone());
        assert(copy@ =~= items@.take(i + 1));
        i = i + 1;
    }
    assert(items@.take(items@.len() as int) =~= items@);
    copy
}

impl SqlOptions {
    /// Whether two settings say the same.
    pub open spec fn same(self, other: SqlOptions) -> bool {
        &&& self.model_indices@ == other.model_indices@
        &&& self.historical@ == other.historical@
        &&& self.hooks@ == other.hooks@
        &&& self.aggregators@ == other.aggregators@
        &&& self == (SqlOptions {
            model_indices: self.model_indices,
            historical: self.historical,
            hooks: self.hooks,
            aggregators: self.aggregators,
            ..other
        })
    }
}

impl ActivityOptions {
    /// Whether two settings say the same.
    pub open spec fn same(self, other: ActivityOptions) -> bool {
        &&& self.excluded_entrypoints@ == other.excluded_entrypoints@
        &&& self == (ActivityOptions {
            excluded_entrypoints: self.excluded_entrypoints,
            ..other
        })
    }
}

impl IndexingOptions {
    /// Whether two settings say the same.
    pub open spec fn same(self, other: IndexingOptions) -> bool {
        &&& self.contracts@ == other.contracts@
        &&& self.namespaces@ == other.namespaces@
        &&& self.models@ == other.models@
        &&& self.external_contract_whitelist@ == other.external_contract_whitelist@
        &&& self == (IndexingOptions {
            contracts: self.contracts,
            namespaces: self.namespaces,
            models: self.models,
            external_contract_whitelist: self.external_contract_whitelist,
            ..other
        })
    }
}

impl Clone for DatabaseOptions {
    fn clone(&self) -> (copy: Self)
        ensures
            copy == *self,
    {
        DatabaseOptions {
            url: copy_text(&self.url),
            username: self.username.clone(),
            password: copy_text(&self.password),
            host: self.host.clone(),
            port: self.port,
            database: self.database.clone(),
            ssl: self.ssl,
        }
    }
}

impl Clone for RunnerOptions {
    fn clone(&self) -> (copy: Self)
        ensures
            copy == *self,
    {
        RunnerOptions {
            check_contracts: self.check_contracts,
            allocation_strategy: self.allocation_strategy.clone(),
            query_threads: self.query_threads,
            indexer_threads: self.indexer_threads,
        }
    }
}

impl Clone for SqlOptions {
    fn clone(&self) -> (copy: Self)
        ensures
            copy.same(*self),
    {
        SqlOptions {
            max_connections: self.max_connections,
            acquire_timeout: self.acquire_timeout,
            idle_timeout: self.idle_timeout,
            migrations: copy_text(&self.migrations),
            all_model_indices: self.all_model_indices,
            model_indices: copy_texts(&self.model_indices),
            historical: copy_texts(&self.historical),
            hooks: copy_texts(&self.hooks),
            aggregators: copy_texts(&self.aggregators),
            wal_truncate_size_threshold: self.wal_truncate_size_threshold,
            optimize_interval: self.optimize_interval,
        }
    }
}

impl Clone for ActivityOptions {
    fn clone(&self) -> (copy: Self)
        ensures
            copy.same(*self),
    {
        ActivityOptions {
            enabled: self.enabled,
            session_timeout: self.session_timeout,
            excluded_entrypoints: copy_texts(&self.excluded_entrypoints),
        }
    }
}

impl Clone for IndexingOptions {
    fn clone(&self) -> (copy: Self)
        ensures
            copy.same(*self),
    {
        let contracts: Vec<ContractDefinition> = self.contracts.clone();
        assert(contracts@ =~= self.contracts@);
        IndexingOptions {
            contracts,
            transactions: self.transactions,
            preconfirmed: self.preconfirmed,
            controllers: self.controllers,
            max_concurrent_tasks: self.max_concurrent_tasks,
            batch_chunk_size: self.batch_chunk_size,
            blocks_chunk_size: self.blocks_chunk_size,
            events_chunk_size: self.events_chunk_size,
            world_block: self.world_block,
            polling_interval: self.polling_interval,
            strict_model_reader: self.strict_model_reader,
            namespaces: copy_texts(&self.namespaces),
            models: copy_texts(&self.models),
            external_contracts: self.external_contracts,
            external_contract_whitelist: copy_texts(&self.external_contract_whitelist),
        }
    }
}

impl ToriiArgs {
    /// Whether these are those settings as they are written to a file: without the names of the
    /// files themselves, and with all else as it is.
    pub open spec fn is_dump_of(self, args: ToriiArgs) -> bool {
        &&& self.sql.same(args.sql)
        &&& self.activity.same(args.activity)
        &&& self.indexing.same(args.indexing)
        &&& self == (ToriiArgs {
            config: None,
            dump_config: None,
            sql: self.sql,
            activity: self.activity,
            indexing: self.indexing,
            ..args
        })
    }

    /// The settings as they are written to a file.
    pub fn dumped(&self) -> (dump: ToriiArgs)
        ensures
            dump.is_dump_of(*self),
    {
        ToriiArgs {
            world_address: self.world_address,
            rpc: self.rpc.clone(),
            config: None,
            dump_config: None,
            database: self.database.clone(),
            snapshot: SnapshotOptions { snapshot_url: copy_text(&self.snapshot.snapshot_url) },
            runner: self.runner.clone(),
            sql: self.sql.clone(),
            activity: self.activity.clone(),
            indexing: self.indexing.clone(),
            erc: ErcOptions {
                max_metadata_tasks: self.erc.max_metadata_tasks,
                artifacts_path: copy_text(&self.erc.artifacts_path),
            },
            raw_events: self.raw_events,
        }
    }

    /// Whether a snapshot is asked for, which the database cannot begin with.
    pub fn ignores_snapshot(&self) -> (ignores: bool)
        ensures
            ignores == (self.snapshot.snapshot_url is Some),
    {
        match self.snapshot.snapshot_url {
            Some(_) => true,
            None => false,
        }
    }

    /// Whether members of models are named though every member is indexed.
    pub fn overrides_model_indices(&self) -> (overrides: bool)
        ensures
            overrides == (self.sql.all_model_indices && self.sql.model_indices@.len() > 0),
    {
        self.sql.all_model_indices && !self.sql.model_indices.is_empty()
    }

    /// Whether these are those settings with the world among the contracts, if there is one.
    pub open spec fn is_with_world(self, before: ToriiArgs) -> bool {
        &&& self.indexing.contracts@ == contracts_with_world(
            before.indexing.contracts@,
            before.world_address,
        )
        &&& self == (ToriiArgs {
            indexing: IndexingOptions {
                contracts: self.indexing.contracts,
                ..before.indexing
            },
            ..before
        })
    }

    /// The settings with the world among the contracts, if there is one.
    pub fn with_world(self) -> (args: ToriiArgs)
        ensures
            args.is_with_world(self),
    {
        let mut args = self;
        match args.world_address {
            Some(address) => {
                args.indexing.contracts.push(
                    ContractDefinition {
                        address,
                        contract_type: ContractType::WORLD,
                        starting_block: None,
                    },
                );
            },
            None => {},
        }
        args
    }
}

/// The contracts, and the world behind them if there is one.
pub open spec fn contracts_with_world(
    contracts: Seq<ContractDefinition>,
    world_address: Option<Felt>,
) -> Seq<ContractDefinition> {
    match world_address {
        Some(address) => contracts.push(
            ContractDefinition {
                address,
                contract_type: ContractType::WORLD,
                starting_block: None,
            },
        ),
        None => contracts,
    }
}

/// The address of the database: the given one, or one that is made of its parts.
pub open spec fn database_url(options: DatabaseOptions) -> Seq<char> {
    match options.url {
        Some(url) => url@,
        None => "postgresql://"@ + options.username@ + ":"@ + (match options.password {
            Some(password) => password@,
            None => ""@,
        }) + "@"@ + options.host@ + ":"@ + decimal(options.port as int) + "/"@ + options.database@
            + (if options.ssl {
            "?sslmode=require"@
        } else {
            "?sslmode=prefer"@
        }),
    }
}

impl DatabaseOptions {
    /// The address of the database.
    pub fn connection_url(&self) -> (url: String)
        ensures
            url@ == database_url(*self),
    {
        match &self.url {
            Some(url) => url.clone(),
            None => {
                let mut url: String = String::from_str("postgresql://");
                url.append(self.username.as_str());
                url.append(":");
                match &self.password {
                    Some(password) => {
                        url.append(password.as_str());
                    },
                    None => {
                        url.append("");
                    },
                }
                url.append("@");
                url.append(self.host.as_str());
                url.append(":");
                url.append(decimal_text(self.port as u64).as_str());
                url.append("/");
                url.append(self.database.as_str());
                if self.ssl {
                    url.append("?sslmode=require");
                } else {
                    url.append("?sslmode=prefer");
                }
                url
            },
        }
    }
}

/// How the pool of database connections is set up.
#[derive(Debug)]
pub struct PoolPlan {
    /// The address of the database.
    pub url: String,
    /// Whether the connections must be encrypted.
    pub require_ssl: bool,
    /// How many connections are kept open.
    pub min_connections: u32,
    /// How many connections there may be.
    pub max_connections: u32,
    /// How long to wait for a connection, in milliseconds.
    pub acquire_timeout: u64,
    /// How long a connection may idle, in milliseconds.
    pub idle_timeout: u64,
}

/// How many connections there may be: as many as the settings say, and no fewer than there are
/// query and indexer threads, of whose number the lower 32 bits count.
pub open spec fn pool_limit(max_connections: u32, allocation: RuntimeAllocation) -> int {
    let threads = (allocation.query_threads + allocation.indexer_threads) % 0x1_0000_0000;
    if threads > max_connections {
        threads
    } else {
        max_connections as int
    }
}

impl PoolPlan {
    /// Whether the pool is set up as the settings say.
    pub open spec fn follows(&self, args: ToriiArgs, allocation: RuntimeAllocation) -> bool {
        &&& self.url@ == database_url(args.database)
        &&& self.require_ssl == args.database.ssl
        &&& self.max_connections == pool_limit(args.sql.max_connections, allocation)
        &&& self.min_connections == (if self.max_connections < 4 {
            self.max_connections
        } else {
            4
        })
        &&& self.acquire_timeout == args.sql.acquire_timeout
        &&& self.idle_timeout == args.sql.idle_timeout
    }

    /// How the pool is set up.
    pub fn new(args: &ToriiArgs, allocation: &RuntimeAllocation) -> (plan: PoolPlan)
        requires
            allocation.query_threads + allocation.indexer_threads <= usize::MAX,
        ensures
            plan.follows(*args, *allocation),
    {
        let threads: u64 = (allocation.query_threads + allocation.indexer_threads) as u64;
        assert(threads as u32 == threads % 0x1_0000_0000) by (bit_vector);
        let threads: u32 = #[verifier::truncate] (threads as u32);
        let max_connections: u32 = if threads > args.sql.max_connections {
            threads
        } else {
            args.sql.max_connections
        };
        PoolPlan {
            url: args.database.connection_url(),
            require_ssl: args.database.ssl,
            min_connections: if max_connections < 4 {
                max_connections
            } else {
                4
            },
            max_connections,
            acquire_timeout: args.sql.acquire_timeout,
            idle_timeout: args.sql.idle_timeout,
        }
    }
}

/// The selectors of the models that tags name, each once.
pub open spec fn selectors_of(tags: Seq<Seq<char>>) -> Seq<Seq<u8>> {
    distinct(tags.map_values(|tag: Seq<char>| tag_selector(tag)))
}

/// Whether `i` is the place of the first tag that is none.
pub open spec fn first_invalid_tag(tags: Seq<Seq<char>>, i: int) -> bool {
    &&& 0 <= i < tags.len()
    &&& !valid_tag(tags[i])
    &&& forall|j: int| 0 <= j < i ==> valid_tag(#[trigger] tags[j])
}

/// Whether all tags are tags.
pub open spec fn all_tags_valid(tags: Seq<Seq<char>>) -> bool {
    forall|i: int| 0 <= i < tags.len() ==> valid_tag(#[trigger] tags[i])
}

/// Whether an error names the first tag that is none.
pub open spec fn refuses_tag(error: RunError, tags: Seq<Seq<char>>) -> bool {
    error matches RunError::InvalidModelTag(tag) && exists|i: int|
        #[trigger] first_invalid_tag(tags, i) && tag@ == tags[i]
}

/// The selectors of the models that tags name, each once, or the first tag that is none.
pub fn historical_models(tags: &Vec<String>) -> (models: Result<Vec<Felt>, RunError>)
    ensures
        match models {
            Ok(models) => all_tags_valid(texts(tags@)) && numbers(models@) == selectors_of(
                texts(tags@),
            ),
            Err(error) => refuses_tag(error, texts(tags@)),
        },
{
    let mut models: Vec<Felt> = Vec::new();
    let mut i: usize = 0;
    let ghost all = texts(tags@);
    let ghost selectors = all.map_values(|tag: Seq<char>| tag_selector(tag));
    assert(numbers(models@) =~= distinct(selectors.take(0)));
    while i < tags.len()
        invariant
            i <= tags@.len(),
            all == texts(tags@),
            selectors == all.map_values(|tag: Seq<char>| tag_selector(tag)),
            forall|j: int| 0 <= j < i ==> valid_tag(#[trigger] all[j]),
            numbers(models@) == distinct(selectors.take(i as int)),
        decreases tags@.len() - i,
    {
        match try_compute_selector_from_tag(tags[i].as_str()) {
            Ok(selector) => {
                add_felt(&mut models, selector);
                assert(selectors.take(i + 1).drop_last() =~= selectors.take(i as int));
            },
            Err(_) => {
                assert(first_invalid_tag(all, i as int));
                return Err(RunError::InvalidModelTag(tags[i].clone()));
            },
        }
        i = i + 1;
    }
    assert(selectors.take(tags@.len() as int) =~= selectors);
    Ok(models)
}

/// The entrypoints that do not count as activity unless others are named.
pub open spec fn default_excluded_entrypoints() -> Seq<Seq<char>> {
    seq![
        "execute_from_outside_v3"@,
        "request_random"@,
        "submit_random"@,
        "assert_consumed"@,
        "deployContract"@,
        "set_name"@,
        "register_model"@,
        "entities"@,
        "init_contract"@,
        "upgrade_model"@,
        "emit_events"@,
        "emit_event"@,
        "set_metadata"@,
    ]
}

/// The entrypoints that do not count as activity: the named ones, or the usual ones if none is
/// named.
pub open spec fn excluded_entrypoints(named: Seq<Seq<char>>) -> Seq<Seq<char>> {
    if named.len() == 0 {
        default_excluded_entrypoints()
    } else {
        distinct(named)
    }
}

/// The entrypoints that do not count as activity.
pub fn activity_excluded_entrypoints(named: &Vec<String>) -> (excluded: Vec<String>)
    ensures
        texts(excluded@) == excluded_entrypoints(texts(named@)),
{
    if named.is_empty() {
        let excluded: Vec<String> = vec![
            "execute_from_outside_v3".to_string(),
            "request_random".to_string(),
            "submit_random".to_string(),
            "assert_consumed".to_string(),
            "deployContract".to_string(),
            "set_name".to_string(),
            "register_model".to_string(),
            "entities".to_string(),
            "init_contract".to_string(),
            "upgrade_model".to_string(),
            "emit_events".to_string(),
            "emit_event".to_string(),
            "set_metadata".to_string(),
        ];
        assert(texts(excluded@) =~= default_excluded_entrypoints());
        excluded
    } else {
        distinct_texts(named)
    }
}

/// The usual entrypoints that do not count differ from each other.
pub proof fn lemma_default_entrypoints_differ()
    ensures
        default_excluded_entrypoints().no_duplicates(),
{
    reveal_strlit("execute_from_outside_v3");
    reveal_strlit("request_random");
    reveal_strlit("submit_random");
    reveal_strlit("assert_consumed");
    reveal_strlit("deployContract");
    reveal_strlit("set_name");
    reveal_strlit("register_model");
    reveal_strlit("entities");
    reveal_strlit("init_contract");
    reveal_strlit("upgrade_model");
    reveal_strlit("emit_events");
    reveal_strlit("emit_event");
    reveal_strlit("set_metadata");
    let names = default_excluded_entrypoints();
    assert forall|i: int, j: int| 0 <= i < j < names.len() implies names[i] != names[j] by {
        assert(names[i].len() != names[j].len() || names[i][0] != names[j][0] || names[i][2]
            != names[j][2]);
    }
}

/// The pool never has fewer connections than the settings say, keeps no more than it may have,
/// and has one for each thread, if the threads can be counted in 32 bits.
pub proof fn law_pool_serves_every_thread(
    plan: PoolPlan,
    args: ToriiArgs,
    allocation: RuntimeAllocation,
)
    requires
        plan.follows(args, allocation),
    ensures
        plan.min_connections <= plan.max_connections,
        plan.min_connections <= 4,
        plan.max_connections >= args.sql.max_connections,
        allocation.query_threads + allocation.indexer_threads < 0x1_0000_0000
            ==> plan.max_connections >= allocation.query_threads + allocation.indexer_threads,
{
}

/// Whenever a world is named, it is indexed: it is one more contract, the last, of the kind of a
/// world and from the first block on, whatever other contracts there are. They and all other
/// settings stay as they are, and without a world nothing changes.
pub proof fn law_world_is_indexed(before: ToriiArgs, args: ToriiArgs)
    requires
        call_ensures(ToriiArgs::with_world, (before,), args),
    ensures
        before.world_address matches Some(address) ==> {
            let world = args.indexing.contracts@[before.indexing.contracts@.len() as int];
            &&& args.indexing.contracts@.len() == before.indexing.contracts@.len() + 1
            &&& world.address == address
            &&& world.contract_type == ContractType::WORLD
            &&& world.starting_block is None
        },
        before.world_address is None ==> args.indexing.contracts@.len()
            == before.indexing.contracts@.len(),
        forall|i: int|
            0 <= i < before.indexing.contracts@.len() ==> #[trigger] args.indexing.contracts@[i]
                == before.indexing.contracts@[i],
        args == (ToriiArgs {
            indexing: IndexingOptions {
                contracts: args.indexing.contracts,
                ..before.indexing
            },
            ..before
        }),
{
}

/// Whether these are those settings, one by one, without the names of the files that they come
/// from and go to.
pub open spec fn is_written(dump: ToriiArgs, args: ToriiArgs) -> bool {
    &&& dump.config is None
    &&& dump.dump_config is None
    &&& dump.world_address == args.world_address
    &&& dump.rpc@ == args.rpc@
    &&& dump.database == args.database
    &&& dump.snapshot == args.snapshot
    &&& dump.runner == args.runner
    &&& dump.erc == args.erc
    &&& dump.raw_events == args.raw_events
    &&& dump.sql.max_connections == args.sql.max_connections
    &&& dump.sql.acquire_timeout == args.sql.acquire_timeout
    &&& dump.sql.idle_timeout == args.sql.idle_timeout
    &&& dump.sql.migrations == args.sql.migrations
    &&& dump.sql.all_model_indices == args.sql.all_model_indices
    &&& dump.sql.model_indices@ == args.sql.model_indices@
    &&& dump.sql.historical@ == args.sql.historical@
    &&& dump.sql.hooks@ == args.sql.hooks@
    &&& dump.sql.aggregators@ == args.sql.aggregators@
    &&& dump.sql.wal_truncate_size_threshold == args.sql.wal_truncate_size_threshold
    &&& dump.sql.optimize_interval == args.sql.optimize_interval
    &&& dump.activity.enabled == args.activity.enabled
    &&& dump.activity.session_timeout == args.activity.session_timeout
    &&& dump.activity.excluded_entrypoints@ == args.activity.excluded_entrypoints@
    &&& dump.indexing.contracts@ == args.indexing.contracts@
    &&& dump.indexing.transactions == args.indexing.transactions
    &&& dump.indexing.preconfirmed == args.indexing.preconfirmed
    &&& dump.indexing.controllers == args.indexing.controllers
    &&& dump.indexing.max_concurrent_tasks == args.indexing.max_concurrent_tasks
    &&& dump.indexing.batch_chunk_size == args.indexing.batch_chunk_size
    &&& dump.indexing.blocks_chunk_size == args.indexing.blocks_chunk_size
    &&& dump.indexing.events_chunk_size == args.indexing.events_chunk_size
    &&& dump.indexing.world_block == args.indexing.world_block
    &&& dump.indexing.polling_interval == args.indexing.polling_interval
    &&& dump.indexing.strict_model_reader == args.indexing.strict_model_reader
    &&& dump.indexing.namespaces@ == args.indexing.namespaces@
    &&& dump.indexing.models@ == args.indexing.models@
    &&& dump.indexing.external_contracts == args.indexing.external_contracts
    &&& dump.indexing.external_contract_whitelist@ == args.indexing.external_contract_whitelist@
}

/// What is written to a file are the settings, one by one, without the names of the files.
pub proof fn law_dump_holds_the_settings(args: ToriiArgs, dump: ToriiArgs)
    requires
        call_ensures(ToriiArgs::dumped, (&args,), dump),
    ensures
        dump.config is None,
        dump.dump_config is None,
        dump.world_address == args.world_address,
        dump.rpc@ == args.rpc@,
        dump.database == args.database,
        dump.snapshot == args.snapshot,
        dump.runner == args.runner,
        dump.erc == args.erc,
        dump.raw_events == args.raw_events,
        dump.sql.max_connections == args.sql.max_connections,
        dump.sql.acquire_timeout == args.sql.acquire_timeout,
        dump.sql.idle_timeout == args.sql.idle_timeout,
        dump.sql.migrations == args.sql.migrations,
        dump.sql.all_model_indices == args.sql.all_model_indices,
        dump.sql.model_indices@ == args.sql.model_indices@,
        dump.sql.historical@ == args.sql.historical@,
        dump.sql.hooks@ == args.sql.hooks@,
        dump.sql.aggregators@ == args.sql.aggregators@,
        dump.sql.wal_truncate_size_threshold == args.sql.wal_truncate_size_threshold,
        dump.sql.optimize_interval == args.sql.optimize_interval,
        dump.activity.enabled == args.activity.enabled,
        dump.activity.session_timeout == args.activity.session_timeout,
        dump.activity.excluded_entrypoints@ == args.activity.excluded_entrypoints@,
        dump.indexing.contracts@ == args.indexing.contracts@,
        dump.indexing.transactions == args.indexing.transactions,
        dump.indexing.preconfirmed == args.indexing.preconfirmed,
        dump.indexing.controllers == args.indexing.controllers,
        dump.indexing.max_concurrent_tasks == args.indexing.max_concurrent_tasks,
        dump.indexing.batch_chunk_size == args.indexing.batch_chunk_size,
        dump.indexing.blocks_chunk_size == args.indexing.blocks_chunk_size,
        dump.indexing.events_chunk_size == args.indexing.events_chunk_size,
        dump.indexing.world_block == args.indexing.world_block,
        dump.indexing.polling_interval == args.indexing.polling_interval,
        dump.indexing.strict_model_reader == args.indexing.strict_model_reader,
        dump.indexing.namespaces@ == args.indexing.namespaces@,
        dump.indexing.models@ == args.indexing.models@,
        dump.indexing.external_contracts == args.indexing.external_contracts,
        dump.indexing.external_contract_whitelist@ == args.indexing.external_contract_whitelist@,
{
}

/// A snapshot is ignored whenever one is asked for, and members that are named are overridden
/// exactly if every member is indexed.
pub proof fn law_settings_without_effect(args: ToriiArgs, ignores: bool, overrides: bool)
    requires
        call_ensures(ToriiArgs::ignores_snapshot, (&args,), ignores),
        call_ensures(ToriiArgs::overrides_model_indices, (&args,), overrides),
    ensures
        ignores <==> args.snapshot.snapshot_url is Some,
        args.sql.model_indices@.len() == 0 ==> !overrides,
        args.sql.model_indices@.len() > 0 ==> overrides == args.sql.all_model_indices,
{
}

/// An address that is given is the address of the database.
pub proof fn law_given_address_is_used(options: DatabaseOptions, url: String)
    requires
        call_ensures(DatabaseOptions::connection_url, (&options,), url),
    ensures
        options.url matches Some(given) ==> url@ == given@,
{
}

/// An address that is not given holds, in this order, the user, the password if there is one, the
/// host, the port, the database and how the connection is encrypted.
pub proof fn law_address_holds_its_parts(options: DatabaseOptions, url: String, port: String)
    requires
        call_ensures(DatabaseOptions::connection_url, (&options,), url),
        call_ensures(decimal_text, (options.port as u64,), port),
        options.url is None,
    ensures
        options.password matches Some(password) ==> url@ == "postgresql://"@ + options.username@
            + ":"@ + password@ + "@"@ + options.host@ + ":"@ + port@ + "/"@ + options.database@ + (
        if options.ssl {
            "?sslmode=require"@
        } else {
            "?sslmode=prefer"@
        }),
        options.password is None ==> url@ == "postgresql://"@ + options.username@ + ":"@ + "@"@
            + options.host@ + ":"@ + port@ + "/"@ + options.database@ + (if options.ssl {
            "?sslmode=require"@
        } else {
            "?sslmode=prefer"@
        }),
{
    reveal_strlit("");
    if options.password is None {
        let head = "postgresql://"@ + options.username@ + ":"@;
        assert(head + ""@ =~= head);
    }
}

/// An address that is made of its parts begins with the user and the password, whatever else the
/// settings are.
pub proof fn law_password_is_in_the_address(options: DatabaseOptions, url: String)
    requires
        call_ensures(DatabaseOptions::connection_url, (&options,), url),
        options.url is None,
    ensures
        options.password matches Some(password) ==> ("postgresql://"@ + options.username@ + ":"@
            + password@ + "@"@).is_prefix_of(url@),
        options.password is None ==> ("postgresql://"@ + options.username@ + ":"@
            + "@"@).is_prefix_of(url@),
{
    reveal_strlit("");
    match options.password {
        Some(password) => {
            let head = "postgresql://"@ + options.username@ + ":"@ + password@ + "@"@;
            assert(url@.subrange(0, head.len() as int) =~= head);
        },
        None => {
            let head = "postgresql://"@ + options.username@ + ":"@ + "@"@;
            assert(url@.subrange(0, head.len() as int) =~= head);
        },
    }
}

/// How the connection is encrypted changes the address at its end only.
pub proof fn law_encryption_changes_the_end_of_the_address(
    plain: DatabaseOptions,
    plain_url: String,
    encrypted_url: String,
)
    requires
        !plain.ssl,
        plain.url is None,
        call_ensures(DatabaseOptions::connection_url, (&plain,), plain_url),
        call_ensures(
            DatabaseOptions::connection_url,
            (&(DatabaseOptions { ssl: true, ..plain }),),
            encrypted_url,
        ),
    ensures
        exists|head: Seq<char>|
            plain_url@ == #[trigger] (head + "?sslmode=prefer"@) && encrypted_url@ == head
                + "?sslmode=require"@,
{
    let password = match plain.password {
        Some(password) => password@,
        None => ""@,
    };
    let head = "postgresql://"@ + plain.username@ + ":"@ + password + "@"@ + plain.host@ + ":"@
        + decimal(plain.port as int) + "/"@ + plain.database@;
    assert(plain_url@ == head + "?sslmode=prefer"@);
    assert(encrypted_url@ == head + "?sslmode=require"@);
}

/// The pool is reached at the database's address and encrypted as the settings say. It may have as
/// many connections as the settings say or as there are query and indexer threads, whichever is
/// more, and keeps four of them open, or all if they are fewer. Of the number of threads the lower
/// 32 bits count.
pub proof fn law_pool_is_set_up(args: ToriiArgs, allocation: RuntimeAllocation, plan: PoolPlan)
    requires
        call_ensures(PoolPlan::new, (&args, &allocation), plan),
    ensures
        forall|url: String| #[trigger]
            call_ensures(DatabaseOptions::connection_url, (&args.database,), url) ==> plan.url@
                == url@,
        plan.require_ssl == args.database.ssl,
        plan.acquire_timeout == args.sql.acquire_timeout,
        plan.idle_timeout == args.sql.idle_timeout,
        allocation.query_threads + allocation.indexer_threads <= args.sql.max_connections
            ==> plan.max_connections == args.sql.max_connections,
        args.sql.max_connections < allocation.query_threads + allocation.indexer_threads
            < 0x1_0000_0000 ==> plan.max_connections == allocation.query_threads
            + allocation.indexer_threads,
        allocation.query_threads + allocation.indexer_threads >= 0x1_0000_0000 ==> ({
            let counted = (allocation.query_threads + allocation.indexer_threads) % 0x1_0000_0000;
            &&& plan.max_connections == args.sql.max_connections || plan.max_connections == counted
            &&& plan.max_connections >= args.sql.max_connections
            &&& plan.max_connections >= counted
        }),
        plan.max_connections >= 4 ==> plan.min_connections == 4,
        plan.max_connections < 4 ==> plan.min_connections == plan.max_connections,
{
}

/// Whether models are those that tags name, each once.
#[verifier::opaque]
pub open spec fn selects_each_once(models: Seq<Felt>, tags: Seq<String>) -> bool {
    &&& forall|i: int|
        0 <= i < tags.len() ==> exists|j: int|
            0 <= j < models.len() && (#[trigger] models[j])@ == tag_selector((#[trigger] tags[i])@)
    &&& forall|j: int|
        0 <= j < models.len() ==> exists|i: int|
            0 <= i < tags.len() && (#[trigger] models[j])@ == tag_selector((#[trigger] tags[i])@)
    &&& forall|j: int, k: int|
        0 <= j < k < models.len() ==> (#[trigger] models[j])@ != (#[trigger] models[k])@
}

/// The selectors of tags, each once, are those of the models that the tags name.
pub proof fn lemma_selectors_select(models: Seq<Felt>, tags: Seq<String>)
    requires
        numbers(models) == selectors_of(texts(tags)),
    ensures
        selects_each_once(models, tags),
{
    reveal(selects_each_once);
    let all = texts(tags).map_values(|tag: Seq<char>| tag_selector(tag));
    let kept = numbers(models);
    law_distinct(all);
    assert forall|i: int| 0 <= i < tags.len() implies exists|j: int|
        0 <= j < models.len() && (#[trigger] models[j])@ == tag_selector(
            (#[trigger] tags[i])@,
        ) by {
        assert(all[i] == tag_selector(tags[i]@));
        assert(all.contains(all[i]));
        assert(kept.contains(all[i]));
        let j = choose|j: int| 0 <= j < kept.len() && kept[j] == all[i];
        assert(models[j]@ == all[i]);
    }
    assert forall|j: int| 0 <= j < models.len() implies exists|i: int|
        0 <= i < tags.len() && (#[trigger] models[j])@ == tag_selector((#[trigger] tags[i])@) by {
        assert(kept[j] == models[j]@);
        assert(kept.contains(kept[j]));
        assert(all.contains(kept[j]));
        let i = choose|i: int| 0 <= i < all.len() && all[i] == kept[j];
        assert(models[j]@ == tag_selector(tags[i]@));
    }
    assert forall|j: int, k: int| 0 <= j < k < models.len() implies (#[trigger] models[j])@ != (
    #[trigger] models[k])@ by {
        assert(kept[j] != kept[k]);
    }
}

/// Whether an error names the first of the tags that does not hold exactly one dash.
pub open spec fn names_first_without_dash(error: RunError, tags: Seq<String>) -> bool {
    error matches RunError::InvalidModelTag(named) && exists|i: int|
        0 <= i < tags.len() && (#[trigger] tags[i])@ == named@ && dashes(tags[i]@) != 1 && forall|
            j: int,
        |
            0 <= j < i ==> dashes((#[trigger] tags[j])@) == 1
}

/// A tag is refused exactly if it does not hold exactly one dash.
pub proof fn lemma_tags(tags: Seq<String>)
    ensures
        all_tags_valid(texts(tags)) <==> forall|i: int|
            0 <= i < tags.len() ==> dashes((#[trigger] tags[i])@) == 1,
        forall|error: RunError| #[trigger]
            refuses_tag(error, texts(tags)) ==> names_first_without_dash(error, tags),
{
    let all = texts(tags);
    assert forall|i: int| 0 <= i < tags.len() implies valid_tag(all[i]) == (dashes(
        (#[trigger] tags[i])@,
    ) == 1) by {
        law_valid_tags_hold_one_dash(tags[i]@);
    }
    if forall|i: int| 0 <= i < tags.len() ==> dashes((#[trigger] tags[i])@) == 1 {
        assert forall|i: int| 0 <= i < all.len() implies valid_tag(#[trigger] all[i]) by {
            assert(dashes(tags[i]@) == 1);
        }
    }
    if all_tags_valid(all) {
        assert forall|i: int| 0 <= i < tags.len() implies dashes((#[trigger] tags[i])@) == 1 by {
            assert(valid_tag(all[i]));
        }
    }
    assert forall|error: RunError| #[trigger] refuses_tag(error, all) implies
        names_first_without_dash(error, tags) by {
        let i = choose|i: int| #[trigger]
            first_invalid_tag(all, i) && error->InvalidModelTag_0@ == all[i];
        assert(tags[i]@ == all[i]);
        assert forall|j: int| 0 <= j < i implies dashes((#[trigger] tags[j])@) == 1 by {
            assert(valid_tag(all[j]));
        }
    }
}

/// The models that tags name are found exactly if each tag holds one dash. They are the models of
/// all the tags and no others, each once. Else the first tag that does not is named.
pub proof fn law_tags_name_models(tags: Vec<String>, models: Result<Vec<Felt>, RunError>)
    requires
        call_ensures(historical_models, (&tags,), models),
    ensures
        models is Ok <==> forall|i: int| 0 <= i < tags@.len() ==> dashes((#[trigger] tags@[i])@) == 1,
        models matches Ok(models) ==> {
            &&& forall|i: int|
                0 <= i < tags@.len() ==> exists|j: int|
                    0 <= j < models@.len() && (#[trigger] models@[j])@ == tag_selector(
                        (#[trigger] tags@[i])@,
                    )
            &&& forall|j: int|
                0 <= j < models@.len() ==> exists|i: int|
                    0 <= i < tags@.len() && (#[trigger] models@[j])@ == tag_selector(
                        (#[trigger] tags@[i])@,
                    )
            &&& forall|j: int, k: int|
                0 <= j < k < models@.len() ==> (#[trigger] models@[j])@ != (#[trigger] models@[k])@
        },
        models matches Err(error) ==> {
            &&& error is InvalidModelTag
            &&& exists|i: int|
                0 <= i < tags@.len() && (#[trigger] tags@[i])@ == error->InvalidModelTag_0@
                    && dashes(tags@[i]@) != 1 && forall|j: int|
                    0 <= j < i ==> dashes((#[trigger] tags@[j])@) == 1
        },
{
    lemma_tags(tags@);
    match models {
        Ok(models) => {
            lemma_selectors_select(models@, tags@);
            reveal(selects_each_once);
        },
        Err(error) => {
            assert(names_first_without_dash(error, tags@));
        },
    }
}

/// Whether a list holds the entrypoints that do not count as activity unless others are named.
pub open spec fn usual_entrypoints(list: Seq<String>) -> bool {
    &&& list.len() == 13
    &&& list[0]@ == "execute_from_outside_v3"@
    &&& list[1]@ == "request_random"@
    &&& list[2]@ == "submit_random"@
    &&& list[3]@ == "assert_consumed"@
    &&& list[4]@ == "deployContract"@
    &&& list[5]@ == "set_name"@
    &&& list[6]@ == "register_model"@
    &&& list[7]@ == "entities"@
    &&& list[8]@ == "init_contract"@
    &&& list[9]@ == "upgrade_model"@
    &&& list[10]@ == "emit_events"@
    &&& list[11]@ == "emit_event"@
    &&& list[12]@ == "set_metadata"@
}

/// A list of the texts that do not count is the usual one, or holds each named text once.
pub proof fn lemma_excluded(list: Seq<String>, named: Seq<String>)
    requires
        texts(list) == excluded_entrypoints(texts(named)),
    ensures
        named.len() == 0 ==> usual_entrypoints(list),
        named.len() > 0 ==> holds_each_once(list, named),
{
    if named.len() == 0 {
        let all = texts(list);
        assert(texts(named).len() == 0);
        assert(all.len() == list.len());
        assert forall|i: int| 0 <= i < list.len() implies (#[trigger] list[i])@ == all[i] by {}
    } else {
        lemma_distinct_holds_each_once(list, named);
    }
}

/// The entrypoints that are named do not count as activity, each once and no others, and the usual
/// ones only if none is named.
pub proof fn law_named_entrypoints_do_not_count(named: Vec<String>, excluded: Vec<String>)
    requires
        call_ensures(activity_excluded_entrypoints, (&named,), excluded),
    ensures
        named@.len() == 0 ==> {
            &&& excluded@.len() == 13
            &&& excluded@[0]@ == "execute_from_outside_v3"@
            &&& excluded@[1]@ == "request_random"@
            &&& excluded@[2]@ == "submit_random"@
            &&& excluded@[3]@ == "assert_consumed"@
            &&& excluded@[4]@ == "deployContract"@
            &&& excluded@[5]@ == "set_name"@
            &&& excluded@[6]@ == "register_model"@
            &&& excluded@[7]@ == "entities"@
            &&& excluded@[8]@ == "init_contract"@
            &&& excluded@[9]@ == "upgrade_model"@
            &&& excluded@[10]@ == "emit_events"@
            &&& excluded@[11]@ == "emit_event"@
            &&& excluded@[12]@ == "set_metadata"@
        },
        named@.len() > 0 ==> {
            &&& forall|i: int|
                0 <= i < named@.len() ==> exists|j: int|
                    0 <= j < excluded@.len() && (#[trigger] excluded@[j])@ == (
                    #[trigger] named@[i])@
            &&& forall|j: int|
                0 <= j < excluded@.len() ==> exists|i: int|
                    0 <= i < named@.len() && (#[trigger] excluded@[j])@ == (#[trigger] named@[i])@
            &&& forall|j: int, k: int|
                0 <= j < k < excluded@.len() ==> (#[trigger] excluded@[j])@ != (
                #[trigger] excluded@[k])@
        },
{
    lemma_excluded(excluded@, named@);
    reveal(holds_each_once);
}

} // verus!
