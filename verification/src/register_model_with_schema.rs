//! What is done when a model is registered with its schema.

use crate::events::{Event, Felt, TaskId};
use crate::selector::{
    compute_selector_from_names, hash_selector, selector_of_names, selector_task,
};
use vstd::prelude::*;

verus! {

/// Handles the events by which models are registered with their schema.
#[derive(Default, Debug)]
pub struct RegisterModelWithSchemaProcessor;

/// How the members of a model are laid out in storage.
#[derive(Debug)]
pub enum Layout {
    /// One after the other, each with a fixed number of bits.
    Fixed(Vec<u8>),
}

/// A model that is to be registered once its schema is parsed.
#[derive(Debug)]
pub struct PendingModel {
    /// The model's namespace.
    pub namespace: String,
    /// The model's name.
    pub name: String,
    /// The model's selector.
    pub selector: Felt,
    /// The time of the event's block.
    pub block_timestamp: u64,
}

/// What the storage is told of a model, and the names that the cache is told besides.
#[derive(Debug)]
pub struct Registration<S> {
    /// The model's selector.
    pub selector: Felt,
    /// The model's namespace.
    pub namespace: String,
    /// The model's name.
    pub name: String,
    /// The model's schema.
    pub schema: S,
    /// The model's layout.
    pub layout: Layout,
    /// The class of the model's contract.
    pub class_hash: Felt,
    /// The address of the model's contract.
    pub contract_address: Felt,
    /// The size of the model in storage.
    pub packed_size: u32,
    /// The size of the model outside storage.
    pub unpacked_size: u32,
    /// The time of the event's block.
    pub block_timestamp: u64,
    /// What is new in the schema.
    pub schema_diff: Option<S>,
    /// What an upgrade changes.
    pub upgrade_diff: Option<S>,
    /// Whether the model is stored in the old way.
    pub use_legacy_store: bool,
}

/// What the cache is told of a model.
#[derive(Debug)]
pub struct Model<S> {
    /// The model's selector.
    pub selector: Felt,
    /// The model's namespace.
    pub namespace: String,
    /// The model's name.
    pub name: String,
    /// The class of the model's contract.
    pub class_hash: Felt,
    /// The address of the model's contract.
    pub contract_address: Felt,
    /// The size of the model in storage.
    pub packed_size: u32,
    /// The size of the model outside storage.
    pub unpacked_size: u32,
    /// The model's layout.
    pub layout: Layout,
    /// The model's schema.
    pub schema: S,
    /// Whether the model is stored in the old way.
    pub use_legacy_store: bool,
}

/// Why a model was not registered.
#[derive(Debug)]
pub enum RegisterError<P, E> {
    /// Its schema could not be parsed.
    Parse(P),
    /// The storage refused it.
    Storage(E),
}

impl Felt {
    /// The number zero.
    pub fn zero() -> (felt: Felt)
        ensures
            felt@ == zero_bytes(),
    {
        let felt = Felt { bytes: [0u8; 32] };
        assert(felt@ =~= zero_bytes());
        felt
    }
}

/// The bytes of the number zero.
pub open spec fn zero_bytes() -> Seq<u8> {
    Seq::new(32, |i: int| 0u8)
}

impl PendingModel {
    /// Whether this is the model of that name, from a block of that time.
    pub open spec fn is_model(
        &self,
        namespace: Seq<char>,
        name: Seq<char>,
        block_timestamp: u64,
    ) -> bool {
        &&& self.namespace@ == namespace
        &&& self.name@ == name
        &&& self.selector@ == selector_of_names(namespace, name)
        &&& self.block_timestamp == block_timestamp
    }

    /// Takes what came of parsing the schema: what the storage is told, or why nothing is.
    pub fn with_schema<S, P, E>(self, parsed: Result<S, P>) -> (registration: Result<
        Registration<S>,
        RegisterError<P, E>,
    >)
        ensures
            match parsed {
                Ok(schema) => registration is Ok && registration->Ok_0.registers(self, schema),
                Err(error) => registration == Err::<Registration<S>, RegisterError<P, E>>(
                    RegisterError::Parse(error),
                ),
            },
    {
        match parsed {
            Ok(schema) => Ok(
                Registration {
                    selector: self.selector,
                    namespace: self.namespace,
                    name: self.name,
                    schema,
                    layout: Layout::Fixed(Vec::new()),
                    class_hash: Felt::zero(),
                    contract_address: Felt::zero(),
                    packed_size: 0,
                    unpacked_size: 0,
                    block_timestamp: self.block_timestamp,
                    schema_diff: None,
                    upgrade_diff: None,
                    use_legacy_store: false,
                },
            ),
            Err(error) => Err(RegisterError::Parse(error)),
        }
    }
}

impl<S> Registration<S> {
    /// Whether this registers a model with a schema: without contract, sizes and layout, as
    /// models that bring their schema have none.
    pub open spec fn registers(&self, model: PendingModel, schema: S) -> bool {
        &&& self.selector == model.selector
        &&& self.namespace == model.namespace
        &&& self.name == model.name
        &&& self.schema == schema
        &&& self.layout->Fixed_0@ == Seq::<u8>::empty()
        &&& self.class_hash@ == zero_bytes()
        &&& self.contract_address@ == zero_bytes()
        &&& self.packed_size == 0
        &&& self.unpacked_size == 0
        &&& self.block_timestamp == model.block_timestamp
        &&& self.schema_diff is None
        &&& self.upgrade_diff is None
        &&& !self.use_legacy_store
    }

    /// Takes what came of telling the storage: what the cache is told, or why nothing is.
    pub fn stored<P, E>(self, outcome: Result<(), E>) -> (model: Result<
        Model<S>,
        RegisterError<P, E>,
    >)
        ensures
            match outcome {
                Ok(_) => model is Ok && model->Ok_0.is_registered_by(self),
                Err(error) => model == Err::<Model<S>, RegisterError<P, E>>(
                    RegisterError::Storage(error),
                ),
            },
    {
        match outcome {
            Ok(_) => Ok(
                Model {
                    selector: self.selector,
                    namespace: self.namespace,
                    name: self.name,
                    class_hash: self.class_hash,
                    contract_address: self.contract_address,
                    packed_size: self.packed_size,
                    unpacked_size: self.unpacked_size,
                    layout: self.layout,
                    schema: self.schema,
                    use_legacy_store: self.use_legacy_store,
                },
            ),
            Err(error) => Err(RegisterError::Storage(error)),
        }
    }
}

impl<S> Model<S> {
    /// Whether the cache is told what the storage was told.
    pub open spec fn is_registered_by(&self, registration: Registration<S>) -> bool {
        &&& self.selector == registration.selector
        &&& self.namespace == registration.namespace
        &&& self.name == registration.name
        &&& self.class_hash == registration.class_hash
        &&& self.contract_address == registration.contract_address
        &&& self.packed_size == registration.packed_size
        &&& self.unpacked_size == registration.unpacked_size
        &&& self.layout == registration.layout
        &&& self.schema == registration.schema
        &&& self.use_legacy_store == registration.use_legacy_store
    }
}

impl RegisterModelWithSchemaProcessor {
    /// The name of the events that this processor handles.
    pub fn event_key(&self) -> (key: String)
        ensures
            key@ == "ModelWithSchemaRegistered"@,
    {
        "ModelWithSchemaRegistered".to_string()
    }

    /// Whether this processor takes an event: it takes every one.
    pub fn validate(&self, _event: &Event) -> (takes: bool)
        ensures
            takes,
    {
        true
    }

    /// The task of the events that concern a model.
    pub fn task_identifier(&self, namespace: &str, name: &str) -> (task: TaskId)
        ensures
            task == selector_task(selector_of_names(namespace@, name@)),
    {
        let selector: Felt = compute_selector_from_names(namespace, name);
        hash_selector(&selector)
    }

    /// Begins to register a model, which is ignored unless it is to be indexed.
    pub fn process(
        &self,
        namespace: String,
        name: String,
        should_index: bool,
        block_timestamp: u64,
    ) -> (pending: Option<PendingModel>)
        ensures
            match pending {
                Some(pending) => should_index && pending.is_model(
                    namespace@,
                    name@,
                    block_timestamp,
                ),
                None => !should_index,
            },
    {
        let selector: Felt = compute_selector_from_names(namespace.as_str(), name.as_str());
        if !should_index {
            return None;
        }
        Some(PendingModel { namespace, name, selector, block_timestamp })
    }
}

/// The cache is told the model whose event came, with its own schema, under the selector that
/// the storage was told and by which the event found its task.
pub proof fn law_storage_and_cache_agree<S>(
    namespace: Seq<char>,
    name: Seq<char>,
    block_timestamp: u64,
    pending: PendingModel,
    schema: S,
    registration: Registration<S>,
    model: Model<S>,
)
    requires
        pending.is_model(namespace, name, block_timestamp),
        registration.registers(pending, schema),
        model.is_registered_by(registration),
    ensures
        model.namespace@ == namespace,
        model.name@ == name,
        model.schema == schema,
        model.selector@ == selector_of_names(namespace, name),
        registration.selector == model.selector,
        registration.block_timestamp == block_timestamp,
        model.layout->Fixed_0@ == Seq::<u8>::empty(),
        model.class_hash@ == zero_bytes(),
        model.contract_address@ == zero_bytes(),
        model.packed_size == 0,
        model.unpacked_size == 0,
        !model.use_legacy_store,
        selector_task(model.selector@) == selector_task(selector_of_names(namespace, name)),
{
}

/// Every event is taken, whatever it holds, and the events are known by one name.
pub proof fn law_every_event_is_taken(
    processor: RegisterModelWithSchemaProcessor,
    event: Event,
    takes: bool,
    key: String,
)
    requires
        call_ensures(RegisterModelWithSchemaProcessor::validate, (&processor, &event), takes),
        call_ensures(RegisterModelWithSchemaProcessor::event_key, (&processor,), key),
    ensures
        takes,
        key@ == "ModelWithSchemaRegistered"@,
{
}

/// The events of a model find the task of its selector.
pub proof fn law_events_of_a_model_share_a_task(
    processor: RegisterModelWithSchemaProcessor,
    namespace: &str,
    name: &str,
    task: TaskId,
    selector: Felt,
    hash: TaskId,
)
    requires
        call_ensures(
            RegisterModelWithSchemaProcessor::task_identifier,
            (&processor, namespace, name),
            task,
        ),
        selector@ == selector_of_names(namespace@, name@),
        call_ensures(hash_selector, (&selector,), hash),
    ensures
        task == hash,
{
}

/// A model that is to be indexed is registered under its own names, the selector of its names and
/// the time of its block. One that is not is passed over.
pub proof fn law_indexed_models_are_registered(
    processor: RegisterModelWithSchemaProcessor,
    namespace: String,
    name: String,
    should_index: bool,
    block_timestamp: u64,
    pending: Option<PendingModel>,
)
    requires
        call_ensures(
            RegisterModelWithSchemaProcessor::process,
            (&processor, namespace, name, should_index, block_timestamp),
            pending,
        ),
    ensures
        pending is Some <==> should_index,
        pending matches Some(model) ==> {
            &&& model.namespace@ == namespace@
            &&& model.name@ == name@
            &&& model.selector@ == selector_of_names(namespace@, name@)
            &&& model.block_timestamp == block_timestamp
        },
{
}

/// A schema that was parsed is stored with its model, which has neither contract nor sizes nor
/// layout, and nothing to compare with. A schema that could not be parsed is what the error says.
pub proof fn law_parsed_schema_is_stored<S, P, E>(
    model: PendingModel,
    parsed: Result<S, P>,
    registration: Result<Registration<S>, RegisterError<P, E>>,
)
    requires
        call_ensures(PendingModel::with_schema::<S, P, E>, (model, parsed), registration),
    ensures
        registration is Ok <==> parsed is Ok,
        registration matches Ok(stored) ==> {
            &&& stored.schema == parsed->Ok_0
            &&& stored.namespace@ == model.namespace@
            &&& stored.name@ == model.name@
            &&& stored.selector == model.selector
            &&& stored.block_timestamp == model.block_timestamp
            &&& stored.layout->Fixed_0@.len() == 0
            &&& forall|i: int| 0 <= i < 32 ==> stored.class_hash.bytes@[i] == 0
            &&& forall|i: int| 0 <= i < 32 ==> stored.contract_address.bytes@[i] == 0
            &&& stored.packed_size == 0
            &&& stored.unpacked_size == 0
            &&& stored.schema_diff is None
            &&& stored.upgrade_diff is None
            &&& !stored.use_legacy_store
        },
        registration matches Err(error) ==> error == RegisterError::<P, E>::Parse(parsed->Err_0),
{
    if registration is Ok {
        let stored = registration->Ok_0;
        assert forall|i: int| 0 <= i < 32 implies stored.class_hash.bytes@[i] == 0 by {
            assert(stored.class_hash@[i] == zero_bytes()[i]);
        }
        assert forall|i: int| 0 <= i < 32 implies stored.contract_address.bytes@[i] == 0 by {
            assert(stored.contract_address@[i] == zero_bytes()[i]);
        }
    }
}

/// A model that was stored is told to the cache as it was stored. One that was not is not told, and
/// the error is the storage's.
pub proof fn law_stored_model_is_cached<S, P, E>(
    registration: Registration<S>,
    outcome: Result<(), E>,
    model: Result<Model<S>, RegisterError<P, E>>,
)
    requires
        call_ensures(Registration::<S>::stored::<P, E>, (registration, outcome), model),
    ensures
        model is Ok <==> outcome is Ok,
        model matches Ok(cached) ==> {
            &&& cached.selector == registration.selector
            &&& cached.namespace@ == registration.namespace@
            &&& cached.name@ == registration.name@
            &&& cached.class_hash == registration.class_hash
            &&& cached.contract_address == registration.contract_address
            &&& cached.packed_size == registration.packed_size
            &&& cached.unpacked_size == registration.unpacked_size
            &&& cached.layout == registration.layout
            &&& cached.schema == registration.schema
            &&& cached.use_legacy_store == registration.use_legacy_store
        },
        model matches Err(error) ==> error == RegisterError::<P, E>::Storage(outcome->Err_0),
{
}

/// The number zero has 32 bytes that are zero.
pub proof fn law_zero(felt: Felt)
    requires
        call_ensures(Felt::zero, (), felt),
    ensures
        forall|i: int| 0 <= i < 32 ==> felt.bytes@[i] == 0,
{
    assert forall|i: int| 0 <= i < 32 implies felt.bytes@[i] == 0 by {
        assert(felt@[i] == zero_bytes()[i]);
    }
}

} // verus!
