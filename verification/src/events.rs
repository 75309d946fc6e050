//! The events that the indexer handles.

use vstd::prelude::*;

verus! {

/// Identifies the task that an event belongs to.
pub type TaskId = u64;

/// The rank of a task.
pub type TaskPriority = usize;

/// Identifies what an event is about: of the events with one key only the latest counts.
pub type EventKey = u64;

/// A Starknet field element, as its 32 bytes, most significant first.
#[derive(Debug, Clone, Copy, PartialEq, Eq)]
pub struct Felt {
    /// The bytes of the number.
    pub bytes: [u8; 32],
}

impl View for Felt {
    type V = Seq<u8>;

    open spec fn view(&self) -> Seq<u8> {
        self.bytes@
    }
}

/// Whether an event counts for itself or only until the next one with its key.
#[derive(Debug, Clone, Copy, PartialEq, Eq, Structural)]
pub enum IndexingMode {
    /// Only the latest event with this key is handled.
    Latest(EventKey),
    /// Every event is handled.
    Historical,
}

/// The kind of a contract.
#[derive(Debug, Clone, Copy, PartialEq, Eq, Structural)]
pub enum ContractType {
    /// A Dojo world.
    WORLD,
    /// Any other kind, by its number.
    OTHER(u32),
}

/// An event that a contract emitted.
#[derive(Debug)]
pub struct Event {
    /// The contract that emitted it.
    pub from_address: Felt,
    /// Its keys.
    pub keys: Vec<Felt>,
    /// Its data.
    pub data: Vec<Felt>,
}

/// An event that waits in a task.
#[derive(Debug)]
pub struct ParallelizedEvent {
    /// Whether later events replace this one.
    pub indexing_mode: IndexingMode,
    /// The kind of the contract that emitted it.
    pub contract_type: ContractType,
    /// The number of its block.
    pub block_number: u64,
    /// The time of its block.
    pub block_timestamp: u64,
    /// Its identifier.
    pub event_id: String,
    /// The event itself.
    pub event: Event,
}

impl Event {
    /// Whether two events have the same emitter, keys and data.
    pub open spec fn same(&self, other: &Event) -> bool {
        &&& self.from_address == other.from_address
        &&& self.keys@ == other.keys@
        &&& self.data@ == other.data@
    }
}

impl ParallelizedEvent {
    /// Whether two waiting events agree in all they hold.
    pub open spec fn same(&self, other: &ParallelizedEvent) -> bool {
        &&& self.indexing_mode == other.indexing_mode
        &&& self.contract_type == other.contract_type
        &&& self.block_number == other.block_number
        &&& self.block_timestamp == other.block_timestamp
        &&& self.event_id@ == other.event_id@
        &&& self.event.same(&other.event)
    }
}

impl Clone for Event {
    fn clone(&self) -> (copy: Self)
        ensures
            copy.same(self),
    {
        let keys: Vec<Felt> = self.keys.clone();
        let data: Vec<Felt> = self.data.clone();
        assert(keys@ =~= self.keys@);
        assert(data@ =~= self.data@);
        Event { from_address: self.from_address, keys, data }
    }
}

impl Clone for ParallelizedEvent {
    fn clone(&self) -> (copy: Self)
        ensures
            copy.same(self),
    {
        ParallelizedEvent {
            indexing_mode: self.indexing_mode,
            contract_type: self.contract_type,
            block_number: self.block_number,
            block_timestamp: self.block_timestamp,
            event_id: self.event_id.clone(),
            event: self.event.clone(),
        }
    }
}

/// A copy of an event has its emitter, its keys and its data.
pub proof fn law_copy_of_an_event(event: Event, copy: Event)
    requires
        call_ensures(<Event as Clone>::clone, (&event,), copy),
    ensures
        copy.from_address.bytes == event.from_address.bytes,
        copy.keys@ == event.keys@,
        copy.data@ == event.data@,
{
}

/// A copy of a waiting event has all that the event has.
pub proof fn law_copy_of_a_waiting_event(event: ParallelizedEvent, copy: ParallelizedEvent)
    requires
        call_ensures(<ParallelizedEvent as Clone>::clone, (&event,), copy),
    ensures
        copy.indexing_mode == event.indexing_mode,
        copy.contract_type == event.contract_type,
        copy.block_number == event.block_number,
        copy.block_timestamp == event.block_timestamp,
        copy.event_id@ == event.event_id@,
        copy.event.from_address.bytes == event.event.from_address.bytes,
        copy.event.keys@ == event.event.keys@,
        copy.event.data@ == event.event.data@,
{
}

} // verus!
