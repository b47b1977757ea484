//! Event records and the errors of the registry.
use vstd::prelude::*;

use crate::ident::{Address, Symbol};

verus! {

/// Why an operation of the registry was refused.
#[derive(Clone, Copy, Debug, PartialEq, Eq, Structural)]
pub enum ContractError {
    /// The caller is not the stored administrator.
    Unauthorized,
    /// The caller is not a current member of the indexer set.
    IndexerNotFound,
    /// An administrator is already stored.
    AlreadyInitialized,
    /// No administrator has been stored yet.
    NotInitialized,
}

impl ContractError {
    /// The numeric code under which the error is reported to callers.
    pub fn code(&self) -> (r: u32)
        ensures
            r == error_code(*self),
    {
        match self {
            ContractError::Unauthorized => 1,
            ContractError::IndexerNotFound => 2,
            ContractError::AlreadyInitialized => 3,
            ContractError::NotInitialized => 4,
        }
    }
}

/// The numeric code of each error.
pub open spec fn error_code(e: ContractError) -> u32 {
    match e {
        ContractError::Unauthorized => 1,
        ContractError::IndexerNotFound => 2,
        ContractError::AlreadyInitialized => 3,
        ContractError::NotInitialized => 4,
    }
}

/// A recorded event of an indexed contract.
#[derive(Clone, Debug, PartialEq, Eq)]
pub struct EventRecord {
    /// The contract whose event is recorded.
    pub contract_id: Address,
    /// The category of the event.
    pub event_type: Symbol,
    /// The digest of the event's payload.
    pub payload_hash: [u8; 32],
    /// The ledger sequence number when the event was recorded.
    pub ledger: u32,
    /// The timestamp when the event was recorded.
    pub timestamp: u64,
}

/// What an [`EventRecord`] holds, with its category as a sequence of bytes.
pub struct EventRecordView {
    pub contract_id: Address,
    pub event_type: Seq<u8>,
    pub payload_hash: [u8; 32],
    pub ledger: u32,
    pub timestamp: u64,
}

impl View for EventRecord {
    type V = EventRecordView;

    open spec fn view(&self) -> EventRecordView {
        EventRecordView {
            contract_id: self.contract_id,
            event_type: self.event_type@,
            payload_hash: self.payload_hash,
            ledger: self.ledger,
            timestamp: self.timestamp,
        }
    }
}

impl EventRecord {
    /// A copy with the same fields.
    pub fn duplicate(&self) -> (r: EventRecord)
        ensures
            r@ == self@,
    {
        EventRecord {
            contract_id: self.contract_id,
            event_type: self.event_type.duplicate(),
            payload_hash: self.payload_hash,
            ledger: self.ledger,
            timestamp: self.timestamp,
        }
    }
}

} // verus!
