//! The registry's state as a mathematical value, and what each operation does
//! to it.
use vstd::prelude::*;

use crate::ident::Address;
use crate::record::{ContractError, EventRecordView};

verus! {

/// The registry's persistent state.
pub struct CoreState {
    /// The administrator, once one is stored.
    pub admin: Option<Address>,
    /// The identities allowed to record events.
    pub indexers: Set<Address>,
    /// How many events have been recorded, saturating at the largest `u64`.
    pub count: u64,
    /// The latest record of each category that has been recorded.
    pub latest: Map<Seq<u8>, EventRecordView>,
}

impl CoreState {
    /// A deployment on which nothing has been done.
    pub open spec fn empty() -> CoreState {
        CoreState { admin: None, indexers: Set::empty(), count: 0, latest: Map::empty() }
    }

    /// Before initialization nothing but the empty state is reachable.
    pub open spec fn wf(self) -> bool {
        self.admin is None ==> self == CoreState::empty()
    }

    /// Whether `a` may record events.
    pub open spec fn is_indexer(self, a: Address) -> bool {
        self.indexers.contains(a)
    }
}

/// The counter after one more event: one higher, unless it is already at the
/// largest `u64`.
pub open spec fn saturating_inc(c: u64) -> u64 {
    if c < u64::MAX {
        (c + 1) as u64
    } else {
        c
    }
}

/// `init(admin)`: stores the administrator, an empty indexer set and a zero
/// counter, unless an administrator is already stored.
pub open spec fn init_step(s: CoreState, admin: Address) -> (CoreState, Result<(), ContractError>) {
    if s.admin is Some {
        (s, Err(ContractError::AlreadyInitialized))
    } else {
        (CoreState { admin: Some(admin), indexers: Set::empty(), count: 0, ..s }, Ok(()))
    }
}

/// The check shared by the two operations of the administrator.
pub open spec fn admin_check(s: CoreState, admin: Address) -> Result<(), ContractError> {
    match s.admin {
        None => Err(ContractError::NotInitialized),
        Some(a) => if a == admin {
            Ok(())
        } else {
            Err(ContractError::Unauthorized)
        },
    }
}

/// `add_indexer(admin, indexer)`: the stored administrator makes `indexer` a
/// member.
pub open spec fn add_step(s: CoreState, admin: Address, indexer: Address) -> (
    CoreState,
    Result<(), ContractError>,
) {
    match admin_check(s, admin) {
        Err(e) => (s, Err(e)),
        Ok(_) => (CoreState { indexers: s.indexers.insert(indexer), ..s }, Ok(())),
    }
}

/// `remove_indexer(admin, indexer)`: the stored administrator takes `indexer`
/// out of the set; removing a non-member succeeds and changes nothing.
pub open spec fn remove_step(s: CoreState, admin: Address, indexer: Address) -> (
    CoreState,
    Result<(), ContractError>,
) {
    match admin_check(s, admin) {
        Err(e) => (s, Err(e)),
        Ok(_) => (CoreState { indexers: s.indexers.remove(indexer), ..s }, Ok(())),
    }
}

/// `record_event`: a member of the indexer set records `rec`, which becomes
/// the latest record of its category; the counter goes up by one and its new
/// value is returned.
pub open spec fn record_step(s: CoreState, indexer: Address, rec: EventRecordView) -> (
    CoreState,
    Result<u64, ContractError>,
) {
    if s.admin is None {
        (s, Err(ContractError::NotInitialized))
    } else if !s.indexers.contains(indexer) {
        (s, Err(ContractError::IndexerNotFound))
    } else {
        let c = saturating_inc(s.count);
        (CoreState { count: c, latest: s.latest.insert(rec.event_type, rec), ..s }, Ok(c))
    }
}

} // verus!
