//! An access-controlled event registry: one administrator appoints indexers,
//! indexers append event records, and anyone can read the latest record of a
//! category and the running total.
pub mod ident;
pub mod record;
pub mod state;
pub mod contract;
pub mod laws;

pub use ident::{Address, Symbol};
pub use record::{ContractError, EventRecord};
pub use contract::SoroScanCore;
