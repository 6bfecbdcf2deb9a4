//! Pay-per-second stream metering: an escrow ledger with verified
//! accounting invariants and a pool-admission policy for unsigned ticks.

pub mod admission;
pub mod funds;
pub mod pallet;
pub mod rpc;
pub mod store;
pub mod types;
