//! Core data types of the metering ledger.

use vstd::prelude::*;

verus! {

/// Account identifier of the host's accounting system.
pub type AccountId = u64;

/// Unsigned balance amount.
pub type Balance = u128;

/// A priced, creator-owned metered resource.
#[derive(Clone, Copy, PartialEq, Eq, Structural, Debug)]
pub struct Stream {
    /// Owner of the stream, immutable after creation.
    pub creator: AccountId,
    /// Amount charged per tick unit, fixed at creation.
    pub price_per_second: Balance,
    /// Cumulative ticks processed; monotonically non-decreasing.
    pub last_tick: u32,
}

/// Domain events emitted by successful transitions.
#[derive(Clone, Copy, PartialEq, Eq, Structural, Debug)]
pub enum Event {
    StreamCreated { stream_id: u128, creator: AccountId, price: Balance },
    TickProcessed { stream_id: u128, viewer: AccountId, ticks: u32 },
}

/// Why a transition was rejected. A failed transition leaves the
/// ledger unchanged.
#[derive(Clone, Copy, PartialEq, Eq, Structural, Debug)]
pub enum Error {
    /// `create_stream` collided with an existing stream id.
    StreamExists,
    /// The named stream does not exist.
    StreamNotFound,
    /// An escrow hold could not be placed at join time.
    InsufficientFunds,
    /// The reserved amount cannot cover a tick's cost.
    InsufficientBalance,
    /// A balance computation would overflow; the transition fails closed.
    ArithmeticOverflow,
}

} // verus!
