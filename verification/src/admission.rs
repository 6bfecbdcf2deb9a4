//! The admission policy for unsigned transitions.
//!
//! The external transaction pool consults this policy before an
//! unsigned transition is queued. The policy is pure and stateless: it
//! inspects only the shape of the call, never the ledger, and only the
//! `tick` transition is eligible for unsigned submission.

use vstd::prelude::*;
use crate::types::{AccountId, Balance};

verus! {

/// A transition request, as the pool sees it before execution.
#[derive(Clone, Copy, PartialEq, Eq, Structural, Debug)]
pub enum Call {
    CreateStream { stream_id: u128, price_per_second: Balance },
    JoinStream { stream_id: u128, max_seconds: u32 },
    Tick { stream_id: u128, viewer: AccountId, ticks: u32 },
}

/// Pool ordering priority assigned to every admitted tick.
pub const TICK_PRIORITY: u64 = 100;

/// How many blocks an admitted tick stays valid while pending; stale
/// ticks are dropped rather than applied out of order.
pub const TICK_LONGEVITY: u64 = 5;

/// What the pool is told about an admitted transition.
pub struct ValidTransaction {
    /// Ordering priority among unsigned candidates.
    pub priority: u64,
    /// Blocks the transition remains valid while pending.
    pub longevity: u64,
    /// Whether peers should relay the transition.
    pub propagate: bool,
    /// Deduplication tag: the pool holds at most one pending transition
    /// per tag. The tag is a constant, so at most one tick is pending
    /// system-wide, whichever stream it names.
    pub provides: &'static str,
}

/// The deduplication tag every admitted tick carries.
pub open spec fn dedup_tag() -> Seq<char> {
    "tick"@
}

/// Decides whether an unsigned transition may wait in the pool: only
/// `tick` is admitted, with a fixed priority, a short longevity, a
/// constant deduplication tag, and relaying enabled.
pub fn validate_unsigned(call: &Call) -> (r: Option<ValidTransaction>)
    ensures
        r is Some <==> call is Tick,
        r matches Some(v) ==> {
            &&& v.priority == TICK_PRIORITY
            &&& v.longevity == TICK_LONGEVITY
            &&& v.propagate
            &&& v.provides@ == dedup_tag()
        },
{
    match call {
        Call::Tick { .. } => Some(
            ValidTransaction {
                priority: TICK_PRIORITY,
                longevity: TICK_LONGEVITY,
                propagate: true,
                provides: "tick",
            },
        ),
        _ => None,
    }
}

} // verus!
