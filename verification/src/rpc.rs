//! Types handed to the host's query-serving layer.

use vstd::prelude::*;
use std::sync::Arc;

verus! {

/// Everything the query-serving layer needs to answer reads.
pub struct FullDeps<C, P> {
    /// The client instance to use.
    pub client: Arc<C>,
    /// Transaction pool instance.
    pub pool: Arc<P>,
}

} // verus!
