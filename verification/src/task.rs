//! Typing aid for `async` blocks.

use std::future::Future;
use vstd::future::FutureAdditionalSpecFns;
use vstd::prelude::*;

verus! {

/// Hands a future back unchanged. It serves only to fix the output type of an
/// `async` block, which the caller names as `T`.
pub fn async_block_type<T>(fut: impl Future<Output = T>) -> (same: impl Future<Output = T>)
    ensures
        same@ == fut@,
        same.awaited() == fut.awaited(),
{
    fut
}

} // verus!
