//! Block-production core of an optimistic rollup: a mem pool of pending
//! layer-2 transactions and withdrawal requests, a cross-node mem-pool
//! synchronization protocol, and the deterministic assembly of the base-chain
//! transaction that commits an executed layer-2 block (consuming the previous
//! rollup cell and the deposit cells, creating custodian cells, and aligning
//! witnesses with inputs).

use vstd::prelude::*;

pub mod assemble;
pub mod bytes;
pub mod codec;
pub mod custodian;
pub mod mem_pool;
pub mod producer;
pub mod skeleton;
pub mod store;
pub mod sync;
pub mod types;

verus! {

/// Errors surfaced by the block-production core.
///
/// Stale sync messages are absorbed silently and are not errors.
#[derive(Clone, Copy, Debug, PartialEq, Eq, Structural)]
pub enum Error {
    /// A required cell or record is missing (fatal to the current cycle).
    NotFound,
    /// A submitted transaction failed local well-formedness checks.
    InvalidTransaction,
    /// Signature or witness counts do not line up at seal time.
    IncompleteTransaction,
    /// The underlying store refused an operation; callers' state is left as it was.
    StorageFailure,
    /// The base chain rejected the submitted transaction.
    SubmissionFailure,
}

} // verus!
