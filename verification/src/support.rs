//! Shared support types: the dispatch error taxonomy, the dispatch result,
//! and the record of one failed extrinsic that the executor reports.

use vstd::prelude::*;

verus! {

/// Every typed failure a module operation or the executor can return.
#[derive(Clone, Copy, Debug, PartialEq, Eq, Structural)]
pub enum DispatchError {
    /// A transfer asked for more than the sender holds.
    InsufficientFunds,
    /// A transfer would push the recipient past the balance type's range.
    Overflow,
    /// A claim was created for content that already has an owner.
    AlreadyClaimed,
    /// A claim was revoked for content that has no owner.
    ClaimNotFound,
    /// A claim was revoked by an account that does not own it.
    NotClaimOwner,
    /// A block declared a number other than the one the chain expects.
    BlockNumberMismatch,
}

/// The uniform result of a dispatched operation.
pub type DispatchResult = Result<(), DispatchError>;

/// One failed extrinsic, as the executor reports it: the block it sat in,
/// its index within that block, and the error the dispatch returned.
#[derive(Clone, Copy, Debug, PartialEq, Eq, Structural)]
pub struct ExtrinsicFailure {
    pub block_number: u32,
    pub index: usize,
    pub error: DispatchError,
}

} // verus!
