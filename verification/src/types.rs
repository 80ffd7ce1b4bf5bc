//! The configuration contract: the shared primitive types that every
//! module binds to. The modules are compiled against one concrete binding,
//! supplied here once for the whole runtime, so each module can speak of
//! "the account type" and its companions without redefining them.

use vstd::prelude::*;

verus! {

/// An account's identifier: an opaque, ordered, cloneable value.
pub type AccountId = String;

/// The global block counter: starts at zero, advances by exactly one per
/// executed block.
pub type BlockNumber = u32;

/// A per-account sequence counter: the number of extrinsics the account
/// has originated.
pub type Nonce = u32;

/// A ledger balance; all arithmetic on it is overflow- and
/// underflow-checked.
pub type Balance = u128;

/// A claimable content value.
pub type Content = String;

} // verus!
