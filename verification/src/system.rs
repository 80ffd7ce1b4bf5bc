//! The system module: the chain's block counter and each account's
//! sequence number (nonce). Pure bookkeeping, with no domain failures.

use crate::table::Table;
use crate::types::{AccountId, BlockNumber, Nonce};
use vstd::prelude::*;

verus! {

/// The nonce recorded for `who` in `nonces`; an absent account counts as zero.
pub open spec fn nonce_in(nonces: Map<Seq<char>, Nonce>, who: Seq<char>) -> Nonce {
    if nonces.dom().contains(who) {
        nonces[who]
    } else {
        0
    }
}

/// The system module's state: the current block number and the map from
/// account to sequence number.
#[derive(Debug)]
pub struct Pallet {
    pub block_number: BlockNumber,
    pub nonce: Table<Nonce>,
}

impl Pallet {
    /// Well-formed: the nonce table keeps each account at most once.
    pub open spec fn wf(&self) -> bool {
        self.nonce.wf()
    }

    /// A fresh system module: no block executed yet, no nonce recorded.
    pub fn new() -> (r: Self)
        ensures
            r.wf(),
            r.block_number == 0,
            r.nonce@ == Map::<Seq<char>, Nonce>::empty(),
    {
        Pallet { block_number: 0, nonce: Table::new() }
    }

    /// The current block number.
    pub fn block_number(&self) -> (r: BlockNumber)
        ensures
            r == self.block_number,
    {
        self.block_number
    }

    /// Advances the block number by exactly one.
    pub fn inc_block_number(&mut self)
        requires
            old(self).block_number < u32::MAX,
        ensures
            final(self).block_number == old(self).block_number + 1,
            final(self).nonce == old(self).nonce,
    {
        self.block_number = self.block_number + 1;
    }

    /// Sets the account's sequence number to its current value plus one;
    /// an account never seen before starts from zero.
    pub fn inc_nonce(&mut self, who: &AccountId)
        requires
            old(self).wf(),
            nonce_in(old(self).nonce@, who@) < u32::MAX,
        ensures
            final(self).wf(),
            final(self).nonce@ == old(self).nonce@.insert(
                who@,
                (nonce_in(old(self).nonce@, who@) + 1) as u32,
            ),
            final(self).block_number == old(self).block_number,
    {
        let current: Nonce = match self.nonce.get(who) {
            Some(v) => *v,
            None => 0,
        };
        self.nonce.insert(who.clone(), current + 1);
    }
}

} // verus!
