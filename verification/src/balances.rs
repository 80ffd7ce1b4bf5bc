//! The balances module: a ledger from account to balance with a checked
//! transfer operation. A transfer validates both new balances before
//! writing either, so it either updates both or leaves the ledger untouched.

use crate::support::{DispatchError, DispatchResult};
use crate::table::Table;
use crate::types::{AccountId, Balance};
use vstd::prelude::*;

verus! {

/// The balance recorded for `who` in `ledger`; an absent account holds zero.
pub open spec fn balance_in(ledger: Map<Seq<char>, Balance>, who: Seq<char>) -> Balance {
    if ledger.dom().contains(who) {
        ledger[who]
    } else {
        0
    }
}

/// What a transfer does to a ledger: the new ledger on success, or the
/// exact error when the sender lacks funds or the recipient would overflow.
/// The recipient's balance is the one after the debit has landed, so a
/// transfer to oneself conserves the balance and can never overflow.
pub open spec fn transfer_outcome(
    ledger: Map<Seq<char>, u128>,
    caller: Seq<char>,
    to: Seq<char>,
    amount: u128,
) -> Result<Map<Seq<char>, u128>, DispatchError> {
    let caller_balance = balance_in(ledger, caller);
    if caller_balance < amount {
        Err(DispatchError::InsufficientFunds)
    } else {
        let debited = ledger.insert(caller, (caller_balance - amount) as u128);
        let to_balance = balance_in(debited, to);
        if to_balance + amount > u128::MAX {
            Err(DispatchError::Overflow)
        } else {
            Ok(debited.insert(to, (to_balance + amount) as u128))
        }
    }
}

/// The calls the balances module exposes to dispatch.
#[derive(Debug)]
pub enum Call {
    Transfer { to: AccountId, amount: Balance },
}

/// The view of a balances call: the same payload over character sequences.
pub enum CallView {
    Transfer { to: Seq<char>, amount: Balance },
}

impl View for Call {
    type V = CallView;

    open spec fn view(&self) -> CallView {
        match self {
            Call::Transfer { to, amount } => CallView::Transfer { to: to@, amount: *amount },
        }
    }
}

/// What a balances call does to a ledger.
pub open spec fn dispatch_outcome(
    ledger: Map<Seq<char>, u128>,
    caller: Seq<char>,
    call: CallView,
) -> Result<Map<Seq<char>, u128>, DispatchError> {
    match call {
        CallView::Transfer { to, amount } => transfer_outcome(ledger, caller, to, amount),
    }
}

/// The balances module's state: the map from account to balance.
#[derive(Debug)]
pub struct Pallet {
    pub balances: Table<Balance>,
}

impl Pallet {
    /// Well-formed: the ledger keeps each account at most once.
    pub open spec fn wf(&self) -> bool {
        self.balances.wf()
    }

    /// A fresh ledger: every account holds zero.
    pub fn new() -> (r: Self)
        ensures
            r.wf(),
            r.balances@ == Map::<Seq<char>, Balance>::empty(),
    {
        Pallet { balances: Table::new() }
    }

    /// Overwrites the account's balance unconditionally; an initialization
    /// hook, not part of the dispatch surface.
    pub fn set_balance(&mut self, who: &AccountId, amount: Balance)
        requires
            old(self).wf(),
        ensures
            final(self).wf(),
            final(self).balances@ == old(self).balances@.insert(who@, amount),
    {
        self.balances.insert(who.clone(), amount);
    }

    /// The account's balance; an account never funded holds zero.
    pub fn balance(&self, who: &AccountId) -> (r: Balance)
        requires
            self.wf(),
        ensures
            r == balance_in(self.balances@, who@),
    {
        match self.balances.get(who) {
            Some(v) => *v,
            None => 0,
        }
    }

    /// Moves `amount` from `caller` to `to`. Fails with `InsufficientFunds`
    /// when the caller holds less than `amount`, and with `Overflow` when
    /// the recipient's balance after the debit would leave the balance
    /// type's range; on any failure the ledger is left untouched. Both new
    /// balances are validated before either is written, so either both
    /// update or neither does, and a transfer to oneself conserves the
    /// caller's balance.
    pub fn transfer(&mut self, caller: &AccountId, to: &AccountId, amount: Balance) -> (r: DispatchResult)
        requires
            old(self).wf(),
        ensures
            final(self).wf(),
            match transfer_outcome(old(self).balances@, caller@, to@, amount) {
                Ok(ledger) => r is Ok && final(self).balances@ == ledger,
                Err(e) => r == Err::<(), DispatchError>(e) && *final(self) == *old(self),
            },
    {
        let caller_balance = self.balance(caller);

        let new_caller_balance = match caller_balance.checked_sub(amount) {
            Some(v) => v,
            None => {
                return Err(DispatchError::InsufficientFunds);
            },
        };
        let to_balance = if *caller == *to {
            new_caller_balance
        } else {
            self.balance(to)
        };
        let new_to_balance = match to_balance.checked_add(amount) {
            Some(v) => v,
            None => {
                return Err(DispatchError::Overflow);
            },
        };

        self.balances.insert(caller.clone(), new_caller_balance);
        self.balances.insert(to.clone(), new_to_balance);

        Ok(())
    }

    /// Routes a balances call to the operation that handles it and forwards
    /// its result unchanged.
    pub fn dispatch(&mut self, caller: AccountId, call: Call) -> (r: DispatchResult)
        requires
            old(self).wf(),
        ensures
            final(self).wf(),
            match dispatch_outcome(old(self).balances@, caller@, call@) {
                Ok(ledger) => r is Ok && final(self).balances@ == ledger,
                Err(e) => r == Err::<(), DispatchError>(e) && *final(self) == *old(self),
            },
    {
        match call {
            Call::Transfer { to, amount } => self.transfer(&caller, &to, amount),
        }
    }
}

/// Law: a successful transfer between two distinct accounts debits the
/// sender by exactly `amount` and credits the recipient by exactly
/// `amount`; a successful transfer to oneself leaves the balance as it
/// was. Either way the combined balance is conserved and no other account
/// is touched: no transfer creates or destroys balance.
pub proof fn lemma_transfer_conserves(
    ledger: Map<Seq<char>, u128>,
    caller: Seq<char>,
    to: Seq<char>,
    amount: u128,
)
    requires
        transfer_outcome(ledger, caller, to, amount) is Ok,
    ensures
        ({
            let after = transfer_outcome(ledger, caller, to, amount)->Ok_0;
            &&& caller != to ==> balance_in(after, caller) == balance_in(ledger, caller) - amount
            &&& caller != to ==> balance_in(after, to) == balance_in(ledger, to) + amount
            &&& caller == to ==> balance_in(after, caller) == balance_in(ledger, caller)
            &&& balance_in(after, caller) + balance_in(after, to) == balance_in(ledger, caller)
                + balance_in(ledger, to)
            &&& forall|other: Seq<char>|
                other != caller && other != to ==> #[trigger] balance_in(after, other)
                    == balance_in(ledger, other)
        }),
{
}

/// Law: a transfer fails with `InsufficientFunds` exactly when the sender
/// holds less than `amount`, and then changes nothing.
pub proof fn lemma_insufficient_funds(
    ledger: Map<Seq<char>, u128>,
    caller: Seq<char>,
    to: Seq<char>,
    amount: u128,
)
    ensures
        transfer_outcome(ledger, caller, to, amount) == Err::<
            Map<Seq<char>, u128>,
            DispatchError,
        >(DispatchError::InsufficientFunds) <==> amount > balance_in(ledger, caller),
{
}

/// Law: in a fresh ledger, before any assignment or transfer, every
/// account's balance is zero.
pub proof fn lemma_fresh_balance_is_zero(who: Seq<char>)
    ensures
        balance_in(Map::<Seq<char>, u128>::empty(), who) == 0,
{
}

/// Law: an assignment to one account leaves every other account's balance
/// as it was; with the fresh-ledger law and the transfer law's untouched
/// clause, an account no operation has touched still holds zero.
pub proof fn lemma_assignment_leaves_others(
    ledger: Map<Seq<char>, u128>,
    who: Seq<char>,
    other: Seq<char>,
    amount: u128,
)
    requires
        who != other,
    ensures
        balance_in(ledger.insert(other, amount), who) == balance_in(ledger, who),
{
}

} // verus!
