//! The claim registry module: an exclusive association from a claimed
//! content value to the owning account. A claim is created only when the
//! content is unowned and revoked only by its current owner.

use crate::support::{DispatchError, DispatchResult};
use crate::table::Table;
use crate::types::{AccountId, Content};
use vstd::prelude::*;

verus! {

/// What creating a claim does to a registry: fails with `AlreadyClaimed`
/// exactly when the content already has an owner, else records the caller.
pub open spec fn create_outcome(
    registry: Map<Seq<char>, Seq<char>>,
    caller: Seq<char>,
    claim: Seq<char>,
) -> Result<Map<Seq<char>, Seq<char>>, DispatchError> {
    if registry.dom().contains(claim) {
        Err(DispatchError::AlreadyClaimed)
    } else {
        Ok(registry.insert(claim, caller))
    }
}

/// What revoking a claim does to a registry: fails with `ClaimNotFound`
/// when the content has no owner, with `NotClaimOwner` when the owner is
/// not the caller, else removes the entry.
pub open spec fn revoke_outcome(
    registry: Map<Seq<char>, Seq<char>>,
    caller: Seq<char>,
    claim: Seq<char>,
) -> Result<Map<Seq<char>, Seq<char>>, DispatchError> {
    if !registry.dom().contains(claim) {
        Err(DispatchError::ClaimNotFound)
    } else if registry[claim] != caller {
        Err(DispatchError::NotClaimOwner)
    } else {
        Ok(registry.remove(claim))
    }
}

/// The calls the claim registry exposes to dispatch.
#[derive(Debug)]
pub enum Call {
    CreateClaim { claim: Content },
    RevokeClaim { claim: Content },
}

/// The view of a claim call: the same payload over character sequences.
pub enum CallView {
    CreateClaim { claim: Seq<char> },
    RevokeClaim { claim: Seq<char> },
}

impl View for Call {
    type V = CallView;

    open spec fn view(&self) -> CallView {
        match self {
            Call::CreateClaim { claim } => CallView::CreateClaim { claim: claim@ },
            Call::RevokeClaim { claim } => CallView::RevokeClaim { claim: claim@ },
        }
    }
}

/// What a claim call does to a registry.
pub open spec fn dispatch_outcome(
    registry: Map<Seq<char>, Seq<char>>,
    caller: Seq<char>,
    call: CallView,
) -> Result<Map<Seq<char>, Seq<char>>, DispatchError> {
    match call {
        CallView::CreateClaim { claim } => create_outcome(registry, caller, claim),
        CallView::RevokeClaim { claim } => revoke_outcome(registry, caller, claim),
    }
}

/// The claim registry's state: the map from content to owning account.
#[derive(Debug)]
pub struct Pallet {
    pub claims: Table<AccountId>,
}

/// Viewing the stored owners as character sequences commutes with insert.
proof fn lemma_owners_insert(stored: Map<Seq<char>, String>, claim: Seq<char>, owner: String)
    ensures
        stored.insert(claim, owner).map_values(|v: String| v@) == stored.map_values(
            |v: String| v@,
        ).insert(claim, owner@),
{
    assert(stored.insert(claim, owner).map_values(|v: String| v@) =~= stored.map_values(
        |v: String| v@,
    ).insert(claim, owner@));
}

/// Viewing the stored owners as character sequences commutes with remove.
proof fn lemma_owners_remove(stored: Map<Seq<char>, String>, claim: Seq<char>)
    ensures
        stored.remove(claim).map_values(|v: String| v@) == stored.map_values(
            |v: String| v@,
        ).remove(claim),
{
    assert(stored.remove(claim).map_values(|v: String| v@) =~= stored.map_values(
        |v: String| v@,
    ).remove(claim));
}

impl Pallet {
    /// Well-formed: the registry keeps each content value at most once.
    pub open spec fn wf(&self) -> bool {
        self.claims.wf()
    }

    /// The registry as a map from content to owner, over character sequences.
    pub open spec fn spec_claims(&self) -> Map<Seq<char>, Seq<char>> {
        self.claims@.map_values(|v: String| v@)
    }

    /// A fresh registry: nothing is claimed.
    pub fn new() -> (r: Self)
        ensures
            r.wf(),
            r.spec_claims() == Map::<Seq<char>, Seq<char>>::empty(),
    {
        let r = Pallet { claims: Table::new() };
        proof {
            assert(r.spec_claims() =~= Map::<Seq<char>, Seq<char>>::empty());
        }
        r
    }

    /// The owner of `claim`, if the content is claimed.
    pub fn get_claim(&self, claim: &Content) -> (r: Option<&AccountId>)
        requires
            self.wf(),
        ensures
            match r {
                Some(owner) => self.spec_claims().dom().contains(claim@) && owner@
                    == self.spec_claims()[claim@],
                None => !self.spec_claims().dom().contains(claim@),
            },
    {
        self.claims.get(claim)
    }

    /// Records the caller as owner of `claim`. Fails with `AlreadyClaimed`,
    /// changing nothing, exactly when the content already has an owner.
    pub fn create_claim(&mut self, caller: AccountId, claim: Content) -> (r: DispatchResult)
        requires
            old(self).wf(),
        ensures
            final(self).wf(),
            match create_outcome(old(self).spec_claims(), caller@, claim@) {
                Ok(registry) => r is Ok && final(self).spec_claims() == registry,
                Err(e) => r == Err::<(), DispatchError>(e) && *final(self) == *old(self),
            },
    {
        if self.claims.contains_key(&claim) {
            return Err(DispatchError::AlreadyClaimed);
        }
        proof {
            lemma_owners_insert(self.claims@, claim@, caller);
        }
        self.claims.insert(claim, caller);
        Ok(())
    }

    /// Removes the caller's claim to `claim`. Fails with `ClaimNotFound`
    /// when the content has no owner and with `NotClaimOwner` when the
    /// owner is some other account; no failure changes the registry.
    pub fn revoke_claim(&mut self, caller: AccountId, claim: Content) -> (r: DispatchResult)
        requires
            old(self).wf(),
        ensures
            final(self).wf(),
            match revoke_outcome(old(self).spec_claims(), caller@, claim@) {
                Ok(registry) => r is Ok && final(self).spec_claims() == registry,
                Err(e) => r == Err::<(), DispatchError>(e) && *final(self) == *old(self),
            },
    {
        let owner = match self.claims.get(&claim) {
            None => {
                return Err(DispatchError::ClaimNotFound);
            },
            Some(o) => o,
        };
        if !(*owner == caller) {
            return Err(DispatchError::NotClaimOwner);
        }
        proof {
            lemma_owners_remove(self.claims@, claim@);
        }
        self.claims.remove(&claim);
        Ok(())
    }

    /// Routes a claim call to the operation that handles it and forwards
    /// its result unchanged.
    pub fn dispatch(&mut self, caller: AccountId, call: Call) -> (r: DispatchResult)
        requires
            old(self).wf(),
        ensures
            final(self).wf(),
            match dispatch_outcome(old(self).spec_claims(), caller@, call@) {
                Ok(registry) => r is Ok && final(self).spec_claims() == registry,
                Err(e) => r == Err::<(), DispatchError>(e) && *final(self) == *old(self),
            },
    {
        match call {
            Call::CreateClaim { claim } => self.create_claim(caller, claim),
            Call::RevokeClaim { claim } => self.revoke_claim(caller, claim),
        }
    }
}

/// Law: creating a claim fails with `AlreadyClaimed` exactly when the
/// content already has an owner; and after a successful create followed by
/// the same account's revoke, the content is unclaimed again.
pub proof fn lemma_claim_round_trip(
    registry: Map<Seq<char>, Seq<char>>,
    owner: Seq<char>,
    claim: Seq<char>,
)
    ensures
        create_outcome(registry, owner, claim) == Err::<
            Map<Seq<char>, Seq<char>>,
            DispatchError,
        >(DispatchError::AlreadyClaimed) <==> registry.dom().contains(claim),
        !registry.dom().contains(claim) ==> ({
            let created = create_outcome(registry, owner, claim)->Ok_0;
            &&& revoke_outcome(created, owner, claim) is Ok
            &&& !(revoke_outcome(created, owner, claim)->Ok_0).dom().contains(claim)
        }),
{
}

/// Law: revoking by an account other than the owner fails with
/// `NotClaimOwner`, and the registry is unchanged by the failed call.
pub proof fn lemma_revoke_by_stranger(
    registry: Map<Seq<char>, Seq<char>>,
    caller: Seq<char>,
    claim: Seq<char>,
)
    requires
        registry.dom().contains(claim),
        registry[claim] != caller,
    ensures
        revoke_outcome(registry, caller, claim) == Err::<
            Map<Seq<char>, Seq<char>>,
            DispatchError,
        >(DispatchError::NotClaimOwner),
{
}

} // verus!
