//! A minimal state-transition runtime: independent state modules (pallets)
//! composed under one block executor. The system pallet keeps the block
//! counter and per-account sequence numbers, the balances pallet keeps a
//! checked ledger, and the claims pallet keeps an exclusive content registry.
//! A block is a numbered sequence of extrinsics; the executor advances the
//! block counter, checks the declared number, and applies each extrinsic in
//! order, isolating per-extrinsic failures.

pub mod balances;
pub mod proof_of_existence;
pub mod support;
pub mod system;
pub mod table;
pub mod types;

use crate::support::{DispatchError, DispatchResult, ExtrinsicFailure};
use crate::types::{AccountId, BlockNumber, Nonce};
use vstd::prelude::*;

verus! {

/// The outer operation union: one variant per composed module, each
/// wrapping that module's own operation union.
#[derive(Debug)]
pub enum RuntimeCall {
    Balances(balances::Call),
    ProofOfExistence(proof_of_existence::Call),
}

/// The view of a runtime call.
pub enum RuntimeCallView {
    Balances(balances::CallView),
    ProofOfExistence(proof_of_existence::CallView),
}

impl View for RuntimeCall {
    type V = RuntimeCallView;

    open spec fn view(&self) -> RuntimeCallView {
        match self {
            RuntimeCall::Balances(call) => RuntimeCallView::Balances(call@),
            RuntimeCall::ProofOfExistence(call) => RuntimeCallView::ProofOfExistence(call@),
        }
    }
}

/// A block header: the number the block claims to be.
#[derive(Debug)]
pub struct Header {
    pub block_number: BlockNumber,
}

/// An externally submitted operation: the authenticated caller and the
/// call to apply on the caller's behalf.
#[derive(Debug)]
pub struct Extrinsic {
    pub caller: AccountId,
    pub call: RuntimeCall,
}

/// The view of an extrinsic.
pub struct ExtrinsicView {
    pub caller: Seq<char>,
    pub call: RuntimeCallView,
}

impl View for Extrinsic {
    type V = ExtrinsicView;

    open spec fn view(&self) -> ExtrinsicView {
        ExtrinsicView { caller: self.caller@, call: self.call@ }
    }
}

/// A block: a header and the ordered extrinsics to apply.
#[derive(Debug)]
pub struct Block {
    pub header: Header,
    pub extrinsics: Vec<Extrinsic>,
}

/// The whole runtime state as mathematics: the block counter, each
/// account's sequence number, the ledger, and the claim registry.
pub struct StateModel {
    pub block_number: u32,
    pub nonces: Map<Seq<char>, u32>,
    pub balances: Map<Seq<char>, u128>,
    pub claims: Map<Seq<char>, Seq<char>>,
}

/// The state a freshly constructed runtime is in.
pub open spec fn initial_state() -> StateModel {
    StateModel {
        block_number: 0,
        nonces: Map::empty(),
        balances: Map::empty(),
        claims: Map::empty(),
    }
}

/// What dispatching one call does to the runtime state: the state after
/// the call and the result handed back, the module failure unchanged.
pub open spec fn dispatch_outcome(s: StateModel, caller: Seq<char>, call: RuntimeCallView) -> (
    StateModel,
    Result<(), DispatchError>,
) {
    match call {
        RuntimeCallView::Balances(call) => match balances::dispatch_outcome(
            s.balances,
            caller,
            call,
        ) {
            Ok(ledger) => (StateModel { balances: ledger, ..s }, Ok(())),
            Err(e) => (s, Err(e)),
        },
        RuntimeCallView::ProofOfExistence(call) => match proof_of_existence::dispatch_outcome(
            s.claims,
            caller,
            call,
        ) {
            Ok(registry) => (StateModel { claims: registry, ..s }, Ok(())),
            Err(e) => (s, Err(e)),
        },
    }
}

/// The state with the caller's sequence number advanced by one.
pub open spec fn bump_nonce(s: StateModel, caller: Seq<char>) -> StateModel {
    StateModel {
        nonces: s.nonces.insert(caller, (system::nonce_in(s.nonces, caller) + 1) as u32),
        ..s
    }
}

/// What applying one extrinsic does: the caller's sequence number advances
/// first, then the call is dispatched, whatever its outcome.
pub open spec fn apply_extrinsic(s: StateModel, e: ExtrinsicView) -> (
    StateModel,
    Result<(), DispatchError>,
) {
    dispatch_outcome(bump_nonce(s, e.caller), e.caller, e.call)
}

/// The state with the block counter advanced by one.
pub open spec fn advance_block_number(s: StateModel) -> StateModel {
    StateModel { block_number: (s.block_number + 1) as u32, ..s }
}

/// What applying the extrinsics of one block, in order, does: the final
/// state, and the failure reports that the executor hands to its caller.
/// A failed extrinsic is recorded and execution continues.
pub open spec fn run_extrinsics(
    s: StateModel,
    extrinsics: Seq<ExtrinsicView>,
    block_number: u32,
) -> (StateModel, Seq<ExtrinsicFailure>)
    decreases extrinsics.len(),
{
    if extrinsics.len() == 0 {
        (s, Seq::empty())
    } else {
        let (mid, reports) = run_extrinsics(s, extrinsics.drop_last(), block_number);
        let (next, res) = apply_extrinsic(mid, extrinsics.last());
        match res {
            Ok(_) => (next, reports),
            Err(e) => (
                next,
                reports.push(
                    ExtrinsicFailure {
                        block_number,
                        index: (extrinsics.len() - 1) as usize,
                        error: e,
                    },
                ),
            ),
        }
    }
}

/// The extrinsics of a block as their views.
pub open spec fn extrinsic_views(extrinsics: Seq<Extrinsic>) -> Seq<ExtrinsicView> {
    extrinsics.map_values(|e: Extrinsic| e@)
}

/// Every caller in `extrinsics` can originate its extrinsics, as many
/// times as it appears, without its sequence number leaving the counter
/// type's range. An account that originates nothing is not constrained.
pub open spec fn callers_headroom(
    nonces: Map<Seq<char>, Nonce>,
    extrinsics: Seq<ExtrinsicView>,
) -> bool {
    forall|who: Seq<char>|
        #[trigger] system::nonce_in(nonces, who) + extrinsics_originated(extrinsics, who)
            <= u32::MAX
}

/// The runtime: one instance of each module, mutated only through block
/// execution after genesis initialization.
#[derive(Debug)]
pub struct Runtime {
    pub system: system::Pallet,
    pub balances: balances::Pallet,
    pub poe: proof_of_existence::Pallet,
}

impl View for Runtime {
    type V = StateModel;

    open spec fn view(&self) -> StateModel {
        StateModel {
            block_number: self.system.block_number,
            nonces: self.system.nonce@,
            balances: self.balances.balances@,
            claims: self.poe.spec_claims(),
        }
    }
}

impl Runtime {
    /// Well-formed: every module's state container is well-formed.
    pub open spec fn wf(&self) -> bool {
        &&& self.system.wf()
        &&& self.balances.wf()
        &&& self.poe.wf()
    }

    /// A fresh runtime: all module state empty, no block executed.
    pub fn new() -> (r: Self)
        ensures
            r.wf(),
            r@ == initial_state(),
    {
        let r = Runtime {
            system: system::Pallet::new(),
            balances: balances::Pallet::new(),
            poe: proof_of_existence::Pallet::new(),
        };
        proof {
            assert(r@ == initial_state());
        }
        r
    }

    /// Routes a call to the owning module as `caller` and forwards the
    /// module's result unchanged.
    pub fn dispatch(&mut self, caller: AccountId, runtime_call: RuntimeCall) -> (r: DispatchResult)
        requires
            old(self).wf(),
        ensures
            final(self).wf(),
            final(self)@ == dispatch_outcome(old(self)@, caller@, runtime_call@).0,
            r == dispatch_outcome(old(self)@, caller@, runtime_call@).1,
    {
        let r = match runtime_call {
            RuntimeCall::Balances(call) => self.balances.dispatch(caller, call),
            RuntimeCall::ProofOfExistence(call) => self.poe.dispatch(caller, call),
        };
        proof {
            if r is Ok {
                assert(r->Ok_0 == ());
            }
        }
        r
    }

    /// Executes one block: advances the block counter, fails with
    /// `BlockNumberMismatch` (applying no extrinsic) when the block declares
    /// a different number, and otherwise applies every extrinsic in order —
    /// advancing the caller's sequence number before each dispatch — and
    /// returns the reports of the extrinsics whose dispatch failed. One bad
    /// extrinsic never halts the block.
    pub fn execute_block(&mut self, block: Block) -> (r: Result<Vec<ExtrinsicFailure>, DispatchError>)
        requires
            old(self).wf(),
            old(self)@.block_number < u32::MAX,
            block.header.block_number == old(self)@.block_number + 1 ==> callers_headroom(
                old(self)@.nonces,
                extrinsic_views(block.extrinsics@),
            ),
        ensures
            final(self).wf(),
            ({
                let advanced = advance_block_number(old(self)@);
                let outcome = run_extrinsics(
                    advanced,
                    extrinsic_views(block.extrinsics@),
                    block.header.block_number,
                );
                if block.header.block_number != old(self)@.block_number + 1 {
                    &&& r == Err::<Vec<ExtrinsicFailure>, DispatchError>(
                        DispatchError::BlockNumberMismatch,
                    )
                    &&& final(self)@ == advanced
                } else {
                    &&& r matches Ok(reports) && reports@ == outcome.1
                    &&& final(self)@ == outcome.0
                }
            }),
    {
        self.system.inc_block_number();
        let block_number = self.system.block_number();
        if block_number != block.header.block_number {
            return Err(DispatchError::BlockNumberMismatch);
        }
        let ghost advanced = self@;
        let ghost all = extrinsic_views(block.extrinsics@);

        let mut reports: Vec<ExtrinsicFailure> = Vec::new();
        let mut extrinsics = block.extrinsics;
        let n = extrinsics.len();
        let mut i: usize = 0;
        proof {
            assert(all.skip(0) =~= all);
        }
        while i < n
            invariant
                self.wf(),
                n == all.len(),
                i <= n,
                extrinsics@.len() == n - i,
                extrinsic_views(extrinsics@) == all.skip(i as int),
                (self@, reports@) == run_extrinsics(advanced, all.take(i as int), block_number),
                callers_headroom(self@.nonces, all.skip(i as int)),
            decreases n - i,
        {
            let ghost before = self@;
            let ghost prev = extrinsics@;
            let ext = extrinsics.remove(0);
            proof {
                assert(ext == prev[0]);
                assert(extrinsic_views(prev)[0] == prev[0]@);
                assert(all.skip(i as int)[0] == all[i as int]);
                assert(ext@ == all[i as int]);
                assert forall|j: int| 0 <= j < extrinsics@.len() implies #[trigger] extrinsic_views(
                    extrinsics@,
                )[j] == all.skip(i + 1)[j] by {
                    assert(extrinsics@[j] == prev[j + 1]);
                    assert(extrinsic_views(extrinsics@)[j] == prev[j + 1]@);
                    assert(extrinsic_views(prev)[j + 1] == prev[j + 1]@);
                    assert(all.skip(i as int)[j + 1] == all[i + 1 + j]);
                    assert(all.skip(i + 1)[j] == all[i + 1 + j]);
                }
                assert(extrinsic_views(extrinsics@) =~= all.skip(i + 1));
                lemma_originated_skip(all.skip(i as int), ext.caller@);
                assert(extrinsics_originated(all.skip(i as int), ext.caller@) >= 1);
                assert(system::nonce_in(self@.nonces, ext.caller@) + extrinsics_originated(
                    all.skip(i as int),
                    ext.caller@,
                ) <= u32::MAX);
            }
            self.system.inc_nonce(&ext.caller);
            proof {
                assert(self@ == bump_nonce(before, ext.caller@));
            }
            let res = self.dispatch(ext.caller, ext.call);
            if let Err(e) = res {
                reports.push(ExtrinsicFailure { block_number, index: i, error: e });
            }
            proof {
                let taken = all.take(i + 1);
                assert(taken.drop_last() =~= all.take(i as int));
                assert(taken.last() == all[i as int]);
                assert((self@, reports@) == run_extrinsics(advanced, taken, block_number));
                assert forall|who: Seq<char>|
                    #[trigger] system::nonce_in(self@.nonces, who) + extrinsics_originated(
                        all.skip(i + 1),
                        who,
                    ) <= u32::MAX by {
                    lemma_originated_skip(all.skip(i as int), who);
                    assert(all.skip(i as int).skip(1) =~= all.skip(i + 1));
                    assert(system::nonce_in(before.nonces, who) + extrinsics_originated(
                        all.skip(i as int),
                        who,
                    ) <= u32::MAX);
                    if who != ext.caller@ {
                        assert(system::nonce_in(self@.nonces, who) == system::nonce_in(
                            before.nonces,
                            who,
                        ));
                    }
                }
            }
            i = i + 1;
        }
        proof {
            assert(all.take(n as int) =~= all);
        }
        Ok(reports)
    }
}

/// The number of extrinsics in `extrinsics` that `who` originated.
pub open spec fn extrinsics_originated(extrinsics: Seq<ExtrinsicView>, who: Seq<char>) -> nat
    decreases extrinsics.len(),
{
    if extrinsics.len() == 0 {
        0
    } else {
        extrinsics_originated(extrinsics.drop_last(), who) + (if extrinsics.last().caller == who {
            1nat
        } else {
            0nat
        })
    }
}

/// Splitting off the first extrinsic splits the originated count.
proof fn lemma_originated_skip(extrinsics: Seq<ExtrinsicView>, who: Seq<char>)
    requires
        extrinsics.len() > 0,
    ensures
        extrinsics_originated(extrinsics, who) == extrinsics_originated(extrinsics.skip(1), who)
            + (if extrinsics[0].caller == who {
            1nat
        } else {
            0nat
        }),
    decreases extrinsics.len(),
{
    if extrinsics.len() == 1 {
        assert(extrinsics.skip(1) =~= extrinsics.drop_last());
        assert(extrinsics.last() == extrinsics[0]);
    } else {
        let shorter = extrinsics.drop_last();
        lemma_originated_skip(shorter, who);
        assert(shorter[0] == extrinsics[0]);
        assert(shorter.skip(1) =~= extrinsics.skip(1).drop_last());
        assert(extrinsics.skip(1).last() == extrinsics.last());
    }
}

/// Law: applying extrinsics advances each account's sequence number by
/// exactly the number of extrinsics that account originated, whether or not
/// each dispatch succeeded.
pub proof fn lemma_nonce_counts_extrinsics(
    s: StateModel,
    extrinsics: Seq<ExtrinsicView>,
    block_number: u32,
    who: Seq<char>,
)
    requires
        callers_headroom(s.nonces, extrinsics),
    ensures
        system::nonce_in(run_extrinsics(s, extrinsics, block_number).0.nonces, who)
            == system::nonce_in(s.nonces, who) + extrinsics_originated(extrinsics, who),
    decreases extrinsics.len(),
{
    if extrinsics.len() > 0 {
        let prefix = extrinsics.drop_last();
        let e = extrinsics.last();
        assert forall|a: Seq<char>| #[trigger] system::nonce_in(s.nonces, a)
            + extrinsics_originated(prefix, a) <= u32::MAX by {
            assert(system::nonce_in(s.nonces, a) + extrinsics_originated(extrinsics, a)
                <= u32::MAX);
        }
        lemma_nonce_counts_extrinsics(s, prefix, block_number, who);
        lemma_nonce_counts_extrinsics(s, prefix, block_number, e.caller);
        assert(system::nonce_in(s.nonces, e.caller) + extrinsics_originated(extrinsics, e.caller)
            <= u32::MAX);
        assert(extrinsics_originated(extrinsics, e.caller) == extrinsics_originated(
            prefix,
            e.caller,
        ) + 1);
    }
}

} // verus!
