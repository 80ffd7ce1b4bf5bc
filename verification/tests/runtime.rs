use mini_runtime::balances;
use mini_runtime::proof_of_existence;
use mini_runtime::support::{DispatchError, ExtrinsicFailure};
use mini_runtime::{Block, Extrinsic, Header, Runtime, RuntimeCall};

fn transfer(caller: &str, to: &str, amount: u128) -> Extrinsic {
    Extrinsic {
        caller: caller.to_string(),
        call: RuntimeCall::Balances(balances::Call::Transfer {
            to: to.to_string(),
            amount,
        }),
    }
}

fn create_claim(caller: &str, claim: &str) -> Extrinsic {
    Extrinsic {
        caller: caller.to_string(),
        call: RuntimeCall::ProofOfExistence(proof_of_existence::Call::CreateClaim {
            claim: claim.to_string(),
        }),
    }
}

fn revoke_claim(caller: &str, claim: &str) -> Extrinsic {
    Extrinsic {
        caller: caller.to_string(),
        call: RuntimeCall::ProofOfExistence(proof_of_existence::Call::RevokeClaim {
            claim: claim.to_string(),
        }),
    }
}

#[test]
fn block_of_transfers() {
    let mut runtime = Runtime::new();
    runtime.balances.set_balance(&"alice".to_string(), 100);

    let block = Block {
        header: Header { block_number: 1 },
        extrinsics: vec![transfer("alice", "bob", 30), transfer("alice", "charlie", 20)],
    };
    let reports = runtime.execute_block(block).expect("invalid block");

    assert!(reports.is_empty());
    assert_eq!(runtime.balances.balance(&"alice".to_string()), 50);
    assert_eq!(runtime.balances.balance(&"bob".to_string()), 30);
    assert_eq!(runtime.balances.balance(&"charlie".to_string()), 20);
    assert_eq!(runtime.system.block_number(), 1);
    assert_eq!(runtime.system.nonce.get(&"alice".to_string()), Some(&2));
}

#[test]
fn failed_extrinsic_is_reported_not_fatal() {
    let mut runtime = Runtime::new();
    runtime.balances.set_balance(&"alice".to_string(), 100);

    let block = Block {
        header: Header { block_number: 1 },
        extrinsics: vec![transfer("alice", "bob", 1000)],
    };
    let reports = runtime.execute_block(block).expect("invalid block");

    assert_eq!(
        reports,
        vec![ExtrinsicFailure {
            block_number: 1,
            index: 0,
            error: DispatchError::InsufficientFunds,
        }]
    );
    assert_eq!(runtime.balances.balance(&"alice".to_string()), 100);
    assert_eq!(runtime.balances.balance(&"bob".to_string()), 0);
    assert_eq!(runtime.system.nonce.get(&"alice".to_string()), Some(&1));
}

#[test]
fn block_number_mismatch_applies_nothing() {
    let mut runtime = Runtime::new();
    runtime.balances.set_balance(&"alice".to_string(), 100);

    let block = Block {
        header: Header { block_number: 2 },
        extrinsics: vec![transfer("alice", "bob", 30)],
    };
    assert_eq!(
        runtime.execute_block(block),
        Err(DispatchError::BlockNumberMismatch)
    );
    assert_eq!(runtime.system.block_number(), 1);
    assert_eq!(runtime.system.nonce.get(&"alice".to_string()), None);
    assert_eq!(runtime.balances.balance(&"alice".to_string()), 100);
    assert_eq!(runtime.balances.balance(&"bob".to_string()), 0);
}

#[test]
fn claims_through_block_execution() {
    let mut runtime = Runtime::new();

    let block = Block {
        header: Header { block_number: 1 },
        extrinsics: vec![
            create_claim("A", "X"),
            create_claim("B", "X"),
            revoke_claim("A", "X"),
            create_claim("B", "X"),
        ],
    };
    let reports = runtime.execute_block(block).expect("invalid block");

    assert_eq!(
        reports,
        vec![ExtrinsicFailure {
            block_number: 1,
            index: 1,
            error: DispatchError::AlreadyClaimed,
        }]
    );
    assert_eq!(
        runtime.poe.get_claim(&"X".to_string()),
        Some(&"B".to_string())
    );
    assert_eq!(runtime.system.nonce.get(&"A".to_string()), Some(&2));
    assert_eq!(runtime.system.nonce.get(&"B".to_string()), Some(&2));
}

#[test]
fn dispatch_routes_to_owning_module() {
    let mut runtime = Runtime::new();
    runtime.balances.set_balance(&"alice".to_string(), 10);

    let call = RuntimeCall::Balances(balances::Call::Transfer {
        to: "bob".to_string(),
        amount: 4,
    });
    assert_eq!(runtime.dispatch("alice".to_string(), call), Ok(()));
    assert_eq!(runtime.balances.balance(&"bob".to_string()), 4);

    let call = RuntimeCall::ProofOfExistence(proof_of_existence::Call::RevokeClaim {
        claim: "X".to_string(),
    });
    assert_eq!(
        runtime.dispatch("alice".to_string(), call),
        Err(DispatchError::ClaimNotFound)
    );
}

#[test]
fn nonces_accumulate_across_blocks() {
    let mut runtime = Runtime::new();
    runtime.balances.set_balance(&"alice".to_string(), 100);

    let block_1 = Block {
        header: Header { block_number: 1 },
        extrinsics: vec![transfer("alice", "bob", 10)],
    };
    let block_2 = Block {
        header: Header { block_number: 2 },
        extrinsics: vec![transfer("alice", "bob", 10), transfer("bob", "alice", 5)],
    };
    runtime.execute_block(block_1).expect("invalid block");
    runtime.execute_block(block_2).expect("invalid block");

    assert_eq!(runtime.system.block_number(), 2);
    assert_eq!(runtime.system.nonce.get(&"alice".to_string()), Some(&2));
    assert_eq!(runtime.system.nonce.get(&"bob".to_string()), Some(&1));
    assert_eq!(runtime.balances.balance(&"alice".to_string()), 85);
    assert_eq!(runtime.balances.balance(&"bob".to_string()), 15);
}

#[test]
fn self_transfer_in_block_conserves_total() {
    let mut runtime = Runtime::new();
    runtime.balances.set_balance(&"alice".to_string(), 100);

    let block = Block {
        header: Header { block_number: 1 },
        extrinsics: vec![transfer("alice", "alice", 10)],
    };
    let reports = runtime.execute_block(block).expect("invalid block");

    assert!(reports.is_empty());
    assert_eq!(runtime.balances.balance(&"alice".to_string()), 100);
    assert_eq!(runtime.system.nonce.get(&"alice".to_string()), Some(&1));
}

#[test]
fn fresh_runtime_is_empty() {
    let runtime = Runtime::new();
    assert_eq!(runtime.system.block_number(), 0);
    assert_eq!(runtime.balances.balance(&"anyone".to_string()), 0);
    assert_eq!(runtime.poe.get_claim(&"anything".to_string()), None);
    assert_eq!(runtime.system.nonce.get(&"anyone".to_string()), None);
}
