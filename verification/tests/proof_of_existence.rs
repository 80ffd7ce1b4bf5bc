use mini_runtime::proof_of_existence::Pallet;
use mini_runtime::support::DispatchError;

#[test]
fn basic_proof_of_existence() {
    let mut poe = Pallet::new();
    assert!(poe.claims.is_empty());
    assert_eq!(poe.get_claim(&"Hello, world!".to_string()), None);
    assert_eq!(
        poe.create_claim("alice".to_string(), "Hello, world!".to_string()),
        Ok(())
    );
    assert_eq!(
        poe.get_claim(&"Hello, world!".to_string()),
        Some(&"alice".to_string())
    );
    assert_eq!(
        poe.create_claim("bob".to_string(), "Hello, world!".to_string()),
        Err(DispatchError::AlreadyClaimed)
    );
    assert_eq!(
        poe.revoke_claim("alice".to_string(), "Hello, world!".to_string()),
        Ok(())
    );
    assert_eq!(
        poe.create_claim("bob".to_string(), "Hello, world!".to_string()),
        Ok(())
    );
}

#[test]
fn revoke_missing_claim_fails() {
    let mut poe = Pallet::new();
    assert_eq!(
        poe.revoke_claim("alice".to_string(), "X".to_string()),
        Err(DispatchError::ClaimNotFound)
    );
}

#[test]
fn revoke_by_non_owner_changes_nothing() {
    let mut poe = Pallet::new();
    assert_eq!(poe.create_claim("alice".to_string(), "X".to_string()), Ok(()));
    assert_eq!(
        poe.revoke_claim("bob".to_string(), "X".to_string()),
        Err(DispatchError::NotClaimOwner)
    );
    assert_eq!(poe.get_claim(&"X".to_string()), Some(&"alice".to_string()));
}

#[test]
fn claim_contention_round_trip() {
    // "A" claims first, "B" is refused until "A" revokes, then "B" succeeds.
    let mut poe = Pallet::new();
    assert_eq!(poe.create_claim("A".to_string(), "X".to_string()), Ok(()));
    assert_eq!(
        poe.create_claim("B".to_string(), "X".to_string()),
        Err(DispatchError::AlreadyClaimed)
    );
    assert_eq!(poe.revoke_claim("A".to_string(), "X".to_string()), Ok(()));
    assert_eq!(poe.create_claim("B".to_string(), "X".to_string()), Ok(()));
    assert_eq!(poe.get_claim(&"X".to_string()), Some(&"B".to_string()));
}
