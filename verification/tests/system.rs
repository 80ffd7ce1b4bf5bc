use mini_runtime::system::Pallet;

#[test]
fn init_system() {
    let mut system = Pallet::new();
    system.inc_block_number();
    system.inc_nonce(&"alice".to_string());

    assert_eq!(system.block_number(), 1);
    assert_eq!(system.nonce.get(&"alice".to_string()), Some(&1));
    assert_eq!(system.nonce.get(&"bob".to_string()), None);
}

#[test]
fn nonce_counts_each_invocation() {
    let mut system = Pallet::new();
    system.inc_nonce(&"alice".to_string());
    system.inc_nonce(&"alice".to_string());
    system.inc_nonce(&"bob".to_string());

    assert_eq!(system.nonce.get(&"alice".to_string()), Some(&2));
    assert_eq!(system.nonce.get(&"bob".to_string()), Some(&1));
    assert_eq!(system.block_number(), 0);
}
