use saika_red_packet::contract::Contract;
use saika_red_packet::contract::TransferAction;
use saika_red_packet::dynamic_storage_management::errors::StorageError;
use saika_red_packet::enums::DistributionMod;
use saika_red_packet::errors::ContractError;

const BYTE_COST: u128 = 2;

fn contract_with_owner() -> Contract {
    let mut c = Contract::init("helper".to_string());
    c.internal_storage_deposit("owner".to_string(), false, 100_000, 1000, 1100, BYTE_COST)
        .unwrap();
    c
}

fn create_near(c: &mut Contract, pk: &str, amount: u128, split: usize) {
    c.internal_create_near_red_packet(
        "owner".to_string(),
        amount,
        pk.to_string(),
        split,
        DistributionMod::Average,
        None,
        None,
        7,
        1100,
        1200,
        BYTE_COST,
    )
    .unwrap();
}

#[test]
fn create_claim_refund_flow() {
    let mut c = contract_with_owner();
    create_near(&mut c, "pk1", 100, 5);
    assert!(!c.unique_public_key(&"pk1".to_string()));

    let (amount, action) = c
        .internal_claim_red_packet("alice".to_string(), "pk1".to_string(), 0, 8, 1200, 1300)
        .unwrap();
    assert_eq!(amount, 20);
    match action {
        TransferAction::TransferNear { receiver_id, amount } => {
            assert_eq!(receiver_id, "alice");
            assert_eq!(amount, 20);
        },
        _ => panic!("expected a native transfer"),
    }

    let (refunded, action) = c
        .internal_refund("pk1".to_string(), "owner".to_string(), 9, 1300, 1250)
        .unwrap();
    assert_eq!(refunded, 80);
    match action {
        TransferAction::TransferNear { receiver_id, amount } => {
            assert_eq!(receiver_id, "owner");
            assert_eq!(amount, 80);
        },
        _ => panic!("expected a native transfer"),
    }

    // the packet has run out; its history can now be removed
    c.internal_remove_history("pk1".to_string(), "owner".to_string(), 1250, 1240)
        .unwrap();
    assert!(c.unique_public_key(&"pk1".to_string()));
}

#[test]
fn create_rejects_each_bad_input() {
    let mut c = contract_with_owner();
    let r = c.internal_create_near_red_packet(
        "owner".to_string(),
        0,
        "pk1".to_string(),
        5,
        DistributionMod::Average,
        None,
        None,
        7,
        1100,
        1200,
        BYTE_COST,
    );
    assert!(matches!(r, Err(ContractError::ZeroDeposit)));

    let r = c.internal_create_near_red_packet(
        "nobody".to_string(),
        100,
        "pk1".to_string(),
        5,
        DistributionMod::Average,
        None,
        None,
        7,
        1100,
        1200,
        BYTE_COST,
    );
    assert!(matches!(
        r,
        Err(ContractError::Storage(StorageError::AccountNotRegistered))
    ));

    let r = c.internal_create_near_red_packet(
        "owner".to_string(),
        4,
        "pk1".to_string(),
        5,
        DistributionMod::Average,
        None,
        None,
        7,
        1100,
        1200,
        BYTE_COST,
    );
    assert!(matches!(r, Err(ContractError::InvalidParameter)));

    create_near(&mut c, "pk1", 100, 5);
    let r = c.internal_create_near_red_packet(
        "owner".to_string(),
        100,
        "pk1".to_string(),
        5,
        DistributionMod::Average,
        None,
        None,
        7,
        1200,
        1300,
        BYTE_COST,
    );
    assert!(matches!(r, Err(ContractError::NotUniquePublicKey)));
}

#[test]
fn claim_on_unknown_credential_fails() {
    let mut c = contract_with_owner();
    let r = c.internal_claim_red_packet(
        "alice".to_string(),
        "missing".to_string(),
        0,
        8,
        1100,
        1200,
    );
    assert!(matches!(r, Err(ContractError::NoMatchingRedPacket)));
}

#[test]
fn refund_by_stranger_fails() {
    let mut c = contract_with_owner();
    create_near(&mut c, "pk1", 100, 5);
    let r = c.internal_refund("pk1".to_string(), "stranger".to_string(), 9, 1200, 1300);
    assert!(matches!(r, Err(ContractError::NoPermission)));
}

#[test]
fn remove_history_requires_run_out() {
    let mut c = contract_with_owner();
    create_near(&mut c, "pk1", 100, 5);
    let r = c.internal_remove_history("pk1".to_string(), "owner".to_string(), 1200, 1300);
    assert!(matches!(r, Err(ContractError::RedPacketNotRunOut)));
    let r = c.internal_remove_history("pk1".to_string(), "stranger".to_string(), 1200, 1300);
    assert!(matches!(
        r,
        Err(ContractError::Storage(StorageError::AccountNotRegistered))
    ));
}

#[test]
fn clear_history_removes_only_run_out_packets() {
    let mut c = contract_with_owner();
    create_near(&mut c, "pk1", 5, 1);
    create_near(&mut c, "pk2", 100, 5);
    c.internal_claim_red_packet("alice".to_string(), "pk1".to_string(), 0, 8, 1200, 1300)
        .unwrap();
    c.internal_clear_history("owner".to_string(), 1300, 1200).unwrap();
    assert!(c.unique_public_key(&"pk1".to_string()));
    assert!(!c.unique_public_key(&"pk2".to_string()));
    let count = c.red_packet_count(&"owner".to_string());
    assert_eq!(count, (1, 0));
}

#[test]
fn counts_track_run_out_packets() {
    let mut c = contract_with_owner();
    let owner = "owner".to_string();
    assert_eq!(c.red_packet_count(&owner), (0, 0));
    assert!(c.all_red_packets_run_out(&owner));
    create_near(&mut c, "pk1", 5, 1);
    create_near(&mut c, "pk2", 100, 5);
    assert_eq!(c.red_packet_count(&owner), (2, 0));
    assert!(!c.all_red_packets_run_out(&owner));
    c.internal_claim_red_packet("alice".to_string(), "pk1".to_string(), 0, 8, 1200, 1300)
        .unwrap();
    assert_eq!(c.red_packet_count(&owner), (2, 1));
}

#[test]
fn unregister_blocked_by_active_packet_unless_forced() {
    let mut c = contract_with_owner();
    create_near(&mut c, "pk1", 100, 5);
    let (done, action) = c.internal_storage_unregister("owner".to_string(), false).unwrap();
    assert!(!done);
    assert!(matches!(action, TransferAction::NoTransfer));
    assert!(!c.unique_public_key(&"pk1".to_string()));

    let (done, action) = c.internal_storage_unregister("owner".to_string(), true).unwrap();
    assert!(done);
    match action {
        TransferAction::TransferNear { receiver_id, amount } => {
            assert_eq!(receiver_id, "owner");
            assert_eq!(amount, 100_000); // the full remaining prepaid balance
        },
        _ => panic!("expected the full balance to be returned"),
    }
    assert!(c.unique_public_key(&"pk1".to_string()));
    let r = c.internal_storage_unregister("owner".to_string(), true);
    assert!(matches!(
        r,
        Err(ContractError::Storage(StorageError::AccountNotRegistered))
    ));
}

#[test]
fn unregister_succeeds_once_packets_run_out() {
    let mut c = contract_with_owner();
    create_near(&mut c, "pk1", 5, 1);
    c.internal_claim_red_packet("alice".to_string(), "pk1".to_string(), 0, 8, 1200, 1300)
        .unwrap();
    let (done, _) = c.internal_storage_unregister("owner".to_string(), false).unwrap();
    assert!(done);
}

#[test]
fn storage_deposit_and_withdraw() {
    let mut c = Contract::init("helper".to_string());
    let r = c.internal_storage_deposit("a".to_string(), true, 0, 0, 0, BYTE_COST);
    assert!(matches!(r, Err(ContractError::ZeroDeposit)));

    let balance = c
        .internal_storage_deposit("a".to_string(), true, 1000, 100, 150, BYTE_COST)
        .unwrap();
    assert_eq!(balance.total, 1000);
    assert_eq!(balance.available, 900); // 50 bytes at price 2

    let r = c.internal_storage_deposit("a".to_string(), true, 10, 0, 0, BYTE_COST);
    assert!(matches!(
        r,
        Err(ContractError::Storage(StorageError::AccountAlreadyRegistered))
    ));

    let (balance, action) = c
        .internal_storage_withdraw("a".to_string(), None, BYTE_COST)
        .unwrap();
    assert_eq!(balance.total, 100);
    assert_eq!(balance.available, 0);
    match action {
        TransferAction::TransferNear { receiver_id, amount } => {
            assert_eq!(receiver_id, "a");
            assert_eq!(amount, 900);
        },
        _ => panic!("expected a native transfer"),
    }
    let (_, action) = c
        .internal_storage_withdraw("a".to_string(), Some(5), BYTE_COST)
        .unwrap();
    assert!(matches!(action, TransferAction::NoTransfer));
}

#[test]
fn storage_balance_queries() {
    let mut c = Contract::init("helper".to_string());
    assert!(c
        .internal_storage_balance_of(&"a".to_string(), BYTE_COST)
        .is_none());
    c.internal_storage_deposit("a".to_string(), false, 300, 0, 40, BYTE_COST)
        .unwrap();
    let b = c
        .internal_storage_balance_of(&"a".to_string(), BYTE_COST)
        .unwrap();
    assert_eq!(b.total, 300);
    assert_eq!(b.available, 220);
    assert!(matches!(
        c.internal_storage_balance_bounds(),
        Err(ContractError::NoStorageBalanceBounds)
    ));
}

#[test]
fn failed_transfer_settlement_compensates() {
    let mut c = contract_with_owner();
    c.internal_create_fungible_token_red_packet(
        "token".to_string(),
        "owner".to_string(),
        100,
        "pk1".to_string(),
        4,
        DistributionMod::Average,
        None,
        None,
        7,
        1100,
        1200,
        BYTE_COST,
    )
    .unwrap();

    let (amount, action) = c
        .internal_claim_red_packet("alice".to_string(), "pk1".to_string(), 0, 8, 1200, 1300)
        .unwrap();
    assert_eq!(amount, 25);
    match action {
        TransferAction::TransferFtWithResolve {
            claimer_id,
            owner_id,
            amount,
            token_id,
            public_key,
        } => {
            assert_eq!(claimer_id, "alice");
            assert_eq!(owner_id, "owner");
            assert_eq!(amount, 25);
            assert_eq!(token_id, "token");
            assert_eq!(public_key, "pk1");
        },
        _ => panic!("expected a routed fungible-token transfer"),
    }

    // the transfer settles as failed: alice's claim is compensated
    let action = c.claim_fungible_token_red_packet_callback(
        "alice".to_string(),
        "owner".to_string(),
        25,
        "token".to_string(),
        "pk1".to_string(),
        false,
    );
    match action {
        TransferAction::TransferFt { receiver_id, amount, token_id } => {
            assert_eq!(receiver_id, "owner");
            assert_eq!(amount, 25);
            assert_eq!(token_id, "token");
        },
        _ => panic!("expected the refund transfer to the owner"),
    }
    let view = c.get_red_packet_by_pk(&"pk1".to_string()).unwrap();
    assert_eq!(view.refunded_balance, 25);
    assert_eq!(view.claimers.entries.len(), 0);
    assert_eq!(view.failed_claimers.entries.len(), 1);
    assert_eq!(view.current_balance, 75);
    assert_eq!(view.current_split, 3);

    // a successful settlement records nothing
    let action = c.claim_fungible_token_red_packet_callback(
        "bob".to_string(),
        "owner".to_string(),
        5,
        "token".to_string(),
        "other".to_string(),
        true,
    );
    assert!(matches!(action, TransferAction::NoTransfer));
}

#[test]
fn queries_reflect_owned_packets() {
    let mut c = contract_with_owner();
    create_near(&mut c, "pk1", 100, 5);
    create_near(&mut c, "pk2", 60, 3);

    let pks = c.get_pks_by_owner_id(&"owner".to_string());
    assert_eq!(pks.items.len(), 2);
    assert!(pks.contains(&"pk1".to_string()));
    assert!(pks.contains(&"pk2".to_string()));
    assert_eq!(
        c.get_pks_by_owner_id(&"nobody".to_string()).items.len(),
        0
    );

    let views = c.get_red_packets_by_owner_id(&"owner".to_string());
    assert_eq!(views.len(), 2);
    for v in &views {
        assert_eq!(v.owner_id, "owner");
        assert!(!v.is_run_out);
    }

    let v = c.get_red_packet_by_pk(&"pk2".to_string()).unwrap();
    assert_eq!(v.init_balance, 60);
    assert_eq!(v.init_split, 3);
    assert!(c.get_red_packet_by_pk(&"missing".to_string()).is_none());
}

#[test]
fn measurement_facade_mirrors_session_rules() {
    let mut c = Contract::init("helper".to_string());
    let r = c.measure_end(&"a".to_string(), 10);
    assert_eq!(
        r,
        Err(ContractError::Storage(
            StorageError::MissingStartStorageMeasurement
        ))
    );
    c.measure_start(10).unwrap();
    let r = c.measure_start(20);
    assert_eq!(
        r,
        Err(ContractError::Storage(
            StorageError::RepeatedStartStorageMeasurement
        ))
    );
    let r = c.measure_end(&"a".to_string(), 25);
    assert_eq!(
        r,
        Err(ContractError::Storage(StorageError::AccountNotRegistered))
    );
}

#[test]
fn creation_guards_check_in_order() {
    let mut c = Contract::init("helper".to_string());
    let pk = "pk1".to_string();
    let owner = "owner".to_string();
    assert_eq!(
        c.assert_before_creation(0, &pk, &owner, BYTE_COST),
        Err(ContractError::ZeroDeposit)
    );
    assert_eq!(
        c.assert_before_creation(10, &pk, &owner, BYTE_COST),
        Err(ContractError::Storage(StorageError::AccountNotRegistered))
    );
    c.internal_storage_deposit(owner.clone(), false, 100_000, 1000, 1100, BYTE_COST)
        .unwrap();
    assert!(c.assert_before_creation(10, &pk, &owner, BYTE_COST).is_ok());
    assert!(c.assert_after_creation(&owner, BYTE_COST).is_ok());
    create_near(&mut c, "pk1", 100, 5);
    assert_eq!(
        c.assert_before_creation(10, &pk, &owner, BYTE_COST),
        Err(ContractError::NotUniquePublicKey)
    );
    assert_eq!(
        c.assert_unique_public_key(&pk),
        Err(ContractError::NotUniquePublicKey)
    );
}

#[test]
fn owner_index_dropped_with_last_packet() {
    let mut c = contract_with_owner();
    create_near(&mut c, "pk1", 5, 1);
    c.internal_claim_red_packet("alice".to_string(), "pk1".to_string(), 0, 8, 1200, 1300)
        .unwrap();
    c.internal_remove_history("pk1".to_string(), "owner".to_string(), 1300, 1290)
        .unwrap();
    assert_eq!(c.get_pks_by_owner_id(&"owner".to_string()).items.len(), 0);
    assert_eq!(c.red_packet_count(&"owner".to_string()), (0, 0));
    // removing an unknown credential is a no-op
    c.internal_remove_history("pk1".to_string(), "owner".to_string(), 1290, 1290)
        .unwrap();
}

#[test]
fn refund_of_run_out_packet_by_unregistered_caller_fails() {
    let mut c = contract_with_owner();
    create_near(&mut c, "pk1", 5, 1);
    c.internal_claim_red_packet("alice".to_string(), "pk1".to_string(), 0, 8, 1200, 1300)
        .unwrap();
    let r = c.internal_refund("pk1".to_string(), "stranger".to_string(), 9, 1300, 1300);
    assert_eq!(
        r,
        Err(ContractError::Storage(StorageError::AccountNotRegistered))
    );
    // a registered stranger is charged the measured delta and gets zero
    c.internal_storage_deposit("stranger".to_string(), false, 1000, 1300, 1310, BYTE_COST)
        .unwrap();
    let (amount, action) = c
        .internal_refund("pk1".to_string(), "stranger".to_string(), 9, 1310, 1310)
        .unwrap();
    assert_eq!(amount, 0);
    assert!(matches!(action, TransferAction::NoTransfer));
}

#[test]
fn clear_history_by_unregistered_caller_fails() {
    let mut c = Contract::init("helper".to_string());
    let r = c.internal_clear_history("nobody".to_string(), 0, 0);
    assert_eq!(
        r,
        Err(ContractError::Storage(StorageError::AccountNotRegistered))
    );
}

#[test]
fn create_fails_when_measured_bytes_exceed_prepayment() {
    let mut c = Contract::init("helper".to_string());
    c.internal_storage_deposit("owner".to_string(), false, 100, 500, 500, 1)
        .unwrap();
    // the creation itself would consume 200 bytes at price 1
    let r = c.internal_create_near_red_packet(
        "owner".to_string(),
        50,
        "pk1".to_string(),
        5,
        DistributionMod::Average,
        None,
        None,
        7,
        500,
        700,
        1,
    );
    assert!(matches!(
        r,
        Err(ContractError::Storage(StorageError::NotEnoughStorageBalance))
    ));
    assert!(c.unique_public_key(&"pk1".to_string()));
}
