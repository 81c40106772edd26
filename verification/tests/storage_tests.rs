use saika_red_packet::dynamic_storage_management::account_storage::AccountStorage;
use saika_red_packet::dynamic_storage_management::dynamic_storage_manager::DynamicStorageManager;
use saika_red_packet::dynamic_storage_management::errors::StorageError;
use saika_red_packet::dynamic_storage_management::storage_measurement::StorageMeasurement;

#[test]
fn stop_without_start_fails_missing_start() {
    let mut m = StorageMeasurement::default();
    let r = m.stop(100);
    assert!(matches!(r, Err(StorageError::MissingStartStorageMeasurement)));
}

#[test]
fn two_consecutive_starts_fail_repeated_start() {
    let mut m = StorageMeasurement::default();
    assert!(m.start(100).is_ok());
    let r = m.start(200);
    assert!(matches!(r, Err(StorageError::RepeatedStartStorageMeasurement)));
}

#[test]
fn measurement_cycle_accumulates_delta() {
    let mut m = StorageMeasurement::default();
    m.start(100).unwrap();
    let r = m.storage_usage_change();
    assert!(matches!(r, Err(StorageError::PendingStorageMeasurement)));
    m.stop(150).unwrap();
    assert_eq!(m.storage_usage_change().unwrap(), 50);
    // a second cycle accumulates on top, a shrink subtracts
    m.start(150).unwrap();
    m.stop(120).unwrap();
    assert_eq!(m.storage_usage_change().unwrap(), 20);
    m.reset();
    assert_eq!(m.storage_usage_change().unwrap(), 0);
}

#[test]
fn account_usage_clamps_at_zero() {
    let mut a = AccountStorage::default();
    a.update_storage_usage(70);
    assert_eq!(a.storage_usage, 70);
    a.update_storage_usage(-100);
    assert_eq!(a.storage_usage, 0);
}

#[test]
fn withdraw_none_drains_available_exactly() {
    let mut a = AccountStorage::default();
    a.deposit_storage_balance(1000);
    a.update_storage_usage(30);
    // used cost = 30 * 10 = 300, available = 700
    let withdrawn = a.withdraw_storage_balance(None, 10);
    assert_eq!(withdrawn, 700);
    let (total, used) = a.storage_balance(10);
    assert_eq!(total, 300);
    assert_eq!(used, 300);
    // nothing is available any more
    assert_eq!(a.withdraw_storage_balance(None, 10), 0);
}

#[test]
fn withdraw_is_capped_by_request_and_by_available() {
    let mut a = AccountStorage::default();
    a.deposit_storage_balance(500);
    assert_eq!(a.withdraw_storage_balance(Some(120), 0), 120);
    assert_eq!(a.withdraw_storage_balance(Some(1_000_000), 0), 380);
    assert_eq!(a.withdraw_storage_balance(Some(1), 0), 0);
}

#[test]
fn register_charges_measured_bytes_to_new_record() {
    let mut m = DynamicStorageManager::new();
    m.register_account("alice".to_string(), 1000, 100, 180).unwrap();
    assert!(m.account_registered(&"alice".to_string()));
    let (total, used) = m.storage_balance(&"alice".to_string(), 2).unwrap();
    assert_eq!(total, 1000);
    assert_eq!(used, 160); // 80 bytes at price 2
    let r = m.register_account("alice".to_string(), 5, 0, 0);
    assert!(matches!(r, Err(StorageError::AccountAlreadyRegistered)));
}

#[test]
fn deposit_and_withdraw_roundtrip() {
    let mut m = DynamicStorageManager::new();
    let alice = "alice".to_string();
    let r = m.deposit_storage_balance(&alice, 5);
    assert!(matches!(r, Err(StorageError::AccountNotRegistered)));
    m.register_account(alice.clone(), 100, 0, 10).unwrap();
    m.deposit_storage_balance(&alice, 400).unwrap();
    // usage 10 bytes at price 3 -> used 30, available 470
    assert_eq!(m.withdraw_storage_balance(&alice, None, 3).unwrap(), 470);
    assert!(!m.enough_storage_balance(&alice, 4));
    assert!(m.enough_storage_balance(&alice, 3));
}

#[test]
fn unregister_returns_whole_balance() {
    let mut m = DynamicStorageManager::new();
    let bob = "bob".to_string();
    m.register_account(bob.clone(), 750, 0, 1000).unwrap();
    // even with usage recorded, unregistering forgets it and refunds all
    assert_eq!(m.unregister_account(&bob).unwrap(), 750);
    assert!(!m.account_registered(&bob));
    let r = m.unregister_account(&bob);
    assert!(matches!(r, Err(StorageError::AccountNotRegistered)));
}

#[test]
fn guard_checks_report_exact_errors() {
    let mut m = DynamicStorageManager::new();
    let carol = "carol".to_string();
    assert!(m.assert_no_registration(&carol).is_ok());
    assert!(matches!(
        m.assert_registration(&carol),
        Err(StorageError::AccountNotRegistered)
    ));
    m.register_account(carol.clone(), 10, 0, 100).unwrap();
    assert!(matches!(
        m.assert_no_registration(&carol),
        Err(StorageError::AccountAlreadyRegistered)
    ));
    assert!(m.assert_registration(&carol).is_ok());
    // 100 bytes at price 1 -> used 100 > balance 10
    assert!(matches!(
        m.assert_storage_balance(&carol, 1),
        Err(StorageError::NotEnoughStorageBalance)
    ));
    assert!(m.assert_storage_balance(&carol, 0).is_ok());
}
