use z3::ledger::RefLedger;

#[test]
fn test_acquire_then_release_balances() {
    let mut ledger = RefLedger::new();
    assert_eq!(ledger.count(7), 0);
    ledger.acquire(7);
    assert_eq!(ledger.count(7), 1);
    ledger.acquire(7);
    assert_eq!(ledger.count(7), 2);
    let last = ledger.release(7);
    assert!(!last);
    assert_eq!(ledger.count(7), 1);
    let last = ledger.release(7);
    assert!(last);
    assert_eq!(ledger.count(7), 0);
}

#[test]
fn test_count_just_before_last_release_is_one() {
    let mut ledger = RefLedger::new();
    ledger.acquire(42);
    ledger.acquire(42);
    ledger.acquire(42);
    ledger.release(42);
    ledger.release(42);
    // Two of three acquisitions balanced: the one outstanding reference
    // shows as a count of exactly one just before the last release.
    assert_eq!(ledger.count(42), 1);
    assert!(ledger.release(42));
    assert_eq!(ledger.count(42), 0);
}

#[test]
fn test_ids_are_counted_independently() {
    let mut ledger = RefLedger::new();
    ledger.acquire(1);
    ledger.acquire(2);
    ledger.acquire(2);
    assert_eq!(ledger.count(1), 1);
    assert_eq!(ledger.count(2), 2);
    assert_eq!(ledger.count(3), 0);
    assert!(ledger.release(1));
    assert_eq!(ledger.count(1), 0);
    assert_eq!(ledger.count(2), 2);
}

#[test]
fn test_acquire_all_and_release_all() {
    let mut ledger = RefLedger::new();
    let ids = vec![10u64, 20, 10, 30];
    ledger.acquire_all(&ids);
    assert_eq!(ledger.count(10), 2);
    assert_eq!(ledger.count(20), 1);
    assert_eq!(ledger.count(30), 1);
    ledger.release_all(&ids);
    assert_eq!(ledger.count(10), 0);
    assert_eq!(ledger.count(20), 0);
    assert_eq!(ledger.count(30), 0);
}
