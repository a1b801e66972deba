use z3::composite::{BuildError, EnumBundle, ListBundle};
use z3::ledger::RefLedger;
use z3::outcome::ErrorState;

fn names(list: &[&str]) -> Vec<String> {
    list.iter().map(|s| s.to_string()).collect()
}

#[test]
fn test_list_bundle_counts_all_seven_together() {
    let mut ledger = RefLedger::new();
    let r = ListBundle::assemble(&mut ledger, 1, 2, 3, 4, 5, 6, 7, ErrorState::Clear);
    let b = match r {
        Ok(b) => b,
        Err(_) => panic!("a fully filled bundle must assemble"),
    };
    assert_eq!(b.sort, 1);
    assert_eq!(b.nil, 2);
    assert_eq!(b.is_nil, 3);
    assert_eq!(b.cons, 4);
    assert_eq!(b.is_cons, 5);
    assert_eq!(b.head, 6);
    assert_eq!(b.tail, 7);
    for id in 1..=7u64 {
        assert_eq!(ledger.count(id), 1);
    }
    b.release(&mut ledger);
    for id in 1..=7u64 {
        assert_eq!(ledger.count(id), 0);
    }
}

#[test]
fn test_list_bundle_unfilled_slot_counts_nothing() {
    let mut ledger = RefLedger::new();
    ledger.acquire(4);
    let r = ListBundle::assemble(&mut ledger, 1, 2, 3, 4, 5, 0, 7, ErrorState::Clear);
    match r {
        Ok(_) => panic!("a bundle with an unfilled slot must not assemble"),
        Err(BuildError::Incomplete) => {}
        Err(BuildError::Native(_)) => panic!("a clear error channel must report Incomplete"),
    }
    // Nothing was counted: the ledger is exactly as before the attempt.
    for id in 1..=7u64 {
        assert_eq!(ledger.count(id), if id == 4 { 1 } else { 0 });
    }
}

#[test]
fn test_list_bundle_failure_carries_native_error() {
    let mut ledger = RefLedger::new();
    let err = ErrorState::Faulted { code: 3, message: "invalid argument".to_string() };
    let r = ListBundle::assemble(&mut ledger, 0, 0, 0, 0, 0, 0, 0, err);
    match r {
        Err(BuildError::Native(e)) => {
            assert_eq!(e.code, 3);
            assert_eq!(e.message, "invalid argument");
        }
        _ => panic!("an active error channel must surface the native failure"),
    }
}

#[test]
fn test_enum_bundle_counts_everything_together() {
    let mut ledger = RefLedger::new();
    let r = EnumBundle::assemble(
        &mut ledger,
        100,
        names(&["Red", "Blue", "Green"]),
        vec![101, 102, 103],
        vec![201, 202, 203],
        ErrorState::Clear,
    );
    let b = match r {
        Ok(b) => b,
        Err(_) => panic!("a fully filled bundle must assemble"),
    };
    for id in [100u64, 101, 102, 103, 201, 202, 203] {
        assert_eq!(ledger.count(id), 1);
    }
    b.release(&mut ledger);
    for id in [100u64, 101, 102, 103, 201, 202, 203] {
        assert_eq!(ledger.count(id), 0);
    }
}

#[test]
fn test_enum_bundle_mismatched_slots_count_nothing() {
    let mut ledger = RefLedger::new();
    let r = EnumBundle::assemble(
        &mut ledger,
        100,
        names(&["Red", "Blue", "Green"]),
        vec![101, 102, 103],
        vec![201, 202],
        ErrorState::Clear,
    );
    match r {
        Err(BuildError::Incomplete) => {}
        _ => panic!("a tester list of the wrong length must not assemble"),
    }
    for id in [100u64, 101, 102, 103, 201, 202] {
        assert_eq!(ledger.count(id), 0);
    }
}

#[test]
fn test_value_lookup_finds_each_name() {
    let mut ledger = RefLedger::new();
    let b = EnumBundle::assemble(
        &mut ledger,
        100,
        names(&["Red", "Blue", "Green"]),
        vec![101, 102, 103],
        vec![201, 202, 203],
        ErrorState::Clear,
    )
    .ok()
    .unwrap();
    assert_eq!(b.value_index("Red"), Some(0));
    assert_eq!(b.value_index("Blue"), Some(1));
    assert_eq!(b.value_index("Green"), Some(2));
    assert_eq!(b.value_index("Mauve"), None);
    assert_eq!(b.value_decl(&mut ledger, "Blue"), Some(102));
    assert_eq!(ledger.count(102), 2);
    assert_eq!(b.is_value_decl(&mut ledger, "Green"), Some(203));
    assert_eq!(ledger.count(203), 2);
    assert_eq!(b.value_decl(&mut ledger, "Mauve"), None);
    assert_eq!(b.is_value_decl(&mut ledger, "Mauve"), None);
}

#[test]
fn test_bundle_release_keeps_outside_references() {
    let mut ledger = RefLedger::new();
    let b = EnumBundle::assemble(
        &mut ledger,
        100,
        names(&["Red", "Blue"]),
        vec![101, 102],
        vec![201, 202],
        ErrorState::Clear,
    )
    .ok()
    .unwrap();
    // A wrapped declaration holds its own reference, so releasing the
    // bundle leaves exactly that one behind.
    assert_eq!(b.value_decl(&mut ledger, "Red"), Some(101));
    b.release(&mut ledger);
    assert_eq!(ledger.count(101), 1);
    assert_eq!(ledger.count(102), 0);
    assert_eq!(ledger.count(100), 0);
    assert!(ledger.release(101));
    assert_eq!(ledger.count(101), 0);
}

#[test]
fn test_value_lookup_first_match_wins() {
    let mut ledger = RefLedger::new();
    let b = EnumBundle::assemble(
        &mut ledger,
        100,
        names(&["Red", "Red", "Green"]),
        vec![101, 102, 103],
        vec![201, 202, 203],
        ErrorState::Clear,
    )
    .ok()
    .unwrap();
    assert_eq!(b.value_index("Red"), Some(0));
    assert_eq!(b.value_decl(&mut ledger, "Red"), Some(101));
    assert_eq!(ledger.count(101), 2);
    assert_eq!(ledger.count(102), 1);
}
