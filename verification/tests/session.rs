use z3::ledger::RefLedger;
use z3::outcome::{check_verdict, classify_factory, ErrorState, FactoryOutcome, TriState};
use z3::session::{finish_eval, Session};
use z3::values::{read_bool, read_i64, read_real, read_u64, ValueOutcome};

#[test]
fn test_session_reaches_model_only_through_sat_check() {
    let mut s = Session::new();
    assert!(!s.can_produce_model());
    s.assert_term(11);
    s.assert_term(12);
    s.assert_term(11);
    assert_eq!(s.asserted_count(), 3);
    assert!(!s.can_produce_model());
    s.record_check(true);
    assert!(s.can_produce_model());
    // A further assertion makes the verdict stale again.
    s.assert_term(13);
    assert!(!s.can_produce_model());
    s.record_check(false);
    assert!(!s.can_produce_model());
}

#[test]
fn test_check_verdict_tristate_mapping() {
    assert_eq!(check_verdict(TriState::True, ErrorState::Clear).ok(), Some(true));
    assert_eq!(check_verdict(TriState::False, ErrorState::Clear).ok(), Some(false));
    assert_eq!(check_verdict(TriState::Undetermined, ErrorState::Clear).ok(), Some(false));
    let err = ErrorState::Faulted { code: 9, message: "canceled".to_string() };
    match check_verdict(TriState::Undetermined, err) {
        Err(e) => {
            assert_eq!(e.code, 9);
            assert_eq!(e.message, "canceled");
        }
        Ok(_) => panic!("an undetermined check with an active error channel must fail"),
    }
    // The error channel is consulted only on the undetermined answer.
    let err = ErrorState::Faulted { code: 9, message: "canceled".to_string() };
    assert_eq!(check_verdict(TriState::False, err).ok(), Some(false));
}

#[test]
fn test_classify_factory_outcomes() {
    match classify_factory(5, ErrorState::Clear) {
        FactoryOutcome::Produced(id) => assert_eq!(id, 5),
        _ => panic!("a non-null handle is a produced handle"),
    }
    match classify_factory(0, ErrorState::Faulted { code: 2, message: "iob".to_string() }) {
        FactoryOutcome::Failed(e) => {
            assert_eq!(e.code, 2);
            assert_eq!(e.message, "iob");
        }
        _ => panic!("null with an active channel is a failure"),
    }
    match classify_factory(0, ErrorState::Clear) {
        FactoryOutcome::Absent => {}
        _ => panic!("null with a clear channel is a benign absence"),
    }
}

#[test]
fn test_finish_eval_adopts_evaluated_term() {
    let mut ledger = RefLedger::new();
    match finish_eval(&mut ledger, true, 77, ErrorState::Clear) {
        FactoryOutcome::Produced(id) => assert_eq!(id, 77),
        _ => panic!("a successful evaluation hands back the evaluated term"),
    }
    assert_eq!(ledger.count(77), 1);
    match finish_eval(&mut ledger, false, 0, ErrorState::Clear) {
        FactoryOutcome::Absent => {}
        _ => panic!("a failed evaluation with a clear channel is a benign absence"),
    }
    let err = ErrorState::Faulted { code: 4, message: "no model".to_string() };
    match finish_eval(&mut ledger, false, 0, err) {
        FactoryOutcome::Failed(e) => assert_eq!(e.code, 4),
        _ => panic!("a failed evaluation with an active channel is a failure"),
    }
}

#[test]
fn test_read_bool_keeps_failure_and_absence_apart() {
    match read_bool(TriState::True, ErrorState::Clear) {
        ValueOutcome::Value(v) => assert!(v),
        _ => panic!("the true answer is a value"),
    }
    match read_bool(TriState::False, ErrorState::Clear) {
        ValueOutcome::Value(v) => assert!(!v),
        _ => panic!("the false answer is a value"),
    }
    match read_bool(TriState::Undetermined, ErrorState::Clear) {
        ValueOutcome::Undetermined => {}
        _ => panic!("undetermined with a clear channel is no value"),
    }
    let err = ErrorState::Faulted { code: 6, message: "bad ast".to_string() };
    match read_bool(TriState::Undetermined, err) {
        ValueOutcome::Faulted(e) => assert_eq!(e.code, 6),
        _ => panic!("undetermined with an active channel is a failure"),
    }
}

#[test]
fn test_read_numerals() {
    match read_i64(true, -42, ErrorState::Clear) {
        ValueOutcome::Value(v) => assert_eq!(v, -42),
        _ => panic!("a fetched signed value comes back as a value"),
    }
    match read_i64(false, 0, ErrorState::Clear) {
        ValueOutcome::Undetermined => {}
        _ => panic!("an unfetched value with a clear channel is undetermined"),
    }
    match read_u64(true, 42, ErrorState::Clear) {
        ValueOutcome::Value(v) => assert_eq!(v, 42),
        _ => panic!("a fetched unsigned value comes back as a value"),
    }
    let err = ErrorState::Faulted { code: 8, message: "overflow".to_string() };
    match read_u64(false, 0, err) {
        ValueOutcome::Faulted(e) => assert_eq!(e.code, 8),
        _ => panic!("an unfetched value with an active channel is a failure"),
    }
    match read_real(true, 1, 3, ErrorState::Clear) {
        ValueOutcome::Value((n, d)) => {
            assert_eq!(n, 1);
            assert_eq!(d, 3);
        }
        _ => panic!("a fetched rational comes back as a pair"),
    }
}
