use proof_of_tests::digest::digest;
use proof_of_tests::error::ProofError;
use proof_of_tests::flight::SingleFlight;
use proof_of_tests::record::{encode_registers, result_hash, weight, Owner};
use proof_of_tests::sandbox::{SandboxResult, DEFAULT_BUDGET};
use proof_of_tests::validator::{Prepared, ProofValidator};

fn increment_module() -> Vec<u8> {
    wat::parse_str(
        r#"(module
            (func (export "test") (param i64) (result i64)
                local.get 0
                i64.const 1
                i64.add))"#,
    )
    .unwrap()
}

fn alice() -> Owner {
    Owner::Identified { login: "alice".to_string() }
}

#[test]
fn submission_records_the_run() {
    let mut v = ProofValidator::new(DEFAULT_BUDGET);
    let bytes = increment_module();
    let rec = v.submit(alice(), &bytes, 42, 1_700_000_000).unwrap();
    assert_eq!(rec.registers, vec![43]);
    assert_eq!(rec.module_digest, digest(&bytes));
    assert_eq!(rec.seed, 42);
    assert_eq!(rec.created_at, 1_700_000_000);
    assert_eq!(rec.weight, 43);
    assert_eq!(rec.result_hash, result_hash(&[43]));
    assert!(matches!(rec.owner, Owner::Identified { ref login } if login == "alice"));
    assert_eq!(v.executions(), 1);
    assert_eq!(v.record_count(), 1);
    assert_eq!(v.module(&rec.module_digest), Ok(bytes));
}

#[test]
fn resubmission_returns_same_record_without_running() {
    let mut v = ProofValidator::new(DEFAULT_BUDGET);
    let bytes = increment_module();
    let first = v.submit(Owner::Anonymous, &bytes, 42, 10).unwrap();
    let second = v.submit(alice(), &bytes, 42, 99).unwrap();
    assert!(first.same_as(&second));
    assert_eq!(second.created_at, 10);
    assert!(matches!(second.owner, Owner::Anonymous));
    assert_eq!(v.executions(), 1);
    assert_eq!(v.record_count(), 1);
}

#[test]
fn each_seed_gets_its_own_record() {
    let mut v = ProofValidator::new(DEFAULT_BUDGET);
    let bytes = increment_module();
    let a = v.submit(Owner::Anonymous, &bytes, 1, 0).unwrap();
    let b = v.submit(Owner::Anonymous, &bytes, 2, 0).unwrap();
    assert_eq!(a.registers, vec![2]);
    assert_eq!(b.registers, vec![3]);
    assert_eq!(v.executions(), 2);
    assert_eq!(v.record_count(), 2);
}

#[test]
fn invalid_module_creates_no_record() {
    let mut v = ProofValidator::new(DEFAULT_BUDGET);
    let r = v.submit(Owner::Anonymous, b"definitely not wasm", 42, 0);
    assert!(matches!(r, Err(ProofError::InvalidModule)));
    assert_eq!(v.record_count(), 0);
    assert_eq!(v.executions(), 0);
    assert!(v.lookup(&digest(b"definitely not wasm"), 42).is_none());
}

#[test]
fn budget_exhaustion_creates_no_record() {
    let mut v = ProofValidator::new(5_000);
    let bytes = wat::parse_str(
        r#"(module (func (export "test") (param i64) (result i64)
            (loop $l (br $l))
            local.get 0))"#,
    )
    .unwrap();
    let r = v.submit(Owner::Anonymous, &bytes, 1, 0);
    assert!(matches!(r, Err(ProofError::ResourceExceeded)));
    assert_eq!(v.record_count(), 0);
    assert_eq!(v.executions(), 1);
    assert_eq!(v.budget(), 5_000);
    let again = v.submit(Owner::Anonymous, &bytes, 1, 0);
    assert!(matches!(again, Err(ProofError::ResourceExceeded)));
    assert_eq!(v.executions(), 1);
    assert!(matches!(v.prepare(&bytes, 1), Prepared::Failed(ProofError::ResourceExceeded)));
}

#[test]
fn differing_rerun_is_integrity_mismatch() {
    let mut v = ProofValidator::new(DEFAULT_BUDGET);
    let bytes = increment_module();
    let rec = v.submit(Owner::Anonymous, &bytes, 42, 0).unwrap();
    let d = rec.module_digest.clone();
    let tampered = SandboxResult { registers: vec![44], step_count: rec.step_count };
    let r = v.record_outcome(Owner::Anonymous, d.clone(), 42, 5, Ok(tampered));
    assert!(matches!(r, Err(ProofError::IntegrityMismatch)));
    let failed = v.record_outcome(Owner::Anonymous, d.clone(), 42, 5, Err(ProofError::ExecutionTrap));
    assert!(matches!(failed, Err(ProofError::IntegrityMismatch)));
    let kept = v.lookup(&d, 42).unwrap();
    assert!(kept.same_as(&rec));
    let same = SandboxResult { registers: vec![43], step_count: rec.step_count };
    let again = v.record_outcome(Owner::Anonymous, d, 42, 5, Ok(same)).unwrap();
    assert!(again.same_as(&rec));
}

#[test]
fn prepare_stores_module_for_new_key() {
    let mut v = ProofValidator::new(DEFAULT_BUDGET);
    let bytes = increment_module();
    match v.prepare(&bytes, 3) {
        Prepared::Fresh(d) => {
            assert_eq!(d, digest(&bytes));
            assert_eq!(v.module(&d), Ok(bytes.clone()));
        }
        Prepared::Recorded(_) | Prepared::Failed(_) => panic!("nothing was recorded yet"),
    }
    v.submit(Owner::Anonymous, &bytes, 3, 0).unwrap();
    assert!(matches!(v.prepare(&bytes, 3), Prepared::Recorded(_)));
}

#[test]
fn concurrent_submissions_execute_once() {
    let mut v = ProofValidator::new(DEFAULT_BUDGET);
    let mut flight = SingleFlight::new();
    let bytes = increment_module();
    let d = digest(&bytes);
    let first_granted = flight.begin(&d, 42);
    let second_granted = flight.begin(&d, 42);
    assert!(first_granted);
    assert!(!second_granted);
    assert!(flight.is_running(&d, 42));
    let first = v.submit(Owner::Anonymous, &bytes, 42, 0).unwrap();
    flight.finish(&d, 42);
    assert!(!flight.is_running(&d, 42));
    let second = v.submit(Owner::Anonymous, &bytes, 42, 1).unwrap();
    assert!(first.same_as(&second));
    assert_eq!(v.executions(), 1);
}

#[test]
fn single_flight_keys_are_independent() {
    let mut flight = SingleFlight::new();
    let d = digest(b"m");
    assert!(flight.begin(&d, 1));
    assert!(flight.begin(&d, 2));
    flight.finish(&d, 1);
    assert!(!flight.is_running(&d, 1));
    assert!(flight.is_running(&d, 2));
    assert!(flight.begin(&d, 1));
}

#[test]
fn registers_encode_little_endian() {
    assert_eq!(encode_registers(&[1, 0x0102030405060708]), vec![1, 0, 0, 0, 0, 0, 0, 0, 8, 7, 6, 5, 4, 3, 2, 1]);
    assert_eq!(encode_registers(&[]), Vec::<u8>::new());
}

#[test]
fn result_hash_is_digest_of_register_bytes() {
    assert_eq!(result_hash(&[43]), digest(&[43, 0, 0, 0, 0, 0, 0, 0]));
    assert_eq!(result_hash(&[]), "e3b0c44298fc1c149afbf4c8996fb92427ae41e4649b934ca495991b7852b855");
}

#[test]
fn weight_is_largest_register() {
    assert_eq!(weight(&[3, 9, 4]), 9);
    assert_eq!(weight(&[]), 0);
    assert_eq!(weight(&[u64::MAX, 1]), u64::MAX);
}

#[test]
fn commit_module_reports_storage_failure() {
    let mut v = ProofValidator::new(DEFAULT_BUDGET);
    let bytes = increment_module();
    let d = digest(&bytes);
    assert!(!v.has_module(&d));
    assert_eq!(v.commit_module(&bytes, false), Err(ProofError::StorageFailure));
    assert!(!v.has_module(&d));
    assert_eq!(v.commit_module(&bytes, true), Ok(d.clone()));
    assert!(v.has_module(&d));
}

#[test]
fn kept_failure_rejects_a_different_rerun() {
    let mut v = ProofValidator::new(DEFAULT_BUDGET);
    let bytes = wat::parse_str(r#"(module (func (export "test") (param i64) (result i64) unreachable))"#).unwrap();
    assert!(matches!(v.submit(Owner::Anonymous, &bytes, 4, 0), Err(ProofError::ExecutionTrap)));
    let d = digest(&bytes);
    let same = v.record_outcome(Owner::Anonymous, d.clone(), 4, 0, Err(ProofError::ExecutionTrap));
    assert!(matches!(same, Err(ProofError::ExecutionTrap)));
    let ok = SandboxResult { registers: vec![1], step_count: 1 };
    let differing = v.record_outcome(Owner::Anonymous, d, 4, 0, Ok(ok));
    assert!(matches!(differing, Err(ProofError::IntegrityMismatch)));
    assert_eq!(v.record_count(), 0);
}
