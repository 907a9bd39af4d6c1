use proof_of_tests::error::ProofError;
use proof_of_tests::sandbox::{
    classify, header_present, load, run, settle, validate, EngineFault, DEFAULT_BUDGET,
    TRAP_GROWTH_LIMITED, TRAP_OUT_OF_FUEL,
};

fn module(text: &str) -> Vec<u8> {
    wat::parse_str(text).unwrap()
}

fn increment_module() -> Vec<u8> {
    module(
        r#"(module
            (func (export "test") (param i64) (result i64)
                local.get 0
                i64.const 1
                i64.add))"#,
    )
}

#[test]
fn increment_module_returns_seed_plus_one() {
    let m = load(&increment_module()).unwrap();
    let r = run(&m, 42, DEFAULT_BUDGET).unwrap();
    assert_eq!(r.registers, vec![43]);
    assert!(r.step_count > 0);
    assert!(r.step_count <= DEFAULT_BUDGET);
}

#[test]
fn runs_are_deterministic() {
    let m = load(&increment_module()).unwrap();
    let a = run(&m, 7, DEFAULT_BUDGET).unwrap();
    let b = run(&m, 7, DEFAULT_BUDGET).unwrap();
    assert_eq!(a.registers, b.registers);
    assert_eq!(a.step_count, b.step_count);
    let m2 = load(&increment_module()).unwrap();
    let c = run(&m2, 7, DEFAULT_BUDGET).unwrap();
    assert_eq!(a.registers, c.registers);
    assert_eq!(a.step_count, c.step_count);
}

#[test]
fn bytes_without_header_are_invalid() {
    assert!(matches!(load(b"not a wasm module"), Err(ProofError::InvalidModule)));
    assert!(matches!(load(&[]), Err(ProofError::InvalidModule)));
    assert!(!header_present(b"\0asm"));
}

#[test]
fn text_format_is_not_accepted() {
    let text = br#"(module (func (export "test") (param i64) (result i64) local.get 0))"#;
    assert!(matches!(load(text), Err(ProofError::InvalidModule)));
}

#[test]
fn header_followed_by_garbage_is_invalid() {
    let mut b = vec![0x00, 0x61, 0x73, 0x6d, 0x01, 0x00, 0x00, 0x00];
    assert!(header_present(&b));
    b.extend_from_slice(&[0xff, 0xff, 0xff]);
    assert!(matches!(load(&b), Err(ProofError::InvalidModule)));
}

#[test]
fn unresolvable_import_is_invalid() {
    let b = module(
        r#"(module
            (import "env" "clock" (func $clock (result i64)))
            (func (export "test") (param i64) (result i64) call $clock))"#,
    );
    assert!(matches!(load(&b), Err(ProofError::InvalidModule)));
}

#[test]
fn missing_entry_export() {
    let b = module(r#"(module (func (export "other") (param i64) (result i64) local.get 0))"#);
    let m = load(&b).unwrap();
    assert!(matches!(run(&m, 1, DEFAULT_BUDGET), Err(ProofError::MissingExport)));
}

#[test]
fn entry_export_with_wrong_signature() {
    let b = module(r#"(module (func (export "test") (param i32) (result i32) local.get 0))"#);
    let m = load(&b).unwrap();
    assert!(matches!(run(&m, 1, DEFAULT_BUDGET), Err(ProofError::MissingExport)));
}

#[test]
fn guest_trap_is_execution_trap() {
    let b = module(r#"(module (func (export "test") (param i64) (result i64) unreachable))"#);
    let m = load(&b).unwrap();
    assert!(matches!(run(&m, 1, DEFAULT_BUDGET), Err(ProofError::ExecutionTrap)));
}

#[test]
fn division_by_zero_is_execution_trap() {
    let b = module(
        r#"(module (func (export "test") (param i64) (result i64)
            local.get 0
            i64.const 0
            i64.div_u))"#,
    );
    let m = load(&b).unwrap();
    assert!(matches!(run(&m, 5, DEFAULT_BUDGET), Err(ProofError::ExecutionTrap)));
}

#[test]
fn unbounded_loop_exceeds_budget() {
    let b = module(
        r#"(module (func (export "test") (param i64) (result i64)
            (loop $l (br $l))
            local.get 0))"#,
    );
    let m = load(&b).unwrap();
    assert!(matches!(run(&m, 1, 10_000), Err(ProofError::ResourceExceeded)));
    assert!(matches!(run(&m, 1, DEFAULT_BUDGET), Err(ProofError::ResourceExceeded)));
}

#[test]
fn memory_growth_past_limit_exceeds_budget() {
    let b = module(
        r#"(module
            (memory 1)
            (func (export "test") (param i64) (result i64)
                i32.const 1024
                memory.grow
                drop
                local.get 0))"#,
    );
    let m = load(&b).unwrap();
    assert!(matches!(run(&m, 1, DEFAULT_BUDGET), Err(ProofError::ResourceExceeded)));
}

#[test]
fn memory_growth_within_limit_succeeds() {
    let b = module(
        r#"(module
            (memory 1)
            (func (export "test") (param i64) (result i64)
                i32.const 3
                memory.grow
                i64.extend_i32_u))"#,
    );
    let m = load(&b).unwrap();
    assert_eq!(run(&m, 1, DEFAULT_BUDGET).unwrap().registers, vec![1]);
}

#[test]
fn trapping_start_function_is_execution_trap() {
    let b = module(
        r#"(module
            (func $boom unreachable)
            (start $boom)
            (func (export "test") (param i64) (result i64) local.get 0))"#,
    );
    let m = load(&b).unwrap();
    assert!(matches!(run(&m, 1, DEFAULT_BUDGET), Err(ProofError::ExecutionTrap)));
}

#[test]
fn settle_maps_each_outcome() {
    let r = settle(Ok((9, 70)), 100).unwrap();
    assert_eq!(r.registers, vec![9]);
    assert_eq!(r.step_count, 30);
    let r = settle(Ok((9, 170)), 100).unwrap();
    assert_eq!(r.step_count, 0);
    assert!(matches!(settle(Err(EngineFault::Trap(TRAP_OUT_OF_FUEL)), 100), Err(ProofError::ResourceExceeded)));
    assert!(matches!(settle(Err(EngineFault::Trap(0)), 100), Err(ProofError::ExecutionTrap)));
    assert!(matches!(settle(Err(EngineFault::ExportNotFound), 100), Err(ProofError::MissingExport)));
}

#[test]
fn faults_group_into_error_classes() {
    assert_eq!(classify(EngineFault::Trap(TRAP_OUT_OF_FUEL)), ProofError::ResourceExceeded);
    assert_eq!(classify(EngineFault::Trap(TRAP_GROWTH_LIMITED)), ProofError::ResourceExceeded);
    assert_eq!(classify(EngineFault::Trap(5)), ProofError::ExecutionTrap);
    assert_eq!(classify(EngineFault::Fuel), ProofError::ResourceExceeded);
    assert_eq!(classify(EngineFault::MemoryDenied), ProofError::ResourceExceeded);
    assert_eq!(classify(EngineFault::MemoryFuel), ProofError::ResourceExceeded);
    assert_eq!(classify(EngineFault::TableDenied), ProofError::ResourceExceeded);
    assert_eq!(classify(EngineFault::Memory), ProofError::ExecutionTrap);
    assert_eq!(classify(EngineFault::ExportNotFound), ProofError::MissingExport);
    assert_eq!(classify(EngineFault::ExportMismatch), ProofError::MissingExport);
    assert_eq!(classify(EngineFault::Linker), ProofError::InvalidModule);
    assert_eq!(classify(EngineFault::Malformed), ProofError::InvalidModule);
    assert_eq!(classify(EngineFault::Other), ProofError::ExecutionTrap);
}

#[test]
fn initial_memory_above_limit_exceeds_budget() {
    let b = module(
        r#"(module
            (memory 1024)
            (func (export "test") (param i64) (result i64) local.get 0))"#,
    );
    let m = load(&b).unwrap();
    assert!(matches!(run(&m, 1, DEFAULT_BUDGET), Err(ProofError::ResourceExceeded)));
}

#[test]
fn validate_twice_gives_same_outcome() {
    let a = validate(&increment_module()).unwrap();
    let b = validate(&increment_module()).unwrap();
    assert_eq!(a.registers, b.registers);
    assert_eq!(a.step_count, b.step_count);
    let bad = module(r#"(module (func (export "test") (param i64) (result i64) unreachable))"#);
    assert!(matches!(validate(&bad), Err(ProofError::ExecutionTrap)));
    assert!(matches!(validate(&bad), Err(ProofError::ExecutionTrap)));
}

#[test]
fn validate_runs_the_sample_seed() {
    let r = validate(&increment_module()).unwrap();
    assert_eq!(r.registers, vec![43]);
    assert!(matches!(validate(b"junk"), Err(ProofError::InvalidModule)));
}
