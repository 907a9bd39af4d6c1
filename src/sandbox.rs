use vstd::prelude::*;

use wasmi::errors::{ErrorKind, FuncError, InstantiationError, MemoryError, TableError};
use wasmi::{CompilationMode, Config, Engine, Linker, Module, Store, StoreLimitsBuilder};

use crate::error::ProofError;

verus! {

#[verifier::external_type_specification]
#[verifier::external_body]
pub struct ExWasmError(wasmi::Error);

/// The step budget that validation runs with.
pub const DEFAULT_BUDGET: u64 = 10_000_000;

/// The most bytes that a guest's linear memory may grow to.
pub const MEMORY_LIMIT: usize = 16777216;

/// The seed that the diagnostic validation path feeds to a module.
pub const SAMPLE_SEED: u64 = 42;

/// The wasm trap code for running out of fuel.
pub const TRAP_OUT_OF_FUEL: u8 = 10;

/// The wasm trap code for a memory or table growth that the limits refused.
pub const TRAP_GROWTH_LIMITED: u8 = 11;

/// Why the engine stopped short of a returned value, one case per kind of engine error.
#[derive(Clone, Copy, Debug, PartialEq, Eq, Structural)]
pub enum EngineFault {
    /// A wasm trap, by its trap code.
    Trap(u8),
    /// Fuel ran out outside the interpreter loop.
    Fuel,
    /// A linear memory could not be created, or the limits refused to grow one.
    MemoryDenied,
    /// Growing a linear memory ran out of fuel.
    MemoryFuel,
    /// Another linear memory error.
    Memory,
    /// A table could not be created, or the limits refused to grow one.
    TableDenied,
    /// No function is exported under the entry name.
    ExportNotFound,
    /// The entry function has another type.
    ExportMismatch,
    /// An import could not be resolved.
    Linker,
    /// The bytes did not parse, validate or translate.
    Malformed,
    /// Any other engine error.
    Other,
}

/// What the engine reports for one invocation: the returned value and the fuel left,
/// or why it stopped.
pub type EngineReport = Result<(u64, u64), EngineFault>;

/// Whether the bytes start with the WebAssembly binary header: magic `\0asm`, version 1.
pub open spec fn has_module_header(b: Seq<u8>) -> bool {
    &&& b.len() >= 8
    &&& b[0] == 0x00u8
    &&& b[1] == 0x61u8
    &&& b[2] == 0x73u8
    &&& b[3] == 0x6du8
    &&& b[4] == 0x01u8
    &&& b[5] == 0x00u8
    &&& b[6] == 0x00u8
    &&& b[7] == 0x00u8
}

/// Whether the engine parses, validates and translates `bytes` as a module.
pub uninterp spec fn wasm_compiles(bytes: Seq<u8>) -> bool;

/// The number of imports that the module in `bytes` declares.
pub uninterp spec fn wasm_import_count(bytes: Seq<u8>) -> nat;

/// What the engine reports when it compiles `bytes`, instantiates them in a fresh store
/// with `fuel` fuel and linear memories capped at `memory` bytes, and calls the export
/// `entry` of type `u64 -> u64` on `arg`.
pub uninterp spec fn wasm_outcome(
    bytes: Seq<u8>,
    entry: Seq<char>,
    arg: u64,
    fuel: u64,
    memory: usize,
) -> EngineReport;

/// Relies on `wasmi::Module::new` (on an engine with fuel metering and eager
/// compilation) and `wasmi::Module::imports`: whether the bytes compile and, if they
/// do, how many imports the module declares. Both depend on the bytes alone.
#[verifier::external_body]
fn compile(bytes: &[u8]) -> (r: Option<usize>)
    ensures
        r is Some <==> wasm_compiles(bytes@),
        r is Some ==> r->0 as nat == wasm_import_count(bytes@),
{
    let mut config = Config::default();
    config.consume_fuel(true).compilation_mode(CompilationMode::Eager);
    match Module::new(&Engine::new(&config), bytes) {
        Ok(module) => Some(module.imports().len()),
        Err(_) => None,
    }
}

/// Relies on `wasmi::Error::kind`: which kind of engine error this is. One arm per kind,
/// or per variant where the kind's own variants matter.
#[verifier::external_body]
fn fault_of(e: wasmi::Error) -> EngineFault {
    match e.kind() {
        ErrorKind::TrapCode(code) => EngineFault::Trap(*code as u8),
        ErrorKind::Fuel(_) => EngineFault::Fuel,
        ErrorKind::Memory(MemoryError::ResourceLimiterDeniedAllocation) => EngineFault::MemoryDenied,
        ErrorKind::Memory(MemoryError::OutOfFuel { .. }) => EngineFault::MemoryFuel,
        ErrorKind::Memory(_) => EngineFault::Memory,
        ErrorKind::Table(TableError::ResourceLimiterDeniedAllocation) => EngineFault::TableDenied,
        ErrorKind::Func(FuncError::ExportedFuncNotFound) => EngineFault::ExportNotFound,
        ErrorKind::Func(_) => EngineFault::ExportMismatch,
        ErrorKind::Linker(_) => EngineFault::Linker,
        ErrorKind::Instantiation(InstantiationError::FailedToInstantiateMemory(_)) => EngineFault::MemoryDenied,
        ErrorKind::Instantiation(InstantiationError::FailedToInstantiateTable(_)) => EngineFault::TableDenied,
        ErrorKind::Read(_) | ErrorKind::Wasm(_) | ErrorKind::Translation(_) => EngineFault::Malformed,
        _ => EngineFault::Other,
    }
}

/// Relies on `wasmi` end to end: compiles the bytes as `compile` does, creates a fresh
/// store (`Store::new`, `Store::limiter` with `StoreLimitsBuilder` capping memories at
/// `memory` bytes and trapping on refused growth, `Store::set_fuel`), instantiates with
/// an empty `Linker` (`instantiate_and_start`), looks up `entry`
/// (`Instance::get_typed_func`), calls it (`TypedFunc::call`) and reads the fuel left
/// (`Store::get_fuel`). Fuel is metered, compilation is eager, and NaNs are
/// canonicalised, so the report depends on the arguments alone.
#[verifier::external_body]
fn engine_run(bytes: &[u8], entry: &str, arg: u64, fuel: u64, memory: usize) -> (r: EngineReport)
    ensures
        r == wasm_outcome(bytes@, entry@, arg, fuel, memory),
{
    let mut config = Config::default();
    config.consume_fuel(true).compilation_mode(CompilationMode::Eager);
    let engine = Engine::new(&config);
    let limits = StoreLimitsBuilder::new().memory_size(memory).trap_on_grow_failure(true).build();
    let mut store = Store::new(&engine, limits);
    store.limiter(|limits| limits);
    let _ = store.set_fuel(fuel);
    let module = Module::new(&engine, bytes).map_err(fault_of)?;
    let instance = Linker::new(&engine).instantiate_and_start(&mut store, &module).map_err(fault_of)?;
    let func = instance.get_typed_func::<u64, u64>(&store, entry).map_err(fault_of)?;
    let value = func.call(&mut store, arg).map_err(fault_of)?;
    Ok((value, store.get_fuel().unwrap_or(0)))
}

/// The error that an engine fault stands for: running out of fuel or memory is
/// `ResourceExceeded`; a missing or ill-typed entry export is `MissingExport`; bytes
/// that do not compile or link are `InvalidModule`; anything else is `ExecutionTrap`.
pub open spec fn fault_class(f: EngineFault) -> ProofError {
    match f {
        EngineFault::Trap(code) => if code == TRAP_OUT_OF_FUEL || code == TRAP_GROWTH_LIMITED {
            ProofError::ResourceExceeded
        } else {
            ProofError::ExecutionTrap
        },
        EngineFault::Fuel => ProofError::ResourceExceeded,
        EngineFault::MemoryDenied => ProofError::ResourceExceeded,
        EngineFault::MemoryFuel => ProofError::ResourceExceeded,
        EngineFault::TableDenied => ProofError::ResourceExceeded,
        EngineFault::ExportNotFound => ProofError::MissingExport,
        EngineFault::ExportMismatch => ProofError::MissingExport,
        EngineFault::Linker => ProofError::InvalidModule,
        EngineFault::Malformed => ProofError::InvalidModule,
        _ => ProofError::ExecutionTrap,
    }
}

/// The error class of an engine fault.
pub fn classify(f: EngineFault) -> (r: ProofError)
    ensures
        r == fault_class(f),
{
    match f {
        EngineFault::Trap(code) => if code == TRAP_OUT_OF_FUEL || code == TRAP_GROWTH_LIMITED {
            ProofError::ResourceExceeded
        } else {
            ProofError::ExecutionTrap
        },
        EngineFault::Fuel => ProofError::ResourceExceeded,
        EngineFault::MemoryDenied => ProofError::ResourceExceeded,
        EngineFault::MemoryFuel => ProofError::ResourceExceeded,
        EngineFault::TableDenied => ProofError::ResourceExceeded,
        EngineFault::ExportNotFound => ProofError::MissingExport,
        EngineFault::ExportMismatch => ProofError::MissingExport,
        EngineFault::Linker => ProofError::InvalidModule,
        EngineFault::Malformed => ProofError::InvalidModule,
        _ => ProofError::ExecutionTrap,
    }
}

/// A module that passed loading, kept as its bytes.
pub struct CompiledModule {
    bytes: Vec<u8>,
}

impl CompiledModule {
    pub closed spec fn view(&self) -> Seq<u8> {
        self.bytes@
    }
}

/// Whether bytes load: they carry the header, compile, and declare no imports (the
/// sandbox provides none).
pub open spec fn loads(b: Seq<u8>) -> bool {
    &&& has_module_header(b)
    &&& wasm_compiles(b)
    &&& wasm_import_count(b) == 0
}

/// The output of one sandboxed run.
#[derive(Debug)]
pub struct SandboxResult {
    pub registers: Vec<u64>,
    pub step_count: u64,
}

/// A run result as plain values: the registers and the step count, or the error.
pub open spec fn result_view(r: Result<SandboxResult, ProofError>) -> Result<(Seq<u64>, u64), ProofError> {
    match r {
        Ok(s) => Ok((s.registers@, s.step_count)),
        Err(e) => Err(e),
    }
}

/// The steps that a run consumed, given the budget and the fuel left afterwards.
pub open spec fn steps_used(budget: u64, left: u64) -> u64 {
    if left <= budget {
        (budget - left) as u64
    } else {
        0
    }
}

/// A run result from what the engine reported: a returned value becomes the single
/// register, with the fuel consumed as step count; a fault becomes its error class.
pub open spec fn settled(report: EngineReport, budget: u64) -> Result<(Seq<u64>, u64), ProofError> {
    match report {
        Ok((v, left)) => Ok((seq![v], steps_used(budget, left))),
        Err(f) => Err(fault_class(f)),
    }
}

/// The result of running `bytes` on `seed` with `budget` steps.
pub open spec fn run_result(bytes: Seq<u8>, seed: u64, budget: u64) -> Result<(Seq<u64>, u64), ProofError> {
    settled(wasm_outcome(bytes, "test"@, seed, budget, MEMORY_LIMIT), budget)
}

/// Turns an engine report into a run result.
pub fn settle(report: EngineReport, budget: u64) -> (r: Result<SandboxResult, ProofError>)
    ensures
        result_view(r) == settled(report, budget),
{
    match report {
        Ok((v, left)) => {
            let step_count = if left <= budget {
                budget - left
            } else {
                0
            };
            let registers = vec![v];
            assert(registers@ =~= seq![v]);
            Ok(SandboxResult { registers, step_count })
        },
        Err(f) => Err(classify(f)),
    }
}

/// Whether the bytes begin with the WebAssembly binary header.
pub fn header_present(b: &[u8]) -> (r: bool)
    ensures
        r == has_module_header(b@),
{
    b.len() >= 8 && b[0] == 0x00 && b[1] == 0x61 && b[2] == 0x73 && b[3] == 0x6d && b[4] == 0x01
        && b[5] == 0x00 && b[6] == 0x00 && b[7] == 0x00
}

/// Loads a module: it loads exactly when the bytes carry the header, compile, and
/// declare no imports; otherwise `InvalidModule`.
pub fn load(bytes: &[u8]) -> (r: Result<CompiledModule, ProofError>)
    ensures
        r is Ok <==> loads(bytes@),
        r is Ok ==> r->Ok_0@ == bytes@,
        r is Err ==> r->Err_0 == ProofError::InvalidModule,
{
    if !header_present(bytes) {
        return Err(ProofError::InvalidModule);
    }
    match compile(bytes) {
        Some(imports) => {
            if imports != 0 {
                Err(ProofError::InvalidModule)
            } else {
                Ok(CompiledModule { bytes: crate::store::copy_bytes(bytes) })
            }
        },
        None => Err(ProofError::InvalidModule),
    }
}

/// Runs the module's `test` export on `seed` in a fresh store holding `budget` fuel,
/// with linear memory capped at `MEMORY_LIMIT` bytes. Nothing survives from one run to
/// the next, and the result is fixed by the module, the seed and the budget.
pub fn run(module: &CompiledModule, seed: u64, budget: u64) -> (r: Result<SandboxResult, ProofError>)
    ensures
        result_view(r) == run_result(module@, seed, budget),
{
    let report = engine_run(module.bytes.as_slice(), "test", seed, budget, MEMORY_LIMIT);
    settle(report, budget)
}

/// The diagnostic path: loads the module and runs it once on the sample seed with the
/// default budget. Nothing is stored.
pub fn validate(bytes: &[u8]) -> (r: Result<SandboxResult, ProofError>)
    ensures
        !loads(bytes@) ==> r == Err::<SandboxResult, ProofError>(ProofError::InvalidModule),
        loads(bytes@) ==> result_view(r) == run_result(bytes@, SAMPLE_SEED, DEFAULT_BUDGET),
{
    let module = load(bytes)?;
    run(&module, SAMPLE_SEED, DEFAULT_BUDGET)
}

/// A run is a function of module, seed and budget: equal inputs give equal results.
pub proof fn lemma_run_deterministic(a: Seq<u8>, b: Seq<u8>, seed: u64, budget: u64)
    requires
        a == b,
    ensures
        run_result(a, seed, budget) == run_result(b, seed, budget),
{
}

/// A successful run never takes more steps than its budget, and running out of fuel is
/// `ResourceExceeded`: the bound is the step budget, not time.
pub proof fn lemma_budget_bound(report: EngineReport, budget: u64)
    ensures
        settled(report, budget) is Ok ==> settled(report, budget)->Ok_0.1 <= budget,
        report == Err::<(u64, u64), EngineFault>(EngineFault::Trap(TRAP_OUT_OF_FUEL)) ==> settled(
            report,
            budget,
        ) == Err::<(Seq<u64>, u64), ProofError>(ProofError::ResourceExceeded),
{
}

} // verus!
