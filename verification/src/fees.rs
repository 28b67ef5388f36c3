//! On-chain publication costs: the cost of publishing a deployment (storage
//! plus the namespace-scarcity price of its program name) and the cost of
//! publishing an execution (storage plus the summed finalize cost of every
//! invoked function that has finalize logic).

use vstd::prelude::*;

use crate::authorization::Transition;
use crate::cost::{spec_cost_in_microcredits, cost_in_microcredits, Finalize};
use crate::ident::{Identifier, ProgramId, ProgramIdV};
use crate::types::Program;
use crate::VmError;

verus! {

/// Microcredits charged per encoded deployment byte.
pub const DEPLOYMENT_FEE_MULTIPLIER: u64 = 1_000;

/// Microcredits per credit.
pub const MICROCREDITS_PER_CREDIT: u64 = 1_000_000;

/// A program plus its encoded size, immutable once constructed.
#[derive(Debug, PartialEq, Eq)]
pub struct Deployment {
    /// The identity of the deployed program.
    pub program_id: ProgramId,
    /// The number of bytes of the encoded deployment.
    pub size_in_bytes: u64,
}

/// An ordered sequence of transitions plus its total encoded size,
/// immutable once constructed.
#[derive(Debug, PartialEq, Eq)]
pub struct Execution {
    /// The transitions, in execution order.
    pub transitions: Vec<Transition>,
    /// The number of bytes of the encoded execution.
    pub size_in_bytes: u64,
}

/// One function of a loaded program: its name and its finalize logic, if any.
#[derive(Debug, PartialEq, Eq)]
pub struct FunctionDef {
    /// The function's name.
    pub name: Identifier,
    /// The function's finalize routine, when it has one.
    pub finalize: Option<Finalize>,
}

/// One loaded program: its struct registry and its functions.
#[derive(Debug, PartialEq, Eq)]
pub struct VmProgram {
    /// The program's identity and struct registry.
    pub program: Program,
    /// The program's functions, in declaration order.
    pub functions: Vec<FunctionDef>,
}

/// The program registry that execution costing consults.
#[derive(Debug, PartialEq, Eq)]
pub struct Vm {
    /// The loaded programs.
    pub programs: Vec<VmProgram>,
}

/// Ten to the `e`-th power.
pub open spec fn spec_pow10(e: nat) -> nat
    decreases e,
{
    if e == 0 {
        1
    } else {
        10 * spec_pow10((e - 1) as nat)
    }
}

/// Powers of ten are positive.
proof fn lemma_pow10_pos(e: nat)
    ensures
        spec_pow10(e) >= 1,
    decreases e,
{
    if e > 0 {
        lemma_pow10_pos((e - 1) as nat);
    }
}

/// Powers of ten grow monotonically from one.
proof fn lemma_pow10_monotone(i: nat, j: nat)
    requires
        i <= j,
    ensures
        1 <= spec_pow10(i) <= spec_pow10(j),
    decreases j,
{
    lemma_pow10_pos(i);
    if i < j {
        lemma_pow10_monotone(i, (j - 1) as nat);
    }
}

/// The namespace cost in microcredits of a program name of `len` bytes:
/// `10^(10 - len)` credits, with a floor of one credit from ten bytes up.
/// Shorter names are exponentially more expensive, a deliberate
/// namespace-scarcity auction.
pub open spec fn spec_namespace_cost(len: nat) -> nat {
    (spec_pow10(
        if len >= 10 {
            0nat
        } else {
            (10 - len) as nat
        },
    ) * MICROCREDITS_PER_CREDIT) as nat
}

/// A program name of at least ten bytes pays the namespace floor of exactly
/// one credit (1,000,000 microcredits).
pub proof fn lemma_namespace_cost_floor(len: nat)
    requires
        len >= 10,
    ensures
        spec_namespace_cost(len) == 1_000_000,
{
}

/// A one-byte program name pays `10^9` credits (`10^15` microcredits).
pub proof fn lemma_namespace_cost_single_byte()
    ensures
        spec_namespace_cost(1) == 1_000_000_000_000_000,
{
    assert(spec_pow10(9) == 1_000_000_000) by {
        reveal_with_fuel(spec_pow10, 10);
    }
}

/// The total cost of publishing a deployment: the storage cost (encoded
/// bytes times the deployment fee multiplier, failing on overflow) plus the
/// namespace cost of the program name, as `(total, (storage, namespace))`.
pub open spec fn spec_deployment_cost(d: Deployment) -> Result<(u64, (u64, u64)), VmError> {
    let storage = d.size_in_bytes * DEPLOYMENT_FEE_MULTIPLIER;
    if storage > u64::MAX {
        Err(VmError::OverflowError)
    } else {
        let namespace = spec_namespace_cost(d.program_id.name@.len());
        if storage + namespace > u64::MAX {
            Err(VmError::OverflowError)
        } else {
            Ok(((storage + namespace) as u64, (storage as u64, namespace as u64)))
        }
    }
}

/// Returns the minimum cost in microcredits to publish the given deployment:
/// `(total cost, (storage cost, namespace cost))`.
pub fn deployment_cost(deployment: &Deployment) -> (r: Result<(u64, (u64, u64)), VmError>)
    ensures
        r == spec_deployment_cost(*deployment),
{
    let storage_cost = match deployment.size_in_bytes.checked_mul(DEPLOYMENT_FEE_MULTIPLIER) {
        Some(c) => c,
        None => {
            return Err(VmError::OverflowError);
        },
    };
    let name_len = deployment.program_id.name.len();
    let exponent: u64 = if name_len >= 10 {
        0
    } else {
        10 - (name_len as u64)
    };
    let mut power: u64 = 1;
    let mut i: u64 = 0;
    while i < exponent
        invariant
            0 <= i <= exponent,
            exponent <= 10,
            power as nat == spec_pow10(i as nat),
            power <= 10_000_000_000,
        decreases exponent - i,
    {
        proof {
            lemma_pow10_monotone(i as nat + 1, 10);
            assert(spec_pow10(10) == 10_000_000_000) by {
                reveal_with_fuel(spec_pow10, 11);
            }
        }
        power = power * 10;
        i = i + 1;
    }
    let namespace_cost = power * MICROCREDITS_PER_CREDIT;
    proof {
        lemma_pow10_monotone(exponent as nat, 10);
        assert(spec_pow10(10) == 10_000_000_000) by {
            reveal_with_fuel(spec_pow10, 11);
        }
        assert(power * MICROCREDITS_PER_CREDIT <= 10_000_000_000 * MICROCREDITS_PER_CREDIT)
            by (nonlinear_arith)
            requires
                power <= 10_000_000_000,
                MICROCREDITS_PER_CREDIT == 1_000_000,
        {};
        assert(namespace_cost as nat == spec_namespace_cost(
            deployment.program_id.name@.len(),
        ));
    }
    let total_cost = match storage_cost.checked_add(namespace_cost) {
        Some(c) => c,
        None => {
            return Err(VmError::OverflowError);
        },
    };
    Ok((total_cost, (storage_cost, namespace_cost)))
}

/// Index of the first loaded program with the identity, or `-1`.
pub open spec fn spec_find_program(programs: Seq<VmProgram>, pid: ProgramIdV) -> int
    decreases programs.len(),
{
    if programs.len() == 0 {
        -1
    } else if programs[0].program.id@ == pid {
        0
    } else {
        let r = spec_find_program(programs.drop_first(), pid);
        if r < 0 {
            -1
        } else {
            r + 1
        }
    }
}

/// What [`spec_find_program`] returns.
pub proof fn lemma_find_program(programs: Seq<VmProgram>, pid: ProgramIdV)
    ensures
        ({
            let r = spec_find_program(programs, pid);
            &&& r == -1 ==> forall|j: int|
                0 <= j < programs.len() ==> (#[trigger] programs[j]).program.id@ != pid
            &&& r != -1 ==> {
                &&& 0 <= r < programs.len()
                &&& programs[r].program.id@ == pid
            }
        }),
    decreases programs.len(),
{
    if programs.len() > 0 && programs[0].program.id@ != pid {
        lemma_find_program(programs.drop_first(), pid);
        assert forall|j: int| 1 <= j < programs.len() implies programs.drop_first()[j - 1]
            == #[trigger] programs[j] by {}
    }
}

/// If position `i` matches and nothing before it does, the find returns `i`.
proof fn lemma_find_program_first(programs: Seq<VmProgram>, pid: ProgramIdV, i: int)
    requires
        0 <= i < programs.len(),
        programs[i].program.id@ == pid,
        forall|j: int| 0 <= j < i ==> (#[trigger] programs[j]).program.id@ != pid,
    ensures
        spec_find_program(programs, pid) == i,
    decreases i,
{
    if i > 0 {
        lemma_find_program_first(programs.drop_first(), pid, i - 1);
        assert forall|j: int| 1 <= j < programs.len() implies programs.drop_first()[j - 1]
            == #[trigger] programs[j] by {}
    }
}

/// Looks a program up by identity.
fn find_program<'a>(programs: &'a Vec<VmProgram>, pid: &ProgramId) -> (r: Option<&'a VmProgram>)
    ensures
        match r {
            Some(p) => {
                &&& spec_find_program(programs@, pid@) >= 0
                &&& *p == programs@[spec_find_program(programs@, pid@)]
            },
            None => spec_find_program(programs@, pid@) == -1,
        },
{
    let n = programs.len();
    let mut i: usize = 0;
    while i < n
        invariant
            0 <= i <= n,
            n == programs@.len(),
            forall|j: int| 0 <= j < i ==> (#[trigger] programs@[j]).program.id@ != pid@,
        decreases n - i,
    {
        if programs[i].program.id.eq_id(pid) {
            proof {
                lemma_find_program_first(programs@, pid@, i as int);
            }
            return Some(&programs[i]);
        }
        i = i + 1;
    }
    proof {
        lemma_find_program(programs@, pid@);
    }
    None
}

/// Index of the first function with the name, or `-1`.
pub open spec fn spec_find_function(functions: Seq<FunctionDef>, name: Seq<u8>) -> int
    decreases functions.len(),
{
    if functions.len() == 0 {
        -1
    } else if functions[0].name@ == name {
        0
    } else {
        let r = spec_find_function(functions.drop_first(), name);
        if r < 0 {
            -1
        } else {
            r + 1
        }
    }
}

/// What [`spec_find_function`] returns.
pub proof fn lemma_find_function(functions: Seq<FunctionDef>, name: Seq<u8>)
    ensures
        ({
            let r = spec_find_function(functions, name);
            &&& r == -1 ==> forall|j: int|
                0 <= j < functions.len() ==> (#[trigger] functions[j]).name@ != name
            &&& r != -1 ==> {
                &&& 0 <= r < functions.len()
                &&& functions[r].name@ == name
            }
        }),
    decreases functions.len(),
{
    if functions.len() > 0 && functions[0].name@ != name {
        lemma_find_function(functions.drop_first(), name);
        assert forall|j: int| 1 <= j < functions.len() implies functions.drop_first()[j - 1]
            == #[trigger] functions[j] by {}
    }
}

/// If position `i` matches and nothing before it does, the find returns `i`.
proof fn lemma_find_function_first(functions: Seq<FunctionDef>, name: Seq<u8>, i: int)
    requires
        0 <= i < functions.len(),
        functions[i].name@ == name,
        forall|j: int| 0 <= j < i ==> (#[trigger] functions[j]).name@ != name,
    ensures
        spec_find_function(functions, name) == i,
    decreases i,
{
    if i > 0 {
        lemma_find_function_first(functions.drop_first(), name, i - 1);
        assert forall|j: int| 1 <= j < functions.len() implies functions.drop_first()[j - 1]
            == #[trigger] functions[j] by {}
    }
}

/// Looks a function up by name.
fn find_function<'a>(functions: &'a Vec<FunctionDef>, name: &Identifier) -> (r: Option<
    &'a FunctionDef,
>)
    ensures
        match r {
            Some(f) => {
                &&& spec_find_function(functions@, name@) >= 0
                &&& *f == functions@[spec_find_function(functions@, name@)]
            },
            None => spec_find_function(functions@, name@) == -1,
        },
{
    let n = functions.len();
    let mut i: usize = 0;
    while i < n
        invariant
            0 <= i <= n,
            n == functions@.len(),
            forall|j: int| 0 <= j < i ==> (#[trigger] functions@[j]).name@ != name@,
        decreases n - i,
    {
        if functions[i].name.eq_name(name) {
            proof {
                lemma_find_function_first(functions@, name@, i as int);
            }
            return Some(&functions[i]);
        }
        i = i + 1;
    }
    proof {
        lemma_find_function(functions@, name@);
    }
    None
}

/// Whether the registry has a program for every transition.
pub open spec fn spec_programs_resolve(
    programs: Seq<VmProgram>,
    transitions: Seq<Transition>,
) -> bool {
    forall|i: int|
        0 <= i < transitions.len() ==> spec_find_program(
            programs,
            (#[trigger] transitions[i]).program_id@,
        ) >= 0
}

/// The summed finalize cost of the first `i` transitions. A transition whose
/// function has no finalize logic contributes nothing; a missing function is
/// an error; the sum fails on overflow.
pub open spec fn spec_finalize_cost_up_to(
    programs: Seq<VmProgram>,
    transitions: Seq<Transition>,
    i: int,
) -> Result<u64, VmError>
    decreases i,
{
    if i <= 0 {
        Ok(0)
    } else {
        match spec_finalize_cost_up_to(programs, transitions, i - 1) {
            Err(e) => Err(e),
            Ok(acc) => {
                let t = transitions[i - 1];
                let p = spec_find_program(programs, t.program_id@);
                if p < 0 {
                    Err(VmError::NotFoundError)
                } else {
                    let f = spec_find_function(programs[p].functions@, t.function_name@);
                    if f < 0 {
                        Err(VmError::NotFoundError)
                    } else {
                        match programs[p].functions@[f].finalize {
                            None => Ok(acc),
                            Some(fin) => match spec_cost_in_microcredits(
                                programs[p].program.structs@,
                                fin.register_types@,
                                fin.commands@,
                            ) {
                                Err(e) => Err(e),
                                Ok(c) => {
                                    if acc + c > u64::MAX {
                                        Err(VmError::OverflowError)
                                    } else {
                                        Ok((acc + c) as u64)
                                    }
                                },
                            },
                        }
                    }
                }
            },
        }
    }
}

/// Once the accumulation fails, every longer prefix fails the same way.
proof fn lemma_finalize_cost_err(
    programs: Seq<VmProgram>,
    transitions: Seq<Transition>,
    i: int,
    k: int,
    e: VmError,
)
    requires
        0 <= i <= k,
        spec_finalize_cost_up_to(programs, transitions, i) == Err::<u64, VmError>(e),
    ensures
        spec_finalize_cost_up_to(programs, transitions, k) == Err::<u64, VmError>(e),
    decreases k,
{
    if k > i {
        lemma_finalize_cost_err(programs, transitions, i, k - 1, e);
    }
}

/// The total cost of publishing an execution: its storage cost plus the
/// summed finalize cost of its transitions, as `(total, (storage,
/// finalize))`. A transition whose program is not loaded is an error before
/// any summation.
pub open spec fn spec_execution_cost(vm: Vm, execution: Execution) -> Result<
    (u64, (u64, u64)),
    VmError,
> {
    if !spec_programs_resolve(vm.programs@, execution.transitions@) {
        Err(VmError::NotFoundError)
    } else {
        match spec_finalize_cost_up_to(
            vm.programs@,
            execution.transitions@,
            execution.transitions@.len() as int,
        ) {
            Err(e) => Err(e),
            Ok(fc) => {
                if execution.size_in_bytes + fc > u64::MAX {
                    Err(VmError::OverflowError)
                } else {
                    Ok(
                        (
                            (execution.size_in_bytes + fc) as u64,
                            (execution.size_in_bytes, fc as u64),
                        ),
                    )
                }
            },
        }
    }
}

/// Returns the minimum cost in microcredits to publish the given execution:
/// `(total cost, (storage cost, finalize cost))`.
#[verifier::loop_isolation(false)]
pub fn execution_cost(vm: &Vm, execution: &Execution) -> (r: Result<(u64, (u64, u64)), VmError>)
    ensures
        r == spec_execution_cost(*vm, *execution),
{
    let n = execution.transitions.len();

    // First resolve every transition's program, as the ledger does before
    // any pricing: a missing program fails the whole execution.
    let mut i: usize = 0;
    while i < n
        invariant
            0 <= i <= n,
            forall|j: int|
                0 <= j < i ==> spec_find_program(
                    vm.programs@,
                    (#[trigger] execution.transitions@[j]).program_id@,
                ) >= 0,
        decreases n - i,
    {
        match find_program(&vm.programs, &execution.transitions[i].program_id) {
            Some(_) => {},
            None => {
                return Err(VmError::NotFoundError);
            },
        }
        i = i + 1;
    }

    // Accumulate the finalize cost of every transition whose function has
    // finalize logic.
    let mut finalize_cost: u64 = 0;
    let mut i: usize = 0;
    while i < n
        invariant
            0 <= i <= n,
            spec_programs_resolve(vm.programs@, execution.transitions@),
            spec_finalize_cost_up_to(vm.programs@, execution.transitions@, i as int) == Ok::<
                u64,
                VmError,
            >(finalize_cost),
        decreases n - i,
    {
        let transition = &execution.transitions[i];
        let entry = match find_program(&vm.programs, &transition.program_id) {
            Some(p) => p,
            None => {
                proof {
                    assert(false);
                }
                return Err(VmError::NotFoundError);
            },
        };
        match find_function(&entry.functions, &transition.function_name) {
            None => {
                proof {
                    lemma_finalize_cost_err(
                        vm.programs@,
                        execution.transitions@,
                        i as int + 1,
                        n as int,
                        VmError::NotFoundError,
                    );
                }
                return Err(VmError::NotFoundError);
            },
            Some(function) => {
                match &function.finalize {
                    None => {},
                    Some(finalize) => {
                        match cost_in_microcredits(&entry.program, finalize) {
                            Err(e) => {
                                proof {
                                    lemma_finalize_cost_err(
                                        vm.programs@,
                                        execution.transitions@,
                                        i as int + 1,
                                        n as int,
                                        e,
                                    );
                                }
                                return Err(e);
                            },
                            Ok(c) => {
                                if finalize_cost > u64::MAX - c {
                                    proof {
                                        lemma_finalize_cost_err(
                                            vm.programs@,
                                            execution.transitions@,
                                            i as int + 1,
                                            n as int,
                                            VmError::OverflowError,
                                        );
                                    }
                                    return Err(VmError::OverflowError);
                                }
                                finalize_cost = finalize_cost + c;
                            },
                        }
                    },
                }
            },
        }
        i = i + 1;
    }

    // Total cost: storage plus finalize, with overflow-failing addition.
    let storage_cost = execution.size_in_bytes;
    let total_cost = match storage_cost.checked_add(finalize_cost) {
        Some(c) => c,
        None => {
            return Err(VmError::OverflowError);
        },
    };
    Ok((total_cost, (storage_cost, finalize_cost)))
}

} // verus!
