use finalize_core::authorization::Transition;
use finalize_core::command::{CallOperator, Command, Operand, Register};
use finalize_core::cost::Finalize;
use finalize_core::fees::{
    deployment_cost, execution_cost, Deployment, Execution, FunctionDef, Vm, VmProgram,
};
use finalize_core::ident::{Identifier, ProgramId};
use finalize_core::types::{FinalizeType, LiteralKind, PlaintextType, Program};
use finalize_core::VmError;

fn ident(s: &str) -> Identifier {
    Identifier::from_bytes(s.as_bytes().to_vec()).unwrap()
}

fn pid(name: &str) -> ProgramId {
    ProgramId { name: ident(name), network: ident("aleo") }
}

#[test]
fn namespace_cost_floor_for_long_names() {
    // A ten-byte name pays the floor of one credit.
    let deployment = Deployment { program_id: pid("abcdefghij"), size_in_bytes: 0 };
    let (total, (storage, namespace)) = deployment_cost(&deployment).unwrap();
    assert_eq!(0, storage);
    assert_eq!(1_000_000, namespace);
    assert_eq!(1_000_000, total);

    // Longer names pay the same floor.
    let deployment =
        Deployment { program_id: pid("a_much_longer_program_name"), size_in_bytes: 0 };
    let (_, (_, namespace)) = deployment_cost(&deployment).unwrap();
    assert_eq!(1_000_000, namespace);
}

#[test]
fn namespace_cost_for_short_names_is_exponential() {
    let namespace_of = |name: &str| {
        let deployment = Deployment { program_id: pid(name), size_in_bytes: 0 };
        deployment_cost(&deployment).unwrap().1 .1
    };
    // A one-byte name pays 10^9 credits.
    assert_eq!(1_000_000_000_000_000, namespace_of("a"));
    assert_eq!(100_000_000_000_000, namespace_of("ab"));
    assert_eq!(10_000_000, namespace_of("ninechars"));
}

#[test]
fn deployment_storage_cost_is_per_byte() {
    let deployment = Deployment { program_id: pid("abcdefghij"), size_in_bytes: 123 };
    let (total, (storage, namespace)) = deployment_cost(&deployment).unwrap();
    assert_eq!(123_000, storage);
    assert_eq!(1_000_000, namespace);
    assert_eq!(1_123_000, total);
}

#[test]
fn deployment_storage_overflow_is_an_error() {
    let deployment = Deployment { program_id: pid("abcdefghij"), size_in_bytes: u64::MAX };
    assert_eq!(Err(VmError::OverflowError), deployment_cost(&deployment));
}

fn write_finalize() -> Finalize {
    // A single `set` with a u64 key and value: 11,600 microcredits.
    Finalize {
        name: ident("store"),
        register_types: vec![
            FinalizeType::Plaintext(PlaintextType::Literal(LiteralKind::U64)),
            FinalizeType::Plaintext(PlaintextType::Literal(LiteralKind::U64)),
        ],
        commands: vec![Command::SetValue {
            mapping: CallOperator::Resource(ident("account")),
            key: Operand::Register(Register::Locator(0)),
            value: Operand::Register(Register::Locator(1)),
        }],
    }
}

fn vm_with_token() -> Vm {
    Vm {
        programs: vec![VmProgram {
            program: Program { id: pid("token"), structs: vec![] },
            functions: vec![
                FunctionDef { name: ident("store"), finalize: Some(write_finalize()) },
                FunctionDef { name: ident("transfer"), finalize: None },
            ],
        }],
    }
}

fn transition(id: u64, program: &str, function: &str) -> Transition {
    Transition { id, program_id: pid(program), function_name: ident(function) }
}

#[test]
fn execution_cost_sums_storage_and_finalize_costs() {
    let vm = vm_with_token();
    let execution = Execution {
        transitions: vec![transition(1, "token", "store"), transition(2, "token", "transfer")],
        size_in_bytes: 5_000,
    };
    let (total, (storage, finalize)) = execution_cost(&vm, &execution).unwrap();
    assert_eq!(5_000, storage);
    // Only `store` has finalize logic; `transfer` contributes nothing.
    assert_eq!(11_600, finalize);
    assert_eq!(16_600, total);
}

#[test]
fn execution_with_no_finalize_logic_costs_storage_alone() {
    let vm = vm_with_token();
    let execution =
        Execution { transitions: vec![transition(1, "token", "transfer")], size_in_bytes: 700 };
    let (total, (storage, finalize)) = execution_cost(&vm, &execution).unwrap();
    assert_eq!(700, storage);
    assert_eq!(0, finalize);
    assert_eq!(700, total);
}

#[test]
fn a_missing_program_fails_the_whole_execution() {
    let vm = vm_with_token();
    let execution = Execution {
        transitions: vec![transition(1, "token", "store"), transition(2, "unknown", "store")],
        size_in_bytes: 100,
    };
    assert_eq!(Err(VmError::NotFoundError), execution_cost(&vm, &execution));
}

#[test]
fn a_missing_function_fails_the_whole_execution() {
    let vm = vm_with_token();
    let execution = Execution {
        transitions: vec![transition(1, "token", "nonexistent")],
        size_in_bytes: 100,
    };
    assert_eq!(Err(VmError::NotFoundError), execution_cost(&vm, &execution));
}

#[test]
fn execution_total_overflow_is_an_error() {
    let vm = vm_with_token();
    let execution = Execution {
        transitions: vec![transition(1, "token", "store")],
        size_in_bytes: u64::MAX - 100,
    };
    assert_eq!(Err(VmError::OverflowError), execution_cost(&vm, &execution));
}
