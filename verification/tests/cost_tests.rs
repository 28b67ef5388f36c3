use finalize_core::command::{
    CallOperator, CastType, Command, Contains, Get, GetOrUse, Instruction, LiteralValue, Operand,
    RandChaCha, Register, Remove,
};
use finalize_core::cost::{cost_in_microcredits, Finalize};
use finalize_core::ident::{Identifier, ProgramId};
use finalize_core::types::{FinalizeType, LiteralKind, PlaintextType, Program, StructDef};
use finalize_core::VmError;

fn ident(s: &str) -> Identifier {
    Identifier::from_bytes(s.as_bytes().to_vec()).unwrap()
}

fn pid(name: &str, network: &str) -> ProgramId {
    ProgramId { name: ident(name), network: ident(network) }
}

fn lit_ty(k: LiteralKind) -> FinalizeType {
    FinalizeType::Plaintext(PlaintextType::Literal(k))
}

fn struct_ty(name: &str) -> FinalizeType {
    FinalizeType::Plaintext(PlaintextType::Struct(ident(name)))
}

fn array_ty(elem: PlaintextType, len: u32) -> PlaintextType {
    PlaintextType::Array(Box::new(elem), len)
}

fn reg(i: u64) -> Operand {
    Operand::Register(Register::Locator(i))
}

fn set_cmd(mapping: &str, key: Operand, value: Operand) -> Command {
    Command::SetValue { mapping: CallOperator::Resource(ident(mapping)), key, value }
}

fn u8_literal(v: u8) -> Operand {
    Operand::Literal(LiteralValue { kind: LiteralKind::U8, data: vec![v] })
}

fn u128_literal(v: u128) -> Operand {
    Operand::Literal(LiteralValue { kind: LiteralKind::U128, data: v.to_le_bytes().to_vec() })
}

fn empty_program() -> Program {
    Program { id: pid("test_program", "aleo"), structs: vec![] }
}

/// The struct registry of the nested-struct pricing scenario: `small` holds
/// three `u64` members, and each next struct holds three of the previous.
fn struct_program() -> Program {
    let u64_ty = PlaintextType::Literal(LiteralKind::U64);
    let small = StructDef {
        name: ident("small"),
        members: vec![
            (ident("a"), u64_ty.clone()),
            (ident("b"), u64_ty.clone()),
            (ident("c"), u64_ty.clone()),
        ],
    };
    let member = |name: &str, of: &str| (ident(name), PlaintextType::Struct(ident(of)));
    let medium = StructDef {
        name: ident("medium"),
        members: vec![member("a", "small"), member("b", "small"), member("c", "small")],
    };
    let large = StructDef {
        name: ident("large"),
        members: vec![member("a", "medium"), member("b", "medium"), member("c", "medium")],
    };
    let xlarge = StructDef {
        name: ident("xlarge"),
        members: vec![member("a", "large"), member("b", "large"), member("c", "large")],
    };
    Program { id: pid("test_program", "aleo"), structs: vec![small, medium, large, xlarge] }
}

fn store_finalize(name: &str, mapping: &str, value_type: FinalizeType) -> Finalize {
    Finalize {
        name: ident(name),
        register_types: vec![lit_ty(LiteralKind::U64), value_type],
        commands: vec![set_cmd(mapping, reg(0), reg(1))],
    }
}

#[test]
fn test_finalize_costs_structs() {
    let program = struct_program();

    let finalize = store_finalize("store_small", "storage_small", struct_ty("small"));
    assert_eq!(13800, cost_in_microcredits(&program, &finalize).unwrap());

    let finalize = store_finalize("store_medium", "storage_medium", struct_ty("medium"));
    assert_eq!(20500, cost_in_microcredits(&program, &finalize).unwrap());

    let finalize = store_finalize("store_large", "storage_large", struct_ty("large"));
    assert_eq!(40500, cost_in_microcredits(&program, &finalize).unwrap());

    let finalize = store_finalize("store_xlarge", "storage_xlarge", struct_ty("xlarge"));
    assert_eq!(100600, cost_in_microcredits(&program, &finalize).unwrap());
}

#[test]
fn test_finalize_costs_arrays() {
    let program = empty_program();
    let boolean = PlaintextType::Literal(LiteralKind::Boolean);
    let small = array_ty(boolean, 8);
    let medium = array_ty(small.clone(), 8);
    let large = array_ty(medium.clone(), 8);
    let xlarge = array_ty(large.clone(), 8);

    let finalize =
        store_finalize("store_small", "storage_small", FinalizeType::Plaintext(small));
    assert_eq!(11600, cost_in_microcredits(&program, &finalize).unwrap());

    let finalize =
        store_finalize("store_medium", "storage_medium", FinalizeType::Plaintext(medium));
    assert_eq!(17200, cost_in_microcredits(&program, &finalize).unwrap());

    let finalize =
        store_finalize("store_large", "storage_large", FinalizeType::Plaintext(large));
    assert_eq!(62000, cost_in_microcredits(&program, &finalize).unwrap());

    let finalize =
        store_finalize("store_xlarge", "storage_xlarge", FinalizeType::Plaintext(xlarge));
    assert_eq!(420400, cost_in_microcredits(&program, &finalize).unwrap());
}

#[test]
fn test_finalize_costs_heavy_set_usage() {
    let program = empty_program();
    let u8_ty = PlaintextType::Literal(LiteralKind::U8);
    let row = array_ty(u8_ty, 32);
    let square = array_ty(row.clone(), 32);
    let cube = array_ty(square.clone(), 32);

    let mut register_types =
        vec![lit_ty(LiteralKind::U128), FinalizeType::Plaintext(row.clone()),
            FinalizeType::Plaintext(square.clone()), FinalizeType::Plaintext(cube.clone())];
    for _ in 0..16 {
        register_types.push(lit_ty(LiteralKind::U128));
    }

    let mut commands = vec![Command::RandChaCha(RandChaCha {
        operands: vec![],
        destination: Register::Locator(0),
        destination_type: LiteralKind::U128,
    })];
    commands.push(Command::Instruction(Instruction::Cast(
        CastType::Plaintext(row),
        (0..32).map(|_| u8_literal(0)).collect(),
    )));
    commands.push(Command::Instruction(Instruction::Cast(
        CastType::Plaintext(square),
        (0..32).map(|_| reg(1)).collect(),
    )));
    commands.push(Command::Instruction(Instruction::Cast(
        CastType::Plaintext(cube),
        (0..32).map(|_| reg(2)).collect(),
    )));
    for k in 0..16u64 {
        commands.push(Command::Instruction(Instruction::AddWrapped(vec![
            reg(0),
            u128_literal(k as u128),
        ])));
        commands.push(set_cmd("big_map", reg(4 + k), reg(3)));
    }

    let finalize = Finalize { name: ident("big_finalize"), register_types, commands };
    assert_eq!(53_663_620, cost_in_microcredits(&program, &finalize).unwrap());
}

#[test]
fn test_finalize_costs_bhp_hash() {
    let program = empty_program();
    let u8_ty = PlaintextType::Literal(LiteralKind::U8);
    let row = array_ty(u8_ty, 32);
    let square = array_ty(row.clone(), 32);
    let block = array_ty(square.clone(), 8);

    let mut register_types =
        vec![lit_ty(LiteralKind::U128), FinalizeType::Plaintext(row.clone()),
            FinalizeType::Plaintext(square.clone()), FinalizeType::Plaintext(block.clone())];
    for _ in 0..11 {
        register_types.push(lit_ty(LiteralKind::Field));
    }

    let mut commands = vec![Command::RandChaCha(RandChaCha {
        operands: vec![],
        destination: Register::Locator(0),
        destination_type: LiteralKind::U128,
    })];
    commands.push(Command::Instruction(Instruction::Cast(
        CastType::Plaintext(row),
        (0..32).map(|_| u8_literal(0)).collect(),
    )));
    commands.push(Command::Instruction(Instruction::Cast(
        CastType::Plaintext(square),
        (0..32).map(|_| reg(1)).collect(),
    )));
    commands.push(Command::Instruction(Instruction::Cast(
        CastType::Plaintext(block),
        (0..8).map(|_| reg(2)).collect(),
    )));
    for _ in 0..11 {
        commands.push(Command::Instruction(Instruction::HashBHP256(vec![reg(3)])));
    }

    let finalize = Finalize { name: ident("big_hash_finalize"), register_types, commands };
    assert_eq!(27_887_540, cost_in_microcredits(&program, &finalize).unwrap());
}

#[test]
fn single_get_with_u64_key_costs_base_plus_key_bytes() {
    let program = empty_program();
    let finalize = Finalize {
        name: ident("read"),
        register_types: vec![lit_ty(LiteralKind::U64), lit_ty(LiteralKind::U64)],
        commands: vec![Command::Get(Get {
            mapping: CallOperator::Resource(ident("account")),
            key: reg(0),
            destination: Register::Locator(1),
        })],
    };
    assert_eq!(10_080, cost_in_microcredits(&program, &finalize).unwrap());
}

#[test]
fn single_set_with_u64_key_and_value_costs_base_plus_both_bytes() {
    let program = empty_program();
    let finalize = Finalize {
        name: ident("write"),
        register_types: vec![lit_ty(LiteralKind::U64), lit_ty(LiteralKind::U64)],
        commands: vec![set_cmd("account", reg(0), reg(1))],
    };
    assert_eq!(11_600, cost_in_microcredits(&program, &finalize).unwrap());
}

#[test]
fn call_opcode_is_rejected_anywhere_in_the_routine() {
    let program = empty_program();
    let call = Command::Instruction(Instruction::Call(vec![]));
    let position = Command::Position(ident("start"));

    let first = Finalize {
        name: ident("bad"),
        register_types: vec![],
        commands: vec![call],
    };
    assert_eq!(
        Err(VmError::UnsupportedInFinalizeError),
        cost_in_microcredits(&program, &first)
    );

    let call2 = Command::Instruction(Instruction::Call(vec![]));
    let middle = Finalize {
        name: ident("bad"),
        register_types: vec![],
        commands: vec![position, call2, Command::Position(ident("end"))],
    };
    assert_eq!(
        Err(VmError::UnsupportedInFinalizeError),
        cost_in_microcredits(&program, &middle)
    );
}

#[test]
fn async_and_hash_many_are_rejected() {
    let program = empty_program();
    for inst in [
        Instruction::Async(vec![]),
        Instruction::HashManyPSD2(vec![]),
        Instruction::HashManyPSD4(vec![]),
        Instruction::HashManyPSD8(vec![]),
    ] {
        let finalize = Finalize {
            name: ident("bad"),
            register_types: vec![],
            commands: vec![Command::Instruction(inst)],
        };
        assert_eq!(
            Err(VmError::UnsupportedInFinalizeError),
            cost_in_microcredits(&program, &finalize)
        );
    }
}

#[test]
fn control_commands_cost_by_count() {
    let program = empty_program();
    let branch = |label: &str| {
        Command::BranchEq(finalize_core::command::Branch {
            first: u8_literal(1),
            second: u8_literal(1),
            position: ident(label),
        })
    };
    let finalize = Finalize {
        name: ident("control"),
        register_types: vec![],
        commands: vec![
            Command::Position(ident("a")),
            branch("a"),
            Command::Position(ident("b")),
            branch("b"),
            Command::Position(ident("c")),
        ],
    };
    // Three positions at 100 each, two branches at 500 each.
    assert_eq!(1300, cost_in_microcredits(&program, &finalize).unwrap());
}

#[test]
fn width_sensitive_opcodes_price_field_operands_higher() {
    let program = empty_program();
    let routine = |commands: Vec<Command>, rtypes: Vec<FinalizeType>| Finalize {
        name: ident("math"),
        register_types: rtypes,
        commands,
    };

    // A field division is priced higher than an integer division.
    let div_field = routine(
        vec![Command::Instruction(Instruction::Div(vec![reg(0), reg(0)]))],
        vec![lit_ty(LiteralKind::Field)],
    );
    assert_eq!(1_500, cost_in_microcredits(&program, &div_field).unwrap());
    let div_u64 = routine(
        vec![Command::Instruction(Instruction::Div(vec![reg(0), reg(0)]))],
        vec![lit_ty(LiteralKind::U64)],
    );
    assert_eq!(500, cost_in_microcredits(&program, &div_u64).unwrap());

    // Group and scalar multiplications carry the curve-arithmetic price.
    let mul_group = routine(
        vec![Command::Instruction(Instruction::Mul(vec![reg(0), reg(0)]))],
        vec![lit_ty(LiteralKind::Group)],
    );
    assert_eq!(10_000, cost_in_microcredits(&program, &mul_group).unwrap());

    // A power with a field base is priced like a field division.
    let pow_field = routine(
        vec![Command::Instruction(Instruction::Pow(vec![reg(0), reg(0)]))],
        vec![lit_ty(LiteralKind::Field)],
    );
    assert_eq!(1_500, cost_in_microcredits(&program, &pow_field).unwrap());
}

#[test]
fn arity_and_type_errors_abort_pricing() {
    let program = struct_program();

    let div_one_operand = Finalize {
        name: ident("bad"),
        register_types: vec![lit_ty(LiteralKind::U64)],
        commands: vec![Command::Instruction(Instruction::Div(vec![reg(0)]))],
    };
    assert_eq!(Err(VmError::ArityError), cost_in_microcredits(&program, &div_one_operand));

    let pow_no_operands = Finalize {
        name: ident("bad"),
        register_types: vec![],
        commands: vec![Command::Instruction(Instruction::Pow(vec![]))],
    };
    assert_eq!(Err(VmError::ArityError), cost_in_microcredits(&program, &pow_no_operands));

    let div_struct = Finalize {
        name: ident("bad"),
        register_types: vec![struct_ty("small")],
        commands: vec![Command::Instruction(Instruction::Div(vec![reg(0), reg(0)]))],
    };
    assert_eq!(Err(VmError::TypeMismatchError), cost_in_microcredits(&program, &div_struct));

    let unknown_struct = Finalize {
        name: ident("bad"),
        register_types: vec![lit_ty(LiteralKind::U64), struct_ty("missing")],
        commands: vec![set_cmd("storage", reg(0), reg(1))],
    };
    assert_eq!(Err(VmError::SchemaError), cost_in_microcredits(&program, &unknown_struct));

    let out_of_range_register = Finalize {
        name: ident("bad"),
        register_types: vec![],
        commands: vec![Command::Get(Get {
            mapping: CallOperator::Resource(ident("account")),
            key: reg(7),
            destination: Register::Locator(8),
        })],
    };
    assert_eq!(
        Err(VmError::SchemaError),
        cost_in_microcredits(&program, &out_of_range_register)
    );
}

#[test]
fn running_sum_overflow_is_an_error_not_a_wrap() {
    let program = empty_program();
    // One cast to this type saturates the per-command cost near `u64::MAX`;
    // two of them cannot be summed in a `u64`.
    let vast = array_ty(
        array_ty(PlaintextType::Literal(LiteralKind::U128), u32::MAX),
        u32::MAX,
    );
    let cast = |ty: PlaintextType| {
        Command::Instruction(Instruction::Cast(CastType::Plaintext(ty), vec![u8_literal(0)]))
    };
    let one = Finalize {
        name: ident("vast"),
        register_types: vec![],
        commands: vec![cast(vast.clone())],
    };
    assert_eq!(u64::MAX, cost_in_microcredits(&program, &one).unwrap());

    let two = Finalize {
        name: ident("vast"),
        register_types: vec![],
        commands: vec![cast(vast.clone()), cast(vast)],
    };
    assert_eq!(Err(VmError::OverflowError), cost_in_microcredits(&program, &two));
}

#[test]
fn mapping_command_family_costs() {
    let program = empty_program();
    let rtypes = vec![lit_ty(LiteralKind::U64), lit_ty(LiteralKind::U64)];
    let routine = |command: Command| Finalize {
        name: ident("m"),
        register_types: rtypes.clone(),
        commands: vec![command],
    };

    let contains = Command::Contains(Contains {
        mapping: CallOperator::Resource(ident("account")),
        key: reg(0),
        destination: Register::Locator(1),
    });
    assert_eq!(10_080, cost_in_microcredits(&program, &routine(contains)).unwrap());

    let get_or_use = Command::GetOrUse(GetOrUse {
        mapping: CallOperator::Resource(ident("account")),
        key: reg(0),
        default: reg(1),
        destination: Register::Locator(1),
    });
    assert_eq!(10_800, cost_in_microcredits(&program, &routine(get_or_use)).unwrap());

    let remove = Command::Remove(Remove {
        mapping: CallOperator::Resource(ident("account")),
        key: reg(0),
    });
    assert_eq!(10_000, cost_in_microcredits(&program, &routine(remove)).unwrap());

    let await_cmd = Command::Await(Register::Locator(0));
    assert_eq!(500, cost_in_microcredits(&program, &routine(await_cmd)).unwrap());
}

#[test]
fn width_sensitive_costs_grow_with_operand_bytes() {
    let program = empty_program();
    let get_routine = |key_kind: LiteralKind| Finalize {
        name: ident("read"),
        register_types: vec![lit_ty(key_kind), lit_ty(LiteralKind::U64)],
        commands: vec![Command::Get(Get {
            mapping: CallOperator::Resource(ident("account")),
            key: reg(0),
            destination: Register::Locator(1),
        })],
    };
    // Reads: a u8 key, a u64 key, a u128 key — cost never decreases.
    let c1 = cost_in_microcredits(&program, &get_routine(LiteralKind::U8)).unwrap();
    let c8 = cost_in_microcredits(&program, &get_routine(LiteralKind::U64)).unwrap();
    let c16 = cost_in_microcredits(&program, &get_routine(LiteralKind::U128)).unwrap();
    assert_eq!(10_010, c1);
    assert_eq!(10_080, c8);
    assert_eq!(10_160, c16);
    assert!(c1 <= c8 && c8 <= c16);

    // Hashes: the BHP family prices its operands at 300 per byte over a
    // 50,000 base.
    let hash_routine = |kind: LiteralKind| Finalize {
        name: ident("digest"),
        register_types: vec![lit_ty(kind)],
        commands: vec![Command::Instruction(Instruction::HashBHP256(vec![reg(0)]))],
    };
    let h1 = cost_in_microcredits(&program, &hash_routine(LiteralKind::U8)).unwrap();
    let h32 = cost_in_microcredits(&program, &hash_routine(LiteralKind::Field)).unwrap();
    assert_eq!(50_300, h1);
    assert_eq!(59_600, h32);
    assert!(h1 <= h32);
}

#[test]
fn key_size_through_member_access_path() {
    // The key is a member access into a struct-typed register; the priced
    // bytes are the member's, not the whole struct's.
    let program = struct_program();
    let finalize = Finalize {
        name: ident("read"),
        register_types: vec![struct_ty("small"), lit_ty(LiteralKind::U64)],
        commands: vec![Command::Get(Get {
            mapping: CallOperator::Resource(ident("account")),
            key: Operand::Register(Register::Access(
                0,
                vec![finalize_core::command::Access::Member(ident("b"))],
            )),
            destination: Register::Locator(1),
        })],
    };
    // The member is a u64: 10_000 + 8 * 10.
    assert_eq!(10_080, cost_in_microcredits(&program, &finalize).unwrap());
}
