use finalize_core::command::{CallOperator, Get, LiteralValue, Operand, Register};
use finalize_core::ident::{Identifier, Locator, ProgramId};
use finalize_core::store::{FinalizeStore, Mapping, RegisterFile};
use finalize_core::types::{LiteralKind, Program};
use finalize_core::value::{Plaintext, RecordValue, Value};
use finalize_core::VmError;

fn ident(s: &str) -> Identifier {
    Identifier::from_bytes(s.as_bytes().to_vec()).unwrap()
}

fn pid(name: &str) -> ProgramId {
    ProgramId { name: ident(name), network: ident("aleo") }
}

fn u64_plain(v: u64) -> Plaintext {
    Plaintext::Literal(LiteralValue { kind: LiteralKind::U64, data: v.to_le_bytes().to_vec() })
}

fn program(name: &str) -> Program {
    Program { id: pid(name), structs: vec![] }
}

fn store_with_entry(owner: &str, mapping: &str, key: u64, value: u64) -> FinalizeStore {
    FinalizeStore {
        mappings: vec![Mapping {
            program_id: pid(owner),
            mapping_name: ident(mapping),
            entries: vec![(u64_plain(key), Value::Plaintext(u64_plain(value)))],
        }],
        pending: vec![],
    }
}

fn get_cmd(mapping: &str) -> Get {
    Get {
        mapping: CallOperator::Resource(ident(mapping)),
        key: Operand::Register(Register::Locator(0)),
        destination: Register::Locator(1),
    }
}

fn registers_with_key(key: u64) -> RegisterFile {
    let mut registers = RegisterFile::new(2, 0, 0);
    registers
        .store(&Register::Locator(0), Value::Plaintext(u64_plain(key)))
        .unwrap();
    registers
}

#[test]
fn get_stores_the_present_value_into_the_destination() {
    let program = program("token");
    let store = store_with_entry("token", "account", 5, 100);
    let mut registers = registers_with_key(5);

    get_cmd("account").finalize(&program, &store, &mut registers).unwrap();
    assert_eq!(Some(Value::Plaintext(u64_plain(100))), registers.registers[1]);
}

#[test]
fn get_against_an_absent_key_fails_and_changes_nothing() {
    let program = program("token");
    let store = store_with_entry("token", "account", 5, 100);
    let mut registers = registers_with_key(9);

    let r = get_cmd("account").finalize(&program, &store, &mut registers);
    assert_eq!(Err(VmError::NotFoundError), r);
    // The register file is unchanged and the store was never writable.
    assert_eq!(Some(Value::Plaintext(u64_plain(9))), registers.registers[0]);
    assert_eq!(None, registers.registers[1]);
    assert_eq!(1, store.mappings[0].entries.len());
    assert_eq!(u64_plain(5), store.mappings[0].entries[0].0);
    assert!(store.pending.is_empty());
}

#[test]
fn get_against_a_missing_mapping_is_a_schema_error() {
    let program = program("token");
    let store = store_with_entry("token", "account", 5, 100);
    let mut registers = registers_with_key(5);

    let r = get_cmd("elsewhere").finalize(&program, &store, &mut registers);
    assert_eq!(Err(VmError::SchemaError), r);
    assert_eq!(None, registers.registers[1]);
}

#[test]
fn get_cannot_read_a_record() {
    let program = program("token");
    let store = FinalizeStore {
        mappings: vec![Mapping {
            program_id: pid("token"),
            mapping_name: ident("account"),
            entries: vec![(
                u64_plain(5),
                Value::Record(RecordValue {
                    owner: LiteralValue { kind: LiteralKind::Address, data: vec![0; 32] },
                    entries: vec![],
                }),
            )],
        }],
        pending: vec![],
    };
    let mut registers = registers_with_key(5);
    let r = get_cmd("account").finalize(&program, &store, &mut registers);
    assert_eq!(Err(VmError::TypeMismatchError), r);
    assert_eq!(None, registers.registers[1]);
}

#[test]
fn get_resolves_qualified_locators_against_the_named_program() {
    // The executing program is `wallet`, but the mapping belongs to `token`.
    let program = program("wallet");
    let store = store_with_entry("token", "balances", 7, 250);
    let mut registers = registers_with_key(7);

    let get = Get {
        mapping: CallOperator::Locator(Locator {
            program_id: pid("token"),
            resource: ident("balances"),
        }),
        key: Operand::Register(Register::Locator(0)),
        destination: Register::Locator(1),
    };
    get.finalize(&program, &store, &mut registers).unwrap();
    assert_eq!(Some(Value::Plaintext(u64_plain(250))), registers.registers[1]);
}

#[test]
fn speculative_writes_are_visible_to_later_reads() {
    let mut store = store_with_entry("token", "account", 5, 100);

    // A speculative update shadows the confirmed value.
    store.insert_speculative(
        pid("token"),
        ident("account"),
        u64_plain(5),
        Value::Plaintext(u64_plain(900)),
    );
    assert_eq!(
        Some(Value::Plaintext(u64_plain(900))),
        store.get_value_speculative(&pid("token"), &ident("account"), &u64_plain(5))
    );

    // The confirmed view still holds the old entry and other keys are
    // untouched.
    assert_eq!(
        None,
        store.get_value_speculative(&pid("token"), &ident("account"), &u64_plain(6))
    );

    // A speculative removal hides the key from later reads.
    store.remove_speculative(pid("token"), ident("account"), u64_plain(5));
    assert_eq!(
        None,
        store.get_value_speculative(&pid("token"), &ident("account"), &u64_plain(5))
    );

    // The latest write wins: insert again after the removal.
    store.insert_speculative(
        pid("token"),
        ident("account"),
        u64_plain(5),
        Value::Plaintext(u64_plain(1)),
    );
    assert_eq!(
        Some(Value::Plaintext(u64_plain(1))),
        store.get_value_speculative(&pid("token"), &ident("account"), &u64_plain(5))
    );
}

#[test]
fn get_sees_speculative_writes_of_the_same_execution() {
    let program = program("token");
    let mut store = FinalizeStore {
        mappings: vec![Mapping {
            program_id: pid("token"),
            mapping_name: ident("account"),
            entries: vec![],
        }],
        pending: vec![],
    };
    // The key is absent before the speculative write.
    let mut registers = registers_with_key(5);
    assert_eq!(
        Err(VmError::NotFoundError),
        get_cmd("account").finalize(&program, &store, &mut registers)
    );

    store.insert_speculative(
        pid("token"),
        ident("account"),
        u64_plain(5),
        Value::Plaintext(u64_plain(33)),
    );
    let mut registers = registers_with_key(5);
    get_cmd("account").finalize(&program, &store, &mut registers).unwrap();
    assert_eq!(Some(Value::Plaintext(u64_plain(33))), registers.registers[1]);
}

#[test]
fn struct_keys_compare_by_value() {
    let program = program("token");
    let point = |x: u64, y: u64| {
        Plaintext::Struct(vec![(ident("x"), u64_plain(x)), (ident("y"), u64_plain(y))])
    };
    let store = FinalizeStore {
        mappings: vec![Mapping {
            program_id: pid("token"),
            mapping_name: ident("grid"),
            entries: vec![(point(1, 2), Value::Plaintext(u64_plain(77)))],
        }],
        pending: vec![],
    };

    let mut registers = RegisterFile::new(2, 0, 0);
    registers.store(&Register::Locator(0), Value::Plaintext(point(1, 2))).unwrap();
    get_cmd("grid").finalize(&program, &store, &mut registers).unwrap();
    assert_eq!(Some(Value::Plaintext(u64_plain(77))), registers.registers[1]);

    let mut registers = RegisterFile::new(2, 0, 0);
    registers.store(&Register::Locator(0), Value::Plaintext(point(2, 1))).unwrap();
    assert_eq!(
        Err(VmError::NotFoundError),
        get_cmd("grid").finalize(&program, &store, &mut registers)
    );
}

#[test]
fn block_height_loads_as_a_u32_literal() {
    let registers = RegisterFile::new(0, 7777, 3);
    let height = registers.load_plaintext(&Operand::BlockHeight).unwrap();
    assert_eq!(
        Plaintext::Literal(LiteralValue {
            kind: LiteralKind::U32,
            data: 7777u32.to_le_bytes().to_vec(),
        }),
        height
    );
    let network = registers.load_plaintext(&Operand::NetworkID).unwrap();
    assert_eq!(
        Plaintext::Literal(LiteralValue {
            kind: LiteralKind::U16,
            data: 3u16.to_le_bytes().to_vec(),
        }),
        network
    );
}

#[test]
fn destination_register_must_be_a_fresh_locator() {
    let program = program("token");
    let store = store_with_entry("token", "account", 5, 100);

    // Storing over an already assigned register fails.
    let mut registers = registers_with_key(5);
    let get = Get {
        mapping: CallOperator::Resource(ident("account")),
        key: Operand::Register(Register::Locator(0)),
        destination: Register::Locator(0),
    };
    assert_eq!(Err(VmError::SchemaError), get.finalize(&program, &store, &mut registers));

    // Storing past the register bank fails.
    let mut registers = registers_with_key(5);
    let get = Get {
        mapping: CallOperator::Resource(ident("account")),
        key: Operand::Register(Register::Locator(0)),
        destination: Register::Locator(9),
    };
    assert_eq!(Err(VmError::SchemaError), get.finalize(&program, &store, &mut registers));
}
