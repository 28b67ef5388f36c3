use finalize_core::command::{Access, CallOperator, Get, LiteralValue, Opcode, Operand, Register};
use finalize_core::ident::{Identifier, Locator, ProgramId};
use finalize_core::types::{EntryType, LiteralKind, PlaintextType};
use finalize_core::VmError;

fn ident(s: &str) -> Identifier {
    Identifier::from_bytes(s.as_bytes().to_vec()).unwrap()
}

fn array_ty(elem: PlaintextType, len: u32) -> PlaintextType {
    PlaintextType::Array(Box::new(elem), len)
}

#[test]
fn test_from_bytes() {
    // The command `get account[r0] into r1;`.
    let get = Get {
        mapping: CallOperator::Resource(ident("account")),
        key: Operand::Register(Register::Locator(0)),
        destination: Register::Locator(1),
    };
    let bytes_le = get.to_bytes_le();
    let result = Get::from_bytes_le(&bytes_le[..]);
    assert!(result.is_ok());
    assert_eq!(get, result.unwrap());
}

#[test]
fn get_with_qualified_locator_round_trips() {
    // The command `get token.aleo/balances[r0.owner] into r1;`-style shape.
    let get = Get {
        mapping: CallOperator::Locator(Locator {
            program_id: ProgramId { name: ident("token"), network: ident("aleo") },
            resource: ident("balances"),
        }),
        key: Operand::Register(Register::Access(
            0,
            vec![Access::Member(ident("owner")), Access::Index(3)],
        )),
        destination: Register::Locator(1),
    };
    let bytes = get.to_bytes_le();
    assert_eq!(get, Get::from_bytes_le(&bytes[..]).unwrap());
}

#[test]
fn get_with_literal_key_round_trips() {
    let get = Get {
        mapping: CallOperator::Resource(ident("account")),
        key: Operand::Literal(LiteralValue {
            kind: LiteralKind::U64,
            data: 42u64.to_le_bytes().to_vec(),
        }),
        destination: Register::Locator(0),
    };
    let bytes = get.to_bytes_le();
    assert_eq!(get, Get::from_bytes_le(&bytes[..]).unwrap());

    let text = Get {
        mapping: CallOperator::Resource(ident("notes")),
        key: Operand::Literal(LiteralValue {
            kind: LiteralKind::String,
            data: b"hello".to_vec(),
        }),
        destination: Register::Locator(0),
    };
    let bytes = text.to_bytes_le();
    assert_eq!(text, Get::from_bytes_le(&bytes[..]).unwrap());
}

#[test]
fn entry_type_round_trips_for_every_variant() {
    let cases = vec![
        EntryType::Constant(PlaintextType::Literal(LiteralKind::U8)),
        EntryType::Public(PlaintextType::Struct(ident("point"))),
        EntryType::Private(array_ty(
            array_ty(PlaintextType::Literal(LiteralKind::Boolean), 8),
            8,
        )),
        EntryType::Public(PlaintextType::Literal(LiteralKind::Signature)),
    ];
    for entry in cases {
        let bytes = entry.to_bytes_le();
        assert_eq!(entry, EntryType::from_bytes_le(&bytes[..]).unwrap());
    }
}

#[test]
fn entry_type_byte_layout_is_tag_then_payload() {
    // Visibility tag 1 (public), plaintext tag 0 (literal), literal tag 12 (u64).
    let entry = EntryType::Public(PlaintextType::Literal(LiteralKind::U64));
    assert_eq!(vec![1u8, 0, 12], entry.to_bytes_le());

    // Visibility tag 2 (private), plaintext tag 1 (struct), then the name
    // length and its bytes.
    let entry = EntryType::Private(PlaintextType::Struct(ident("ab")));
    assert_eq!(vec![2u8, 1, 2, b'a', b'b'], entry.to_bytes_le());

    // Visibility tag 0 (constant), plaintext tag 2 (array), element type,
    // then the length in four little-endian bytes.
    let entry = EntryType::Constant(array_ty(PlaintextType::Literal(LiteralKind::Boolean), 8));
    assert_eq!(vec![0u8, 2, 0, 1, 8, 0, 0, 0], entry.to_bytes_le());
}

#[test]
fn unknown_variant_tags_fail_to_decode() {
    // Visibility tag 3 does not exist.
    assert_eq!(Err(VmError::DecodeError), EntryType::from_bytes_le(&[3u8, 0, 12]));
    // Plaintext tag 3 does not exist.
    assert_eq!(Err(VmError::DecodeError), EntryType::from_bytes_le(&[0u8, 3, 12]));
    // Literal kind tag 17 does not exist.
    assert_eq!(Err(VmError::DecodeError), EntryType::from_bytes_le(&[0u8, 0, 17]));
}

#[test]
fn truncated_payloads_fail_to_decode() {
    assert_eq!(Err(VmError::DecodeError), EntryType::from_bytes_le(&[]));
    assert_eq!(Err(VmError::DecodeError), EntryType::from_bytes_le(&[1u8]));
    // An array type missing its length bytes.
    assert_eq!(Err(VmError::DecodeError), EntryType::from_bytes_le(&[0u8, 2, 0, 1, 8, 0]));
    // A struct name cut short.
    assert_eq!(Err(VmError::DecodeError), EntryType::from_bytes_le(&[2u8, 1, 5, b'a']));
}

#[test]
fn invalid_identifier_bytes_fail_to_decode() {
    // A name may not begin with a digit.
    assert_eq!(Err(VmError::DecodeError), EntryType::from_bytes_le(&[1u8, 1, 1, b'7']));
    // A name may not hold an uppercase byte.
    assert_eq!(Err(VmError::DecodeError), EntryType::from_bytes_le(&[1u8, 1, 2, b'a', b'B']));
    // A name may not be empty.
    assert_eq!(Err(VmError::DecodeError), EntryType::from_bytes_le(&[1u8, 1, 0]));
}

#[test]
fn get_accessors_expose_the_command_parts() {
    let get = Get {
        mapping: CallOperator::Resource(ident("account")),
        key: Operand::Register(Register::Locator(0)),
        destination: Register::Locator(1),
    };
    assert!(matches!(Get::opcode(), Opcode::Command("get")));
    let operands = get.operands();
    assert_eq!(1, operands.len());
    assert_eq!(Operand::Register(Register::Locator(0)), operands[0]);
    assert_eq!(CallOperator::Resource(ident("account")), *get.mapping());
    assert_eq!(Operand::Register(Register::Locator(0)), *get.key());
    assert_eq!(Register::Locator(1), *get.destination());
}

#[test]
fn identifier_validation() {
    assert!(Identifier::from_bytes(b"account_2".to_vec()).is_ok());
    assert_eq!(Err(VmError::DecodeError), Identifier::from_bytes(b"".to_vec()));
    assert_eq!(Err(VmError::DecodeError), Identifier::from_bytes(b"2account".to_vec()));
    assert_eq!(Err(VmError::DecodeError), Identifier::from_bytes(b"has space".to_vec()));
    assert_eq!(
        Err(VmError::DecodeError),
        Identifier::from_bytes(b"a_very_long_identifier_name_over_31b".to_vec())
    );
}
