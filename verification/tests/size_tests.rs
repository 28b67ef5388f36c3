use finalize_core::ident::{Identifier, ProgramId};
use finalize_core::size::plaintext_size_in_bytes;
use finalize_core::types::{LiteralKind, PlaintextType, Program, StructDef};
use finalize_core::VmError;

fn ident(s: &str) -> Identifier {
    Identifier::from_bytes(s.as_bytes().to_vec()).unwrap()
}

fn array_ty(elem: PlaintextType, len: u32) -> PlaintextType {
    PlaintextType::Array(Box::new(elem), len)
}

fn program_with_small() -> Program {
    let u64_ty = PlaintextType::Literal(LiteralKind::U64);
    Program {
        id: ProgramId { name: ident("test_program"), network: ident("aleo") },
        structs: vec![StructDef {
            name: ident("small"),
            members: vec![
                (ident("a"), u64_ty.clone()),
                (ident("b"), u64_ty.clone()),
                (ident("c"), u64_ty),
            ],
        }],
    }
}

#[test]
fn literal_widths() {
    let program = program_with_small();
    let size = |k: LiteralKind| {
        plaintext_size_in_bytes(&program, &PlaintextType::Literal(k)).unwrap()
    };
    assert_eq!(1, size(LiteralKind::Boolean));
    assert_eq!(1, size(LiteralKind::U8));
    assert_eq!(2, size(LiteralKind::U16));
    assert_eq!(4, size(LiteralKind::U32));
    assert_eq!(8, size(LiteralKind::U64));
    assert_eq!(16, size(LiteralKind::U128));
    assert_eq!(1, size(LiteralKind::I8));
    assert_eq!(16, size(LiteralKind::I128));
    assert_eq!(32, size(LiteralKind::Field));
    assert_eq!(32, size(LiteralKind::Group));
    assert_eq!(32, size(LiteralKind::Scalar));
    assert_eq!(32, size(LiteralKind::Address));
    assert_eq!(126, size(LiteralKind::Signature));
    assert_eq!(1020, size(LiteralKind::String));
}

#[test]
fn struct_size_includes_its_own_name_length() {
    let program = program_with_small();
    // One length byte plus the five name bytes, plus three u64 members.
    assert_eq!(
        30,
        plaintext_size_in_bytes(&program, &PlaintextType::Struct(ident("small"))).unwrap()
    );
}

#[test]
fn array_size_multiplies_by_length() {
    let program = program_with_small();
    let boolean = PlaintextType::Literal(LiteralKind::Boolean);
    let inner = array_ty(boolean, 8);
    assert_eq!(8, plaintext_size_in_bytes(&program, &inner).unwrap());
    // Nesting an array of length 8 inside another multiplies the size by 8.
    let outer = array_ty(inner.clone(), 8);
    assert_eq!(
        8 * plaintext_size_in_bytes(&program, &inner).unwrap(),
        plaintext_size_in_bytes(&program, &outer).unwrap()
    );
    assert_eq!(64, plaintext_size_in_bytes(&program, &outer).unwrap());

    let seven = array_ty(PlaintextType::Literal(LiteralKind::U32), 7);
    let seven_by_seven = array_ty(seven.clone(), 7);
    assert_eq!(28, plaintext_size_in_bytes(&program, &seven).unwrap());
    assert_eq!(196, plaintext_size_in_bytes(&program, &seven_by_seven).unwrap());
}

#[test]
fn zero_length_array_sizes_to_zero() {
    let program = program_with_small();
    let empty = array_ty(PlaintextType::Literal(LiteralKind::U64), 0);
    assert_eq!(0, plaintext_size_in_bytes(&program, &empty).unwrap());
}

#[test]
fn unresolved_struct_reference_is_a_schema_error() {
    let program = program_with_small();
    assert_eq!(
        Err(VmError::SchemaError),
        plaintext_size_in_bytes(&program, &PlaintextType::Struct(ident("missing")))
    );
    // The same holds when the reference is buried inside an array.
    assert_eq!(
        Err(VmError::SchemaError),
        plaintext_size_in_bytes(&program, &array_ty(PlaintextType::Struct(ident("missing")), 4))
    );
}

#[test]
fn oversized_types_saturate_rather_than_wrap() {
    let program = program_with_small();
    let vast = array_ty(
        array_ty(PlaintextType::Literal(LiteralKind::U128), u32::MAX),
        u32::MAX,
    );
    assert_eq!(u64::MAX, plaintext_size_in_bytes(&program, &vast).unwrap());
}
