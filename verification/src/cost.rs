//! The deterministic cost model: a pure table from (command, resolved operand
//! types) to a microcredit cost, and the engine that sums it over a finalize
//! routine with overflow-failing accumulation.
//!
//! Pricing uses only type and schema information, never stored values, so the
//! cost of a routine is identical whether or not any key currently exists.

use vstd::prelude::*;

use crate::command::{Access, CastType, Command, Instruction, Operand, Register};
use crate::ident::Identifier;
use crate::size::{plaintext_size_in_bytes, spec_plaintext_size};
use crate::types::{FinalizeType, LiteralKind, PlaintextType, Program, StructDef};
use crate::util::{sat64, sat_add, sat_mul, spec_sat_add, spec_sat_mul};
use crate::VmError;

verus! {

/// Base cost of a sized cast command.
pub const CAST_COMMAND_BASE_COST: u64 = 500;

/// Base cost of the mapping read commands (`get`, `contains`).
pub const GET_COMMAND_BASE_COST: u64 = 10_000;

/// Base cost of the generic hash families (Keccak, SHA3, Pedersen-128).
pub const HASH_BASE_COST: u64 = 10_000;

/// Base cost of the BHP hash family.
pub const HASH_BHP_BASE_COST: u64 = 50_000;

/// Base cost of the Poseidon hash family.
pub const HASH_PSD_BASE_COST: u64 = 40_000;

/// Base cost of the mapping write commands (`set`, `get.or_use`).
pub const SET_COMMAND_BASE_COST: u64 = 10_000;

/// Per-byte cost of a sized cast command.
pub const CAST_PER_BYTE_COST: u64 = 30;

/// Per-byte cost of the mapping read commands.
pub const GET_COMMAND_PER_BYTE_COST: u64 = 10;

/// Per-byte cost of the BHP hash family.
pub const HASH_BHP_PER_BYTE_COST: u64 = 300;

/// Per-byte cost of the generic hash families.
pub const HASH_PER_BYTE_COST: u64 = 30;

/// Per-byte cost of the Poseidon hash family.
pub const HASH_PSD_PER_BYTE_COST: u64 = 75;

/// Per-byte cost of the mapping write commands.
pub const SET_COMMAND_PER_BYTE_COST: u64 = 100;

/// Fixed cost of the seeded randomness command.
pub const RAND_CHACHA_COST: u64 = 25_000;

/// Fixed cost of a position label.
pub const POSITION_COST: u64 = 100;

/// Fixed cost of most instructions, branches and `await`.
pub const FIXED_COMMAND_COST: u64 = 500;

/// A finalize routine: its name, the types its type checker assigned to its
/// registers (register `i` has type `register_types[i]`), and its commands in
/// declared order.
#[derive(Debug, PartialEq, Eq)]
pub struct Finalize {
    /// The routine's name.
    pub name: Identifier,
    /// The type of each register, by register locator.
    pub register_types: Vec<FinalizeType>,
    /// The commands, in declared order.
    pub commands: Vec<Command>,
}

/// The type of the first member named `name`, in declared order.
pub open spec fn spec_member_type(
    members: Seq<(Identifier, PlaintextType)>,
    name: Seq<u8>,
) -> Option<PlaintextType>
    decreases members.len(),
{
    if members.len() == 0 {
        None
    } else if members[0].0@ == name {
        Some(members[0].1)
    } else {
        spec_member_type(members.drop_first(), name)
    }
}

/// What [`spec_member_type`] returns: the first matching member, or `None`.
pub proof fn lemma_member_type(members: Seq<(Identifier, PlaintextType)>, name: Seq<u8>)
    ensures
        ({
            let r = spec_member_type(members, name);
            &&& r is None ==> forall|j: int|
                0 <= j < members.len() ==> (#[trigger] members[j]).0@ != name
            &&& r matches Some(t) ==> exists|j: int|
                0 <= j < members.len() && (#[trigger] members[j]).0@ == name && members[j].1 == t
        }),
    decreases members.len(),
{
    if members.len() > 0 && members[0].0@ != name {
        lemma_member_type(members.drop_first(), name);
        assert forall|j: int| 1 <= j < members.len() implies members.drop_first()[j - 1]
            == #[trigger] members[j] by {}
    }
}

/// Looks up a member type by name in a struct's member list.
fn find_member_type<'a>(
    members: &'a Vec<(Identifier, PlaintextType)>,
    name: &Identifier,
) -> (r: Option<&'a PlaintextType>)
    ensures
        match r {
            Some(t) => spec_member_type(members@, name@) == Some(*t),
            None => spec_member_type(members@, name@) is None,
        },
{
    let n = members.len();
    let mut j: usize = 0;
    while j < n
        invariant
            0 <= j <= n,
            n == members@.len(),
            forall|k: int| 0 <= k < j ==> (#[trigger] members@[k]).0@ != name@,
        decreases n - j,
    {
        if members[j].0.eq_name(name) {
            proof {
                lemma_member_type_first(members@, name@, j as int);
            }
            return Some(&members[j].1);
        }
        j = j + 1;
    }
    proof {
        lemma_member_type(members@, name@);
        if spec_member_type(members@, name@) is Some {
        }
    }
    None
}

/// If position `j` matches and nothing before it does, the lookup gives it.
proof fn lemma_member_type_first(
    members: Seq<(Identifier, PlaintextType)>,
    name: Seq<u8>,
    j: int,
)
    requires
        0 <= j < members.len(),
        members[j].0@ == name,
        forall|k: int| 0 <= k < j ==> (#[trigger] members[k]).0@ != name,
    ensures
        spec_member_type(members, name) == Some(members[j].1),
    decreases j,
{
    if j == 0 {
    } else {
        assert(members[0].0@ != name);
        lemma_member_type_first(members.drop_first(), name, j - 1);
        assert forall|k: int| 1 <= k < members.len() implies members.drop_first()[k - 1]
            == #[trigger] members[k] by {}
    }
}

/// The plaintext type reached from `base` by the remaining access path
/// `path[i..]`: a member access needs a struct whose member exists, an index
/// access needs an array whose length covers the index.
pub open spec fn spec_access_type(
    structs: Seq<StructDef>,
    base: PlaintextType,
    path: Seq<Access>,
    i: int,
) -> Result<PlaintextType, VmError>
    decreases path.len() - i,
{
    if i >= path.len() || i < 0 {
        Ok(base)
    } else {
        match path[i] {
            Access::Member(id) => match base {
                PlaintextType::Struct(sid) => {
                    let j = crate::types::spec_find_struct(structs, sid@);
                    if 0 <= j {
                        match spec_member_type(structs[j].members@, id@) {
                            Some(t) => spec_access_type(structs, t, path, i + 1),
                            None => Err(VmError::SchemaError),
                        }
                    } else {
                        Err(VmError::SchemaError)
                    }
                },
                _ => Err(VmError::TypeMismatchError),
            },
            Access::Index(idx) => match base {
                PlaintextType::Array(elem, len) => {
                    if idx < len {
                        spec_access_type(structs, *elem, path, i + 1)
                    } else {
                        Err(VmError::TypeMismatchError)
                    }
                },
                _ => Err(VmError::TypeMismatchError),
            },
        }
    }
}

/// Walks an access path from a base plaintext type.
fn access_plaintext_type<'a>(
    stack: &'a Program,
    base: &'a PlaintextType,
    path: &Vec<Access>,
) -> (r: Result<&'a PlaintextType, VmError>)
    ensures
        match r {
            Ok(t) => spec_access_type(stack.structs@, *base, path@, 0) == Ok::<
                PlaintextType,
                VmError,
            >(*t),
            Err(e) => spec_access_type(stack.structs@, *base, path@, 0) == Err::<
                PlaintextType,
                VmError,
            >(e),
        },
{
    let n = path.len();
    let mut cur: &PlaintextType = base;
    let mut i: usize = 0;
    while i < n
        invariant
            0 <= i <= n,
            n == path@.len(),
            spec_access_type(stack.structs@, *cur, path@, i as int) == spec_access_type(
                stack.structs@,
                *base,
                path@,
                0,
            ),
        decreases n - i,
    {
        match &path[i] {
            Access::Member(id) => {
                match cur {
                    PlaintextType::Struct(sid) => {
                        let j = match stack.find_struct(sid) {
                            Some(j) => j,
                            None => {
                                return Err(VmError::SchemaError);
                            },
                        };
                        proof {
                            crate::types::lemma_find_struct(stack.structs@, sid@);
                        }
                        match find_member_type(&stack.structs[j].members, id) {
                            Some(t) => {
                                cur = t;
                            },
                            None => {
                                return Err(VmError::SchemaError);
                            },
                        }
                    },
                    _ => {
                        return Err(VmError::TypeMismatchError);
                    },
                }
            },
            Access::Index(idx) => {
                match cur {
                    PlaintextType::Array(elem, len) => {
                        if *idx < *len {
                            cur = elem;
                        } else {
                            return Err(VmError::TypeMismatchError);
                        }
                    },
                    _ => {
                        return Err(VmError::TypeMismatchError);
                    },
                }
            },
        }
        i = i + 1;
    }
    Ok(cur)
}

/// The finalize type of a register reference: the register's own type for a
/// plain locator, or the type reached through the access path; a future has
/// no access path.
pub open spec fn spec_register_type(
    structs: Seq<StructDef>,
    rtypes: Seq<FinalizeType>,
    reg: Register,
) -> Result<FinalizeType, VmError> {
    match reg {
        Register::Locator(loc) => {
            if loc < rtypes.len() {
                Ok(rtypes[loc as int])
            } else {
                Err(VmError::SchemaError)
            }
        },
        Register::Access(loc, path) => {
            if loc < rtypes.len() {
                match rtypes[loc as int] {
                    FinalizeType::Plaintext(pt) => {
                        match spec_access_type(structs, pt, path@, 0) {
                            Ok(t) => Ok(FinalizeType::Plaintext(t)),
                            Err(e) => Err(e),
                        }
                    },
                    FinalizeType::Future(_) => Err(VmError::TypeMismatchError),
                }
            } else {
                Err(VmError::SchemaError)
            }
        },
    }
}

/// The finalize type of an operand. Immediate literals carry their kind;
/// a program identity is an address; the block height is a `u32` and the
/// network identifier a `u16`. The signer and caller are not available
/// inside finalize logic.
pub open spec fn spec_operand_type(
    structs: Seq<StructDef>,
    rtypes: Seq<FinalizeType>,
    op: Operand,
) -> Result<FinalizeType, VmError> {
    match op {
        Operand::Literal(lit) => Ok(
            FinalizeType::Plaintext(PlaintextType::Literal(lit.kind)),
        ),
        Operand::Register(reg) => spec_register_type(structs, rtypes, reg),
        Operand::ProgramID(_) => Ok(
            FinalizeType::Plaintext(PlaintextType::Literal(LiteralKind::Address)),
        ),
        Operand::Signer => Err(VmError::UnsupportedInFinalizeError),
        Operand::Caller => Err(VmError::UnsupportedInFinalizeError),
        Operand::BlockHeight => Ok(
            FinalizeType::Plaintext(PlaintextType::Literal(LiteralKind::U32)),
        ),
        Operand::NetworkID => Ok(
            FinalizeType::Plaintext(PlaintextType::Literal(LiteralKind::U16)),
        ),
    }
}

/// The clamped byte size of the operand's resolved type. A future has no
/// concrete size; an unresolved struct reference is a schema error.
pub open spec fn spec_operand_size(
    structs: Seq<StructDef>,
    rtypes: Seq<FinalizeType>,
    op: Operand,
) -> Result<u64, VmError> {
    match spec_operand_type(structs, rtypes, op) {
        Err(e) => Err(e),
        Ok(FinalizeType::Future(_)) => Err(VmError::TypeMismatchError),
        Ok(FinalizeType::Plaintext(pt)) => match spec_plaintext_size(
            structs,
            structs.len() as int,
            pt,
        ) {
            Some(n) => Ok(sat64(n)),
            None => Err(VmError::SchemaError),
        },
    }
}

/// Resolves a register reference to its plaintext type, borrowed from the
/// register-type table or the struct registry. A register that holds or
/// reaches a future is reported as a type mismatch, matching every caller's
/// treatment of futures where a concrete plaintext type is required.
fn register_plaintext_type<'a>(
    stack: &'a Program,
    rtypes: &'a Vec<FinalizeType>,
    reg: &'a Register,
) -> (r: Result<&'a PlaintextType, VmError>)
    ensures
        match r {
            Ok(t) => spec_register_type(stack.structs@, rtypes@, *reg) == Ok::<
                FinalizeType,
                VmError,
            >(FinalizeType::Plaintext(*t)),
            Err(e) => {
                ||| spec_register_type(stack.structs@, rtypes@, *reg) == Err::<
                    FinalizeType,
                    VmError,
                >(e)
                ||| (e == VmError::TypeMismatchError && spec_register_type(
                    stack.structs@,
                    rtypes@,
                    *reg,
                ) matches Ok(FinalizeType::Future(_)))
            },
        },
{
    match reg {
        Register::Locator(loc) => {
            if *loc >= rtypes.len() as u64 {
                return Err(VmError::SchemaError);
            }
            match &rtypes[*loc as usize] {
                FinalizeType::Plaintext(pt) => Ok(pt),
                FinalizeType::Future(_) => Err(VmError::TypeMismatchError),
            }
        },
        Register::Access(loc, path) => {
            if *loc >= rtypes.len() as u64 {
                return Err(VmError::SchemaError);
            }
            let base = match &rtypes[*loc as usize] {
                FinalizeType::Plaintext(pt) => pt,
                FinalizeType::Future(_) => {
                    return Err(VmError::TypeMismatchError);
                },
            };
            match access_plaintext_type(stack, base, path) {
                Ok(t) => Ok(t),
                Err(e) => Err(e),
            }
        },
    }
}

/// Resolves the operand's plaintext type and sizes it.
fn operand_size_in_bytes(
    stack: &Program,
    rtypes: &Vec<FinalizeType>,
    op: &Operand,
) -> (r: Result<u64, VmError>)
    ensures
        r == spec_operand_size(stack.structs@, rtypes@, *op),
{
    let pt: &PlaintextType = match op {
        Operand::Literal(lit) => {
            return Ok(crate::types::literal_size_in_bytes(lit.kind));
        },
        Operand::Register(reg) => {
            match register_plaintext_type(stack, rtypes, reg) {
                Ok(t) => t,
                Err(e) => {
                    return Err(e);
                },
            }
        },
        Operand::ProgramID(_) => {
            return Ok(32);
        },
        Operand::Signer => {
            return Err(VmError::UnsupportedInFinalizeError);
        },
        Operand::Caller => {
            return Err(VmError::UnsupportedInFinalizeError);
        },
        Operand::BlockHeight => {
            return Ok(4);
        },
        Operand::NetworkID => {
            return Ok(2);
        },
    };
    plaintext_size_in_bytes(stack, pt)
}

/// The clamped byte size of the first `i` operands, summed with saturation.
pub open spec fn spec_operands_size(
    structs: Seq<StructDef>,
    rtypes: Seq<FinalizeType>,
    ops: Seq<Operand>,
    i: int,
) -> Result<u64, VmError>
    decreases i,
{
    if i <= 0 {
        Ok(0)
    } else {
        match spec_operands_size(structs, rtypes, ops, i - 1) {
            Err(e) => Err(e),
            Ok(acc) => match spec_operand_size(structs, rtypes, ops[i - 1]) {
                Err(e) => Err(e),
                Ok(s) => Ok(spec_sat_add(acc, s)),
            },
        }
    }
}

/// Once an operand fails to size, every longer prefix fails the same way.
proof fn lemma_operands_size_err(
    structs: Seq<StructDef>,
    rtypes: Seq<FinalizeType>,
    ops: Seq<Operand>,
    i: int,
    k: int,
    e: VmError,
)
    requires
        0 <= i <= k,
        spec_operands_size(structs, rtypes, ops, i) == Err::<u64, VmError>(e),
    ensures
        spec_operands_size(structs, rtypes, ops, k) == Err::<u64, VmError>(e),
    decreases k,
{
    if k > i {
        lemma_operands_size_err(structs, rtypes, ops, i, k - 1, e);
    }
}

/// Sums the clamped operand sizes with saturation.
#[verifier::loop_isolation(false)]
fn operands_size(stack: &Program, rtypes: &Vec<FinalizeType>, ops: &Vec<Operand>) -> (r: Result<
    u64,
    VmError,
>)
    ensures
        r == spec_operands_size(stack.structs@, rtypes@, ops@, ops@.len() as int),
{
    let n = ops.len();
    let mut acc: u64 = 0;
    let mut i: usize = 0;
    while i < n
        invariant
            0 <= i <= n,
            spec_operands_size(stack.structs@, rtypes@, ops@, i as int) == Ok::<u64, VmError>(acc),
        decreases n - i,
    {
        match operand_size_in_bytes(stack, rtypes, &ops[i]) {
            Ok(s) => {
                acc = sat_add(acc, s);
            },
            Err(e) => {
                proof {
                    lemma_operands_size_err(
                        stack.structs@,
                        rtypes@,
                        ops@,
                        i as int + 1,
                        n as int,
                        e,
                    );
                }
                return Err(e);
            },
        }
        i = i + 1;
    }
    Ok(acc)
}

/// The cost of a command priced by its operands' total byte size:
/// `base + total_bytes * per_byte`, with saturating arithmetic.
pub open spec fn spec_size_cost(
    structs: Seq<StructDef>,
    rtypes: Seq<FinalizeType>,
    ops: Seq<Operand>,
    per_byte: u64,
    base: u64,
) -> Result<u64, VmError> {
    match spec_operands_size(structs, rtypes, ops, ops.len() as int) {
        Err(e) => Err(e),
        Ok(total) => Ok(spec_sat_add(base, spec_sat_mul(total, per_byte))),
    }
}

/// Prices a command by its operands' total byte size.
fn size_cost(
    stack: &Program,
    rtypes: &Vec<FinalizeType>,
    ops: &Vec<Operand>,
    per_byte: u64,
    base: u64,
) -> (r: Result<u64, VmError>)
    ensures
        r == spec_size_cost(stack.structs@, rtypes@, ops@, per_byte, base),
{
    match operands_size(stack, rtypes, ops) {
        Err(e) => Err(e),
        Ok(total) => Ok(sat_add(base, sat_mul(total, per_byte))),
    }
}

/// The cost of a cast: a literal destination is fixed-cost; a struct or
/// array destination is priced by its byte size (`size * per_byte + base`),
/// because casting is how large composite values enter the system.
pub open spec fn spec_cast_cost(structs: Seq<StructDef>, ct: CastType) -> Result<u64, VmError> {
    match ct {
        CastType::Plaintext(PlaintextType::Literal(_)) => Ok(FIXED_COMMAND_COST),
        CastType::Plaintext(pt) => match spec_plaintext_size(structs, structs.len() as int, pt) {
            Some(n) => Ok(spec_sat_add(spec_sat_mul(sat64(n), CAST_PER_BYTE_COST), CAST_COMMAND_BASE_COST)),
            None => Err(VmError::SchemaError),
        },
        _ => Ok(FIXED_COMMAND_COST),
    }
}

/// Prices a cast by its destination type.
fn cast_cost(stack: &Program, ct: &CastType) -> (r: Result<u64, VmError>)
    ensures
        r == spec_cast_cost(stack.structs@, *ct),
{
    match ct {
        CastType::Plaintext(pt) => {
            match pt {
                PlaintextType::Literal(_) => Ok(FIXED_COMMAND_COST),
                _ => match plaintext_size_in_bytes(stack, pt) {
                    Ok(n) => Ok(sat_add(sat_mul(n, CAST_PER_BYTE_COST), CAST_COMMAND_BASE_COST)),
                    Err(e) => Err(e),
                },
            }
        },
        _ => Ok(FIXED_COMMAND_COST),
    }
}

/// The cost of a width-sensitive arithmetic opcode (`div`, `pow`): field
/// operands are priced higher than other literal kinds; composite or future
/// operands are a type error.
pub open spec fn spec_field_sensitive_cost(
    structs: Seq<StructDef>,
    rtypes: Seq<FinalizeType>,
    first: Operand,
) -> Result<u64, VmError> {
    match spec_operand_type(structs, rtypes, first) {
        Err(e) => Err(e),
        Ok(FinalizeType::Plaintext(PlaintextType::Literal(LiteralKind::Field))) => Ok(1_500),
        Ok(FinalizeType::Plaintext(PlaintextType::Literal(_))) => Ok(FIXED_COMMAND_COST),
        Ok(FinalizeType::Plaintext(PlaintextType::Array(_, _))) => Err(VmError::TypeMismatchError),
        Ok(FinalizeType::Plaintext(PlaintextType::Struct(_))) => Err(VmError::TypeMismatchError),
        Ok(FinalizeType::Future(_)) => Err(VmError::TypeMismatchError),
    }
}

/// The cost of `mul`: group and scalar operands price the expensive curve
/// multiplication; composite or future operands are a type error.
pub open spec fn spec_mul_cost(
    structs: Seq<StructDef>,
    rtypes: Seq<FinalizeType>,
    first: Operand,
) -> Result<u64, VmError> {
    match spec_operand_type(structs, rtypes, first) {
        Err(e) => Err(e),
        Ok(FinalizeType::Plaintext(PlaintextType::Literal(LiteralKind::Group))) => Ok(10_000),
        Ok(FinalizeType::Plaintext(PlaintextType::Literal(LiteralKind::Scalar))) => Ok(10_000),
        Ok(FinalizeType::Plaintext(PlaintextType::Literal(_))) => Ok(FIXED_COMMAND_COST),
        Ok(FinalizeType::Plaintext(PlaintextType::Array(_, _))) => Err(VmError::TypeMismatchError),
        Ok(FinalizeType::Plaintext(PlaintextType::Struct(_))) => Err(VmError::TypeMismatchError),
        Ok(FinalizeType::Future(_)) => Err(VmError::TypeMismatchError),
    }
}

/// Resolves the type of the first operand and prices a `div`/`pow` opcode.
fn field_sensitive_cost(stack: &Program, rtypes: &Vec<FinalizeType>, first: &Operand) -> (r:
    Result<u64, VmError>)
    ensures
        r == spec_field_sensitive_cost(stack.structs@, rtypes@, *first),
{
    match first {
        Operand::Literal(lit) => match lit.kind {
            LiteralKind::Field => Ok(1_500),
            _ => Ok(FIXED_COMMAND_COST),
        },
        Operand::Register(reg) => {
            match register_plaintext_type(stack, rtypes, reg) {
                Err(e) => Err(e),
                Ok(pt) => match pt {
                    PlaintextType::Literal(LiteralKind::Field) => Ok(1_500),
                    PlaintextType::Literal(_) => Ok(FIXED_COMMAND_COST),
                    _ => Err(VmError::TypeMismatchError),
                },
            }
        },
        Operand::ProgramID(_) => Ok(FIXED_COMMAND_COST),
        Operand::Signer => Err(VmError::UnsupportedInFinalizeError),
        Operand::Caller => Err(VmError::UnsupportedInFinalizeError),
        Operand::BlockHeight => Ok(FIXED_COMMAND_COST),
        Operand::NetworkID => Ok(FIXED_COMMAND_COST),
    }
}

/// Resolves the type of the first operand and prices a `mul` opcode.
fn mul_cost(stack: &Program, rtypes: &Vec<FinalizeType>, first: &Operand) -> (r: Result<
    u64,
    VmError,
>)
    ensures
        r == spec_mul_cost(stack.structs@, rtypes@, *first),
{
    match first {
        Operand::Literal(lit) => match lit.kind {
            LiteralKind::Group => Ok(10_000),
            LiteralKind::Scalar => Ok(10_000),
            _ => Ok(FIXED_COMMAND_COST),
        },
        Operand::Register(reg) => {
            match register_plaintext_type(stack, rtypes, reg) {
                Err(e) => Err(e),
                Ok(pt) => match pt {
                    PlaintextType::Literal(LiteralKind::Group) => Ok(10_000),
                    PlaintextType::Literal(LiteralKind::Scalar) => Ok(10_000),
                    PlaintextType::Literal(_) => Ok(FIXED_COMMAND_COST),
                    _ => Err(VmError::TypeMismatchError),
                },
            }
        },
        Operand::ProgramID(_) => Ok(FIXED_COMMAND_COST),
        Operand::Signer => Err(VmError::UnsupportedInFinalizeError),
        Operand::Caller => Err(VmError::UnsupportedInFinalizeError),
        Operand::BlockHeight => Ok(FIXED_COMMAND_COST),
        Operand::NetworkID => Ok(FIXED_COMMAND_COST),
    }
}

/// The microcredit cost of one instruction inside finalize logic.
///
/// Most arithmetic, logic and comparison opcodes are fixed-cost; hash and
/// commit opcodes are priced per operand byte with the family's own base and
/// rate; `div`, `mul` and `pow` depend on the first operand's literal kind;
/// casts to composite types are priced by destination size; `call`, `async`
/// and the hash-many family are never permitted.
pub open spec fn spec_instruction_cost(
    structs: Seq<StructDef>,
    rtypes: Seq<FinalizeType>,
    inst: Instruction,
) -> Result<u64, VmError> {
    match inst {
        Instruction::Abs(_) => Ok(FIXED_COMMAND_COST),
        Instruction::AbsWrapped(_) => Ok(FIXED_COMMAND_COST),
        Instruction::Add(_) => Ok(FIXED_COMMAND_COST),
        Instruction::AddWrapped(_) => Ok(FIXED_COMMAND_COST),
        Instruction::And(_) => Ok(FIXED_COMMAND_COST),
        Instruction::AssertEq(_) => Ok(FIXED_COMMAND_COST),
        Instruction::AssertNeq(_) => Ok(FIXED_COMMAND_COST),
        Instruction::Async(_) => Err(VmError::UnsupportedInFinalizeError),
        Instruction::Call(_) => Err(VmError::UnsupportedInFinalizeError),
        Instruction::Cast(ct, _) => spec_cast_cost(structs, ct),
        Instruction::CastLossy(ct, _) => spec_cast_cost(structs, ct),
        Instruction::CommitBHP256(ops) => spec_size_cost(
            structs,
            rtypes,
            ops@,
            HASH_BHP_PER_BYTE_COST,
            HASH_BHP_BASE_COST,
        ),
        Instruction::CommitBHP512(ops) => spec_size_cost(
            structs,
            rtypes,
            ops@,
            HASH_BHP_PER_BYTE_COST,
            HASH_BHP_BASE_COST,
        ),
        Instruction::CommitBHP768(ops) => spec_size_cost(
            structs,
            rtypes,
            ops@,
            HASH_BHP_PER_BYTE_COST,
            HASH_BHP_BASE_COST,
        ),
        Instruction::CommitBHP1024(ops) => spec_size_cost(
            structs,
            rtypes,
            ops@,
            HASH_BHP_PER_BYTE_COST,
            HASH_BHP_BASE_COST,
        ),
        // The Pedersen commitments reuse BHP constants as their base costs
        // (the 64-bit variant even uses the BHP per-byte rate as its base).
        // The asymmetry is kept as deployed: the fee schedule is consensus
        // critical and may not drift.
        Instruction::CommitPED64(ops) => spec_size_cost(
            structs,
            rtypes,
            ops@,
            HASH_PER_BYTE_COST,
            HASH_BHP_PER_BYTE_COST,
        ),
        Instruction::CommitPED128(ops) => spec_size_cost(
            structs,
            rtypes,
            ops@,
            HASH_PER_BYTE_COST,
            HASH_BHP_BASE_COST,
        ),
        Instruction::Div(ops) => {
            if ops@.len() == 2 {
                spec_field_sensitive_cost(structs, rtypes, ops@[0])
            } else {
                Err(VmError::ArityError)
            }
        },
        Instruction::DivWrapped(_) => Ok(FIXED_COMMAND_COST),
        Instruction::Double(_) => Ok(FIXED_COMMAND_COST),
        Instruction::GreaterThan(_) => Ok(FIXED_COMMAND_COST),
        Instruction::GreaterThanOrEqual(_) => Ok(FIXED_COMMAND_COST),
        Instruction::HashBHP256(ops) => spec_size_cost(
            structs,
            rtypes,
            ops@,
            HASH_BHP_PER_BYTE_COST,
            HASH_BHP_BASE_COST,
        ),
        Instruction::HashBHP512(ops) => spec_size_cost(
            structs,
            rtypes,
            ops@,
            HASH_BHP_PER_BYTE_COST,
            HASH_BHP_BASE_COST,
        ),
        Instruction::HashBHP768(ops) => spec_size_cost(
            structs,
            rtypes,
            ops@,
            HASH_BHP_PER_BYTE_COST,
            HASH_BHP_BASE_COST,
        ),
        Instruction::HashBHP1024(ops) => spec_size_cost(
            structs,
            rtypes,
            ops@,
            HASH_BHP_PER_BYTE_COST,
            HASH_BHP_BASE_COST,
        ),
        Instruction::HashKeccak256(ops) => spec_size_cost(
            structs,
            rtypes,
            ops@,
            HASH_PER_BYTE_COST,
            HASH_BASE_COST,
        ),
        Instruction::HashKeccak384(ops) => spec_size_cost(
            structs,
            rtypes,
            ops@,
            HASH_PER_BYTE_COST,
            HASH_BASE_COST,
        ),
        Instruction::HashKeccak512(ops) => spec_size_cost(
            structs,
            rtypes,
            ops@,
            HASH_PER_BYTE_COST,
            HASH_BASE_COST,
        ),
        Instruction::HashManyPSD2(_) => Err(VmError::UnsupportedInFinalizeError),
        Instruction::HashManyPSD4(_) => Err(VmError::UnsupportedInFinalizeError),
        Instruction::HashManyPSD8(_) => Err(VmError::UnsupportedInFinalizeError),
        // The 64-bit Pedersen hash uses the generic per-byte rate as its
        // base cost; kept as deployed for the same reason as the
        // commitments above.
        Instruction::HashPED64(ops) => spec_size_cost(
            structs,
            rtypes,
            ops@,
            HASH_PER_BYTE_COST,
            HASH_PER_BYTE_COST,
        ),
        Instruction::HashPED128(ops) => spec_size_cost(
            structs,
            rtypes,
            ops@,
            HASH_PER_BYTE_COST,
            HASH_BASE_COST,
        ),
        Instruction::HashPSD2(ops) => spec_size_cost(
            structs,
            rtypes,
            ops@,
            HASH_PSD_PER_BYTE_COST,
            HASH_PSD_BASE_COST,
        ),
        Instruction::HashPSD4(ops) => spec_size_cost(
            structs,
            rtypes,
            ops@,
            HASH_PSD_PER_BYTE_COST,
            HASH_PSD_BASE_COST,
        ),
        Instruction::HashPSD8(ops) => spec_size_cost(
            structs,
            rtypes,
            ops@,
            HASH_PSD_PER_BYTE_COST,
            HASH_PSD_BASE_COST,
        ),
        Instruction::HashSha3_256(ops) => spec_size_cost(
            structs,
            rtypes,
            ops@,
            HASH_PER_BYTE_COST,
            HASH_BASE_COST,
        ),
        Instruction::HashSha3_384(ops) => spec_size_cost(
            structs,
            rtypes,
            ops@,
            HASH_PER_BYTE_COST,
            HASH_BASE_COST,
        ),
        Instruction::HashSha3_512(ops) => spec_size_cost(
            structs,
            rtypes,
            ops@,
            HASH_PER_BYTE_COST,
            HASH_BASE_COST,
        ),
        Instruction::Inv(_) => Ok(1_000),
        Instruction::IsEq(_) => Ok(FIXED_COMMAND_COST),
        Instruction::IsNeq(_) => Ok(FIXED_COMMAND_COST),
        Instruction::LessThan(_) => Ok(FIXED_COMMAND_COST),
        Instruction::LessThanOrEqual(_) => Ok(FIXED_COMMAND_COST),
        Instruction::Modulo(_) => Ok(FIXED_COMMAND_COST),
        Instruction::Mul(ops) => {
            if ops@.len() == 2 {
                spec_mul_cost(structs, rtypes, ops@[0])
            } else {
                Err(VmError::ArityError)
            }
        },
        Instruction::MulWrapped(_) => Ok(FIXED_COMMAND_COST),
        Instruction::Nand(_) => Ok(FIXED_COMMAND_COST),
        Instruction::Neg(_) => Ok(FIXED_COMMAND_COST),
        Instruction::Nor(_) => Ok(FIXED_COMMAND_COST),
        Instruction::Not(_) => Ok(FIXED_COMMAND_COST),
        Instruction::Or(_) => Ok(FIXED_COMMAND_COST),
        Instruction::Pow(ops) => {
            if ops@.len() == 0 {
                Err(VmError::ArityError)
            } else {
                spec_field_sensitive_cost(structs, rtypes, ops@[0])
            }
        },
        Instruction::PowWrapped(_) => Ok(FIXED_COMMAND_COST),
        Instruction::Rem(_) => Ok(FIXED_COMMAND_COST),
        Instruction::RemWrapped(_) => Ok(FIXED_COMMAND_COST),
        Instruction::SignVerify(_) => Ok(HASH_PSD_BASE_COST),
        Instruction::Shl(_) => Ok(FIXED_COMMAND_COST),
        Instruction::ShlWrapped(_) => Ok(FIXED_COMMAND_COST),
        Instruction::Shr(_) => Ok(FIXED_COMMAND_COST),
        Instruction::ShrWrapped(_) => Ok(FIXED_COMMAND_COST),
        Instruction::Square(_) => Ok(FIXED_COMMAND_COST),
        Instruction::SquareRoot(_) => Ok(2_500),
        Instruction::Sub(_) => Ok(FIXED_COMMAND_COST),
        Instruction::SubWrapped(_) => Ok(FIXED_COMMAND_COST),
        Instruction::Ternary(_) => Ok(FIXED_COMMAND_COST),
        Instruction::Xor(_) => Ok(FIXED_COMMAND_COST),
    }
}

/// Prices one instruction.
fn instruction_cost(stack: &Program, rtypes: &Vec<FinalizeType>, inst: &Instruction) -> (r:
    Result<u64, VmError>)
    ensures
        r == spec_instruction_cost(stack.structs@, rtypes@, *inst),
{
    match inst {
        Instruction::Abs(_) => Ok(FIXED_COMMAND_COST),
        Instruction::AbsWrapped(_) => Ok(FIXED_COMMAND_COST),
        Instruction::Add(_) => Ok(FIXED_COMMAND_COST),
        Instruction::AddWrapped(_) => Ok(FIXED_COMMAND_COST),
        Instruction::And(_) => Ok(FIXED_COMMAND_COST),
        Instruction::AssertEq(_) => Ok(FIXED_COMMAND_COST),
        Instruction::AssertNeq(_) => Ok(FIXED_COMMAND_COST),
        Instruction::Async(_) => Err(VmError::UnsupportedInFinalizeError),
        Instruction::Call(_) => Err(VmError::UnsupportedInFinalizeError),
        Instruction::Cast(ct, _) => cast_cost(stack, ct),
        Instruction::CastLossy(ct, _) => cast_cost(stack, ct),
        Instruction::CommitBHP256(ops) => size_cost(
            stack,
            rtypes,
            ops,
            HASH_BHP_PER_BYTE_COST,
            HASH_BHP_BASE_COST,
        ),
        Instruction::CommitBHP512(ops) => size_cost(
            stack,
            rtypes,
            ops,
            HASH_BHP_PER_BYTE_COST,
            HASH_BHP_BASE_COST,
        ),
        Instruction::CommitBHP768(ops) => size_cost(
            stack,
            rtypes,
            ops,
            HASH_BHP_PER_BYTE_COST,
            HASH_BHP_BASE_COST,
        ),
        Instruction::CommitBHP1024(ops) => size_cost(
            stack,
            rtypes,
            ops,
            HASH_BHP_PER_BYTE_COST,
            HASH_BHP_BASE_COST,
        ),
        Instruction::CommitPED64(ops) => size_cost(
            stack,
            rtypes,
            ops,
            HASH_PER_BYTE_COST,
            HASH_BHP_PER_BYTE_COST,
        ),
        Instruction::CommitPED128(ops) => size_cost(
            stack,
            rtypes,
            ops,
            HASH_PER_BYTE_COST,
            HASH_BHP_BASE_COST,
        ),
        Instruction::Div(ops) => {
            if ops.len() == 2 {
                field_sensitive_cost(stack, rtypes, &ops[0])
            } else {
                Err(VmError::ArityError)
            }
        },
        Instruction::DivWrapped(_) => Ok(FIXED_COMMAND_COST),
        Instruction::Double(_) => Ok(FIXED_COMMAND_COST),
        Instruction::GreaterThan(_) => Ok(FIXED_COMMAND_COST),
        Instruction::GreaterThanOrEqual(_) => Ok(FIXED_COMMAND_COST),
        Instruction::HashBHP256(ops) => size_cost(
            stack,
            rtypes,
            ops,
            HASH_BHP_PER_BYTE_COST,
            HASH_BHP_BASE_COST,
        ),
        Instruction::HashBHP512(ops) => size_cost(
            stack,
            rtypes,
            ops,
            HASH_BHP_PER_BYTE_COST,
            HASH_BHP_BASE_COST,
        ),
        Instruction::HashBHP768(ops) => size_cost(
            stack,
            rtypes,
            ops,
            HASH_BHP_PER_BYTE_COST,
            HASH_BHP_BASE_COST,
        ),
        Instruction::HashBHP1024(ops) => size_cost(
            stack,
            rtypes,
            ops,
            HASH_BHP_PER_BYTE_COST,
            HASH_BHP_BASE_COST,
        ),
        Instruction::HashKeccak256(ops) => size_cost(
            stack,
            rtypes,
            ops,
            HASH_PER_BYTE_COST,
            HASH_BASE_COST,
        ),
        Instruction::HashKeccak384(ops) => size_cost(
            stack,
            rtypes,
            ops,
            HASH_PER_BYTE_COST,
            HASH_BASE_COST,
        ),
        Instruction::HashKeccak512(ops) => size_cost(
            stack,
            rtypes,
            ops,
            HASH_PER_BYTE_COST,
            HASH_BASE_COST,
        ),
        Instruction::HashManyPSD2(_) => Err(VmError::UnsupportedInFinalizeError),
        Instruction::HashManyPSD4(_) => Err(VmError::UnsupportedInFinalizeError),
        Instruction::HashManyPSD8(_) => Err(VmError::UnsupportedInFinalizeError),
        Instruction::HashPED64(ops) => size_cost(
            stack,
            rtypes,
            ops,
            HASH_PER_BYTE_COST,
            HASH_PER_BYTE_COST,
        ),
        Instruction::HashPED128(ops) => size_cost(
            stack,
            rtypes,
            ops,
            HASH_PER_BYTE_COST,
            HASH_BASE_COST,
        ),
        Instruction::HashPSD2(ops) => size_cost(
            stack,
            rtypes,
            ops,
            HASH_PSD_PER_BYTE_COST,
            HASH_PSD_BASE_COST,
        ),
        Instruction::HashPSD4(ops) => size_cost(
            stack,
            rtypes,
            ops,
            HASH_PSD_PER_BYTE_COST,
            HASH_PSD_BASE_COST,
        ),
        Instruction::HashPSD8(ops) => size_cost(
            stack,
            rtypes,
            ops,
            HASH_PSD_PER_BYTE_COST,
            HASH_PSD_BASE_COST,
        ),
        Instruction::HashSha3_256(ops) => size_cost(
            stack,
            rtypes,
            ops,
            HASH_PER_BYTE_COST,
            HASH_BASE_COST,
        ),
        Instruction::HashSha3_384(ops) => size_cost(
            stack,
            rtypes,
            ops,
            HASH_PER_BYTE_COST,
            HASH_BASE_COST,
        ),
        Instruction::HashSha3_512(ops) => size_cost(
            stack,
            rtypes,
            ops,
            HASH_PER_BYTE_COST,
            HASH_BASE_COST,
        ),
        Instruction::Inv(_) => Ok(1_000),
        Instruction::IsEq(_) => Ok(FIXED_COMMAND_COST),
        Instruction::IsNeq(_) => Ok(FIXED_COMMAND_COST),
        Instruction::LessThan(_) => Ok(FIXED_COMMAND_COST),
        Instruction::LessThanOrEqual(_) => Ok(FIXED_COMMAND_COST),
        Instruction::Modulo(_) => Ok(FIXED_COMMAND_COST),
        Instruction::Mul(ops) => {
            if ops.len() == 2 {
                mul_cost(stack, rtypes, &ops[0])
            } else {
                Err(VmError::ArityError)
            }
        },
        Instruction::MulWrapped(_) => Ok(FIXED_COMMAND_COST),
        Instruction::Nand(_) => Ok(FIXED_COMMAND_COST),
        Instruction::Neg(_) => Ok(FIXED_COMMAND_COST),
        Instruction::Nor(_) => Ok(FIXED_COMMAND_COST),
        Instruction::Not(_) => Ok(FIXED_COMMAND_COST),
        Instruction::Or(_) => Ok(FIXED_COMMAND_COST),
        Instruction::Pow(ops) => {
            if ops.len() == 0 {
                Err(VmError::ArityError)
            } else {
                field_sensitive_cost(stack, rtypes, &ops[0])
            }
        },
        Instruction::PowWrapped(_) => Ok(FIXED_COMMAND_COST),
        Instruction::Rem(_) => Ok(FIXED_COMMAND_COST),
        Instruction::RemWrapped(_) => Ok(FIXED_COMMAND_COST),
        Instruction::SignVerify(_) => Ok(HASH_PSD_BASE_COST),
        Instruction::Shl(_) => Ok(FIXED_COMMAND_COST),
        Instruction::ShlWrapped(_) => Ok(FIXED_COMMAND_COST),
        Instruction::Shr(_) => Ok(FIXED_COMMAND_COST),
        Instruction::ShrWrapped(_) => Ok(FIXED_COMMAND_COST),
        Instruction::Square(_) => Ok(FIXED_COMMAND_COST),
        Instruction::SquareRoot(_) => Ok(2_500),
        Instruction::Sub(_) => Ok(FIXED_COMMAND_COST),
        Instruction::SubWrapped(_) => Ok(FIXED_COMMAND_COST),
        Instruction::Ternary(_) => Ok(FIXED_COMMAND_COST),
        Instruction::Xor(_) => Ok(FIXED_COMMAND_COST),
    }
}

/// The microcredit cost of one finalize command. Mapping reads are priced by
/// key size, mapping writes by key plus value size at a higher rate; the
/// seeded randomness command carries a large fixed cost; position labels,
/// branches and `await` are small fixed costs.
pub open spec fn spec_command_cost(
    structs: Seq<StructDef>,
    rtypes: Seq<FinalizeType>,
    cmd: Command,
) -> Result<u64, VmError> {
    match cmd {
        Command::Instruction(inst) => spec_instruction_cost(structs, rtypes, inst),
        Command::Await(_) => Ok(FIXED_COMMAND_COST),
        Command::Contains(c) => match spec_operand_size(structs, rtypes, c.key) {
            Err(e) => Err(e),
            Ok(s) => Ok(
                spec_sat_add(spec_sat_mul(s, GET_COMMAND_PER_BYTE_COST), GET_COMMAND_BASE_COST),
            ),
        },
        Command::Get(g) => match spec_operand_size(structs, rtypes, g.key) {
            Err(e) => Err(e),
            Ok(s) => Ok(
                spec_sat_add(spec_sat_mul(s, GET_COMMAND_PER_BYTE_COST), GET_COMMAND_BASE_COST),
            ),
        },
        Command::GetOrUse(g) => match spec_operand_size(structs, rtypes, g.key) {
            Err(e) => Err(e),
            Ok(s) => Ok(
                spec_sat_add(spec_sat_mul(s, SET_COMMAND_PER_BYTE_COST), SET_COMMAND_BASE_COST),
            ),
        },
        Command::RandChaCha(_) => Ok(RAND_CHACHA_COST),
        Command::Remove(_) => Ok(GET_COMMAND_BASE_COST),
        Command::SetValue { mapping: _, key, value } => match spec_operand_size(
            structs,
            rtypes,
            key,
        ) {
            Err(e) => Err(e),
            Ok(ks) => match spec_operand_size(structs, rtypes, value) {
                Err(e) => Err(e),
                Ok(vs) => Ok(
                    spec_sat_add(
                        spec_sat_mul(spec_sat_add(ks, vs), SET_COMMAND_PER_BYTE_COST),
                        SET_COMMAND_BASE_COST,
                    ),
                ),
            },
        },
        Command::BranchEq(_) => Ok(FIXED_COMMAND_COST),
        Command::BranchNeq(_) => Ok(FIXED_COMMAND_COST),
        Command::Position(_) => Ok(POSITION_COST),
    }
}

/// Prices one finalize command.
fn command_cost(stack: &Program, rtypes: &Vec<FinalizeType>, cmd: &Command) -> (r: Result<
    u64,
    VmError,
>)
    ensures
        r == spec_command_cost(stack.structs@, rtypes@, *cmd),
{
    match cmd {
        Command::Instruction(inst) => instruction_cost(stack, rtypes, inst),
        Command::Await(_) => Ok(FIXED_COMMAND_COST),
        Command::Contains(c) => match operand_size_in_bytes(stack, rtypes, &c.key) {
            Err(e) => Err(e),
            Ok(s) => Ok(sat_add(sat_mul(s, GET_COMMAND_PER_BYTE_COST), GET_COMMAND_BASE_COST)),
        },
        Command::Get(g) => match operand_size_in_bytes(stack, rtypes, &g.key) {
            Err(e) => Err(e),
            Ok(s) => Ok(sat_add(sat_mul(s, GET_COMMAND_PER_BYTE_COST), GET_COMMAND_BASE_COST)),
        },
        Command::GetOrUse(g) => match operand_size_in_bytes(stack, rtypes, &g.key) {
            Err(e) => Err(e),
            Ok(s) => Ok(sat_add(sat_mul(s, SET_COMMAND_PER_BYTE_COST), SET_COMMAND_BASE_COST)),
        },
        Command::RandChaCha(_) => Ok(RAND_CHACHA_COST),
        Command::Remove(_) => Ok(GET_COMMAND_BASE_COST),
        Command::SetValue { mapping: _, key, value } => {
            match operand_size_in_bytes(stack, rtypes, key) {
                Err(e) => Err(e),
                Ok(ks) => match operand_size_in_bytes(stack, rtypes, value) {
                    Err(e) => Err(e),
                    Ok(vs) => Ok(
                        sat_add(
                            sat_mul(sat_add(ks, vs), SET_COMMAND_PER_BYTE_COST),
                            SET_COMMAND_BASE_COST,
                        ),
                    ),
                },
            }
        },
        Command::BranchEq(_) => Ok(FIXED_COMMAND_COST),
        Command::BranchNeq(_) => Ok(FIXED_COMMAND_COST),
        Command::Position(_) => Ok(POSITION_COST),
    }
}

/// The total cost of the first `i` commands: the first error wins, and the
/// running sum fails on overflow rather than wrapping or clamping.
pub open spec fn spec_cost_up_to(
    structs: Seq<StructDef>,
    rtypes: Seq<FinalizeType>,
    cmds: Seq<Command>,
    i: int,
) -> Result<u64, VmError>
    decreases i,
{
    if i <= 0 {
        Ok(0)
    } else {
        match spec_cost_up_to(structs, rtypes, cmds, i - 1) {
            Err(e) => Err(e),
            Ok(acc) => match spec_command_cost(structs, rtypes, cmds[i - 1]) {
                Err(e) => Err(e),
                Ok(c) => {
                    if acc + c > u64::MAX {
                        Err(VmError::OverflowError)
                    } else {
                        Ok((acc + c) as u64)
                    }
                },
            },
        }
    }
}

/// The total microcredit cost of a finalize routine.
pub open spec fn spec_cost_in_microcredits(
    structs: Seq<StructDef>,
    rtypes: Seq<FinalizeType>,
    cmds: Seq<Command>,
) -> Result<u64, VmError> {
    spec_cost_up_to(structs, rtypes, cmds, cmds.len() as int)
}

/// Once the accumulation fails, every longer prefix fails the same way.
proof fn lemma_cost_up_to_err(
    structs: Seq<StructDef>,
    rtypes: Seq<FinalizeType>,
    cmds: Seq<Command>,
    i: int,
    k: int,
    e: VmError,
)
    requires
        0 <= i <= k,
        spec_cost_up_to(structs, rtypes, cmds, i) == Err::<u64, VmError>(e),
    ensures
        spec_cost_up_to(structs, rtypes, cmds, k) == Err::<u64, VmError>(e),
    decreases k,
{
    if k > i {
        lemma_cost_up_to_err(structs, rtypes, cmds, i, k - 1, e);
    }
}

/// The minimum number of microcredits required to run the finalize routine:
/// the sum of its commands' costs in declared order, failing with the first
/// command's error or with `OverflowError` if the sum leaves `u64`.
#[verifier::loop_isolation(false)]
pub fn cost_in_microcredits(stack: &Program, finalize: &Finalize) -> (r: Result<u64, VmError>)
    ensures
        r == spec_cost_in_microcredits(
            stack.structs@,
            finalize.register_types@,
            finalize.commands@,
        ),
{
    let n = finalize.commands.len();
    let mut acc: u64 = 0;
    let mut i: usize = 0;
    while i < n
        invariant
            0 <= i <= n,
            spec_cost_up_to(
                stack.structs@,
                finalize.register_types@,
                finalize.commands@,
                i as int,
            ) == Ok::<u64, VmError>(acc),
        decreases n - i,
    {
        let c = match command_cost(stack, &finalize.register_types, &finalize.commands[i]) {
            Ok(c) => c,
            Err(e) => {
                proof {
                    lemma_cost_up_to_err(
                        stack.structs@,
                        finalize.register_types@,
                        finalize.commands@,
                        i as int + 1,
                        n as int,
                        e,
                    );
                }
                return Err(e);
            },
        };
        if acc > u64::MAX - c {
            proof {
                lemma_cost_up_to_err(
                    stack.structs@,
                    finalize.register_types@,
                    finalize.commands@,
                    i as int + 1,
                    n as int,
                    VmError::OverflowError,
                );
            }
            return Err(VmError::OverflowError);
        }
        acc = acc + c;
        i = i + 1;
    }
    Ok(acc)
}

/// The number of position labels among the first `i` commands.
pub open spec fn spec_count_positions(cmds: Seq<Command>, i: int) -> nat
    decreases i,
{
    if i <= 0 {
        0
    } else {
        spec_count_positions(cmds, i - 1) + if cmds[i - 1] is Position {
            1nat
        } else {
            0nat
        }
    }
}

/// The number of branches among the first `i` commands.
pub open spec fn spec_count_branches(cmds: Seq<Command>, i: int) -> nat
    decreases i,
{
    if i <= 0 {
        0
    } else {
        spec_count_branches(cmds, i - 1) + if cmds[i - 1] is BranchEq || cmds[i - 1] is BranchNeq {
            1nat
        } else {
            0nat
        }
    }
}

/// Counting over a longer prefix never counts less.
proof fn lemma_counts_monotone(cmds: Seq<Command>, i: int, k: int)
    requires
        0 <= i <= k,
    ensures
        spec_count_positions(cmds, i) <= spec_count_positions(cmds, k),
        spec_count_branches(cmds, i) <= spec_count_branches(cmds, k),
    decreases k,
{
    if k > i {
        lemma_counts_monotone(cmds, i, k - 1);
    }
}

/// Prefix step of [`lemma_control_only_routine_cost`].
proof fn lemma_control_only_prefix(
    structs: Seq<StructDef>,
    rtypes: Seq<FinalizeType>,
    cmds: Seq<Command>,
    i: int,
)
    requires
        0 <= i <= cmds.len(),
        forall|j: int|
            0 <= j < cmds.len() ==> {
                ||| (#[trigger] cmds[j]) is Position
                ||| cmds[j] is BranchEq
                ||| cmds[j] is BranchNeq
            },
        100 * spec_count_positions(cmds, cmds.len() as int) + 500 * spec_count_branches(
            cmds,
            cmds.len() as int,
        ) <= u64::MAX,
    ensures
        spec_cost_up_to(structs, rtypes, cmds, i) == Ok::<u64, VmError>(
            (100 * spec_count_positions(cmds, i) + 500 * spec_count_branches(cmds, i)) as u64,
        ),
    decreases i,
{
    if i > 0 {
        lemma_control_only_prefix(structs, rtypes, cmds, i - 1);
        lemma_counts_monotone(cmds, i, cmds.len() as int);
    }
}

/// A routine of control commands alone is priced by count: each position
/// label costs 100 microcredits and each branch costs 500, and nothing else
/// contributes.
pub proof fn lemma_control_only_routine_cost(
    structs: Seq<StructDef>,
    rtypes: Seq<FinalizeType>,
    cmds: Seq<Command>,
)
    requires
        forall|j: int|
            0 <= j < cmds.len() ==> {
                ||| (#[trigger] cmds[j]) is Position
                ||| cmds[j] is BranchEq
                ||| cmds[j] is BranchNeq
            },
        100 * spec_count_positions(cmds, cmds.len() as int) + 500 * spec_count_branches(
            cmds,
            cmds.len() as int,
        ) <= u64::MAX,
    ensures
        spec_cost_in_microcredits(structs, rtypes, cmds) == Ok::<u64, VmError>(
            (100 * spec_count_positions(cmds, cmds.len() as int) + 500 * spec_count_branches(
                cmds,
                cmds.len() as int,
            )) as u64,
        ),
{
    lemma_control_only_prefix(structs, rtypes, cmds, cmds.len() as int);
}

/// An opcode that finalize logic never permits (`call`, `async`, or the
/// hash-many family) fails the whole routine with
/// `UnsupportedInFinalizeError`, wherever it stands, as long as no earlier
/// command failed first.
pub proof fn lemma_unsupported_opcode_rejected(
    structs: Seq<StructDef>,
    rtypes: Seq<FinalizeType>,
    cmds: Seq<Command>,
    i: int,
)
    requires
        0 <= i < cmds.len(),
        spec_cost_up_to(structs, rtypes, cmds, i) is Ok,
        ({
            ||| cmds[i] matches Command::Instruction(Instruction::Call(_))
            ||| cmds[i] matches Command::Instruction(Instruction::Async(_))
            ||| cmds[i] matches Command::Instruction(Instruction::HashManyPSD2(_))
            ||| cmds[i] matches Command::Instruction(Instruction::HashManyPSD4(_))
            ||| cmds[i] matches Command::Instruction(Instruction::HashManyPSD8(_))
        }),
    ensures
        spec_cost_in_microcredits(structs, rtypes, cmds) == Err::<u64, VmError>(
            VmError::UnsupportedInFinalizeError,
        ),
{
    assert(spec_cost_up_to(structs, rtypes, cmds, i + 1) == Err::<u64, VmError>(
        VmError::UnsupportedInFinalizeError,
    ));
    lemma_cost_up_to_err(
        structs,
        rtypes,
        cmds,
        i + 1,
        cmds.len() as int,
        VmError::UnsupportedInFinalizeError,
    );
}

/// The cost formula `base + bytes * per_byte` under saturating arithmetic is
/// monotonically non-decreasing in the byte count.
pub proof fn lemma_byte_cost_monotone(s1: u64, s2: u64, per_byte: u64, base: u64)
    requires
        s1 <= s2,
    ensures
        spec_sat_add(base, spec_sat_mul(s1, per_byte)) <= spec_sat_add(
            base,
            spec_sat_mul(s2, per_byte),
        ),
        spec_sat_add(spec_sat_mul(s1, per_byte), base) <= spec_sat_add(
            spec_sat_mul(s2, per_byte),
            base,
        ),
{
    assert(s1 * per_byte <= s2 * per_byte) by (nonlinear_arith)
        requires
            s1 <= s2,
    {};
}

/// The cost of a hash or commit command is monotonically non-decreasing in
/// its operands' total byte size, holding the family's base and per-byte
/// rates equal.
pub proof fn lemma_hash_cost_monotone(
    structs1: Seq<StructDef>,
    rtypes1: Seq<FinalizeType>,
    ops1: Seq<Operand>,
    structs2: Seq<StructDef>,
    rtypes2: Seq<FinalizeType>,
    ops2: Seq<Operand>,
    per_byte: u64,
    base: u64,
    s1: u64,
    s2: u64,
)
    requires
        spec_operands_size(structs1, rtypes1, ops1, ops1.len() as int) == Ok::<u64, VmError>(s1),
        spec_operands_size(structs2, rtypes2, ops2, ops2.len() as int) == Ok::<u64, VmError>(s2),
        s1 <= s2,
    ensures
        ({
            let c1 = spec_size_cost(structs1, rtypes1, ops1, per_byte, base);
            let c2 = spec_size_cost(structs2, rtypes2, ops2, per_byte, base);
            c1 is Ok && c2 is Ok && c1->Ok_0 <= c2->Ok_0
        }),
{
    lemma_byte_cost_monotone(s1, s2, per_byte, base);
}

/// The cost of the mapping read commands (`get`, `contains`) is
/// monotonically non-decreasing in the resolved key byte size, holding all
/// else equal.
pub proof fn lemma_mapping_read_cost_monotone(
    structs1: Seq<StructDef>,
    rtypes1: Seq<FinalizeType>,
    g1: crate::command::Get,
    structs2: Seq<StructDef>,
    rtypes2: Seq<FinalizeType>,
    g2: crate::command::Get,
    s1: u64,
    s2: u64,
)
    requires
        spec_operand_size(structs1, rtypes1, g1.key) == Ok::<u64, VmError>(s1),
        spec_operand_size(structs2, rtypes2, g2.key) == Ok::<u64, VmError>(s2),
        s1 <= s2,
    ensures
        ({
            let c1 = spec_command_cost(structs1, rtypes1, Command::Get(g1));
            let c2 = spec_command_cost(structs2, rtypes2, Command::Get(g2));
            c1 is Ok && c2 is Ok && c1->Ok_0 <= c2->Ok_0
        }),
{
    lemma_byte_cost_monotone(s1, s2, GET_COMMAND_PER_BYTE_COST, GET_COMMAND_BASE_COST);
}

/// The cost of `get.or_use` is monotonically non-decreasing in the resolved
/// key byte size, holding all else equal.
pub proof fn lemma_get_or_use_cost_monotone(
    structs1: Seq<StructDef>,
    rtypes1: Seq<FinalizeType>,
    g1: crate::command::GetOrUse,
    structs2: Seq<StructDef>,
    rtypes2: Seq<FinalizeType>,
    g2: crate::command::GetOrUse,
    s1: u64,
    s2: u64,
)
    requires
        spec_operand_size(structs1, rtypes1, g1.key) == Ok::<u64, VmError>(s1),
        spec_operand_size(structs2, rtypes2, g2.key) == Ok::<u64, VmError>(s2),
        s1 <= s2,
    ensures
        ({
            let c1 = spec_command_cost(structs1, rtypes1, Command::GetOrUse(g1));
            let c2 = spec_command_cost(structs2, rtypes2, Command::GetOrUse(g2));
            c1 is Ok && c2 is Ok && c1->Ok_0 <= c2->Ok_0
        }),
{
    lemma_byte_cost_monotone(s1, s2, SET_COMMAND_PER_BYTE_COST, SET_COMMAND_BASE_COST);
}

/// The cost of `set` is monotonically non-decreasing in the resolved key and
/// value byte sizes, holding all else equal.
pub proof fn lemma_set_cost_monotone(
    structs1: Seq<StructDef>,
    rtypes1: Seq<FinalizeType>,
    mapping1: crate::command::CallOperator,
    key1: Operand,
    value1: Operand,
    structs2: Seq<StructDef>,
    rtypes2: Seq<FinalizeType>,
    mapping2: crate::command::CallOperator,
    key2: Operand,
    value2: Operand,
    ks1: u64,
    vs1: u64,
    ks2: u64,
    vs2: u64,
)
    requires
        spec_operand_size(structs1, rtypes1, key1) == Ok::<u64, VmError>(ks1),
        spec_operand_size(structs1, rtypes1, value1) == Ok::<u64, VmError>(vs1),
        spec_operand_size(structs2, rtypes2, key2) == Ok::<u64, VmError>(ks2),
        spec_operand_size(structs2, rtypes2, value2) == Ok::<u64, VmError>(vs2),
        ks1 <= ks2,
        vs1 <= vs2,
    ensures
        ({
            let c1 = spec_command_cost(
                structs1,
                rtypes1,
                Command::SetValue { mapping: mapping1, key: key1, value: value1 },
            );
            let c2 = spec_command_cost(
                structs2,
                rtypes2,
                Command::SetValue { mapping: mapping2, key: key2, value: value2 },
            );
            c1 is Ok && c2 is Ok && c1->Ok_0 <= c2->Ok_0
        }),
{
    lemma_byte_cost_monotone(
        spec_sat_add(ks1, vs1),
        spec_sat_add(ks2, vs2),
        SET_COMMAND_PER_BYTE_COST,
        SET_COMMAND_BASE_COST,
    );
}

/// The cost of a cast to a struct or array destination is monotonically
/// non-decreasing in the destination type's byte size.
pub proof fn lemma_cast_cost_monotone(
    structs1: Seq<StructDef>,
    t1: PlaintextType,
    structs2: Seq<StructDef>,
    t2: PlaintextType,
    n1: nat,
    n2: nat,
)
    requires
        !(t1 is Literal),
        !(t2 is Literal),
        spec_plaintext_size(structs1, structs1.len() as int, t1) == Some(n1),
        spec_plaintext_size(structs2, structs2.len() as int, t2) == Some(n2),
        n1 <= n2,
    ensures
        ({
            let c1 = spec_cast_cost(structs1, CastType::Plaintext(t1));
            let c2 = spec_cast_cost(structs2, CastType::Plaintext(t2));
            c1 is Ok && c2 is Ok && c1->Ok_0 <= c2->Ok_0
        }),
{
    lemma_byte_cost_monotone(sat64(n1), sat64(n2), CAST_PER_BYTE_COST, CAST_COMMAND_BASE_COST);
}

} // verus!
