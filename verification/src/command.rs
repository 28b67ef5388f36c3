//! The finalize command set: operands, registers, literal values, the
//! mapping commands (`get`, `get.or_use`, `set`, `remove`, `contains`),
//! control commands, and the instruction opcodes that may appear inside
//! finalize logic.

use vstd::prelude::*;

use crate::ident::{Identifier, Locator, LocatorV, ProgramId, ProgramIdV};
use crate::types::{LiteralKind, PlaintextType};
use crate::util::clone_bytes;

verus! {

/// A literal value: its kind and its canonical little-endian payload bytes.
#[derive(Debug, PartialEq, Eq, Hash)]
pub struct LiteralValue {
    /// The literal kind.
    pub kind: LiteralKind,
    /// The payload bytes.
    pub data: Vec<u8>,
}

/// The mathematical value of a [`LiteralValue`].
#[verifier::ext_equal]
pub ghost struct LiteralValueV {
    /// The literal kind.
    pub kind: LiteralKind,
    /// The payload bytes.
    pub data: Seq<u8>,
}

impl View for LiteralValue {
    type V = LiteralValueV;

    open spec fn view(&self) -> LiteralValueV {
        LiteralValueV { kind: self.kind, data: self.data@ }
    }
}

impl Clone for LiteralValue {
    fn clone(&self) -> (r: Self)
        ensures
            r@ == self@,
    {
        LiteralValue { kind: self.kind, data: clone_bytes(&self.data) }
    }
}

impl LiteralValue {
    /// A literal payload has its kind's fixed width; a string payload is
    /// variable up to the maximum string size.
    pub open spec fn wf(&self) -> bool {
        spec_literal_value_wf(self@)
    }
}

/// Well-formedness of a literal value at the view level.
pub open spec fn spec_literal_value_wf(v: LiteralValueV) -> bool {
    if v.kind is String {
        v.data.len() <= crate::types::spec_literal_size(LiteralKind::String)
    } else {
        v.data.len() == crate::types::spec_literal_size(v.kind)
    }
}

/// One step of a register access path: a struct member or an array index.
#[derive(Debug, PartialEq, Eq, Hash)]
pub enum Access {
    /// Access a named struct member.
    Member(Identifier),
    /// Access a fixed array position.
    Index(u32),
}

/// The mathematical value of an [`Access`].
#[verifier::ext_equal]
pub ghost enum AccessV {
    Member(Seq<u8>),
    Index(u32),
}

impl View for Access {
    type V = AccessV;

    open spec fn view(&self) -> AccessV {
        match self {
            Access::Member(id) => AccessV::Member(id@),
            Access::Index(i) => AccessV::Index(*i),
        }
    }
}

impl Clone for Access {
    fn clone(&self) -> (r: Self)
        ensures
            r@ == self@,
    {
        match self {
            Access::Member(id) => Access::Member(id.clone()),
            Access::Index(i) => Access::Index(*i),
        }
    }
}

impl Access {
    /// Whether a member name is well-formed.
    pub open spec fn wf(&self) -> bool {
        match self {
            Access::Member(id) => id.wf(),
            Access::Index(_) => true,
        }
    }
}

/// A register reference: a plain locator, or a locator followed by an
/// access path into the value it holds.
#[derive(Debug, PartialEq, Eq, Hash)]
pub enum Register {
    /// The register at the given position.
    Locator(u64),
    /// An access path into the register at the given position.
    Access(u64, Vec<Access>),
}

/// The mathematical value of a [`Register`].
#[verifier::ext_equal]
pub ghost enum RegisterV {
    Locator(u64),
    Access(u64, Seq<AccessV>),
}

impl View for Register {
    type V = RegisterV;

    open spec fn view(&self) -> RegisterV {
        match self {
            Register::Locator(loc) => RegisterV::Locator(*loc),
            Register::Access(loc, path) => RegisterV::Access(
                *loc,
                path@.map_values(|a: Access| a@),
            ),
        }
    }
}

/// Copies an access path.
fn clone_accesses(path: &Vec<Access>) -> (r: Vec<Access>)
    ensures
        r@.map_values(|a: Access| a@) == path@.map_values(|a: Access| a@),
{
    let mut out: Vec<Access> = Vec::new();
    let n = path.len();
    let mut i: usize = 0;
    while i < n
        invariant
            0 <= i <= n,
            n == path@.len(),
            out@.len() == i,
            forall|j: int| 0 <= j < i ==> (#[trigger] out@[j])@ == path@[j]@,
        decreases n - i,
    {
        out.push(path[i].clone());
        i = i + 1;
    }
    proof {
        assert(out@.map_values(|a: Access| a@) =~= path@.map_values(|a: Access| a@));
    }
    out
}

impl Clone for Register {
    fn clone(&self) -> (r: Self)
        ensures
            r@ == self@,
    {
        match self {
            Register::Locator(loc) => Register::Locator(*loc),
            Register::Access(loc, path) => Register::Access(*loc, clone_accesses(path)),
        }
    }
}

impl Register {
    /// Whether every member name along the path is well-formed, and the path
    /// short enough for its encoded count.
    pub open spec fn wf(&self) -> bool {
        match self {
            Register::Locator(_) => true,
            Register::Access(_, path) => {
                &&& path@.len() <= u16::MAX
                &&& forall|i: int| 0 <= i < path@.len() ==> (#[trigger] path@[i]).wf()
            },
        }
    }
}

/// An instruction or command operand.
#[derive(Debug, PartialEq, Eq, Hash)]
pub enum Operand {
    /// An immediate literal.
    Literal(LiteralValue),
    /// A register reference.
    Register(Register),
    /// An immediate program identity (an address literal).
    ProgramID(ProgramId),
    /// The signer of the transaction.
    Signer,
    /// The immediate caller.
    Caller,
    /// The current block height.
    BlockHeight,
    /// The network identifier.
    NetworkID,
}

/// The mathematical value of an [`Operand`].
#[verifier::ext_equal]
pub ghost enum OperandV {
    Literal(LiteralValueV),
    Register(RegisterV),
    ProgramID(ProgramIdV),
    Signer,
    Caller,
    BlockHeight,
    NetworkID,
}

impl View for Operand {
    type V = OperandV;

    open spec fn view(&self) -> OperandV {
        match self {
            Operand::Literal(lit) => OperandV::Literal(lit@),
            Operand::Register(reg) => OperandV::Register(reg@),
            Operand::ProgramID(pid) => OperandV::ProgramID(pid@),
            Operand::Signer => OperandV::Signer,
            Operand::Caller => OperandV::Caller,
            Operand::BlockHeight => OperandV::BlockHeight,
            Operand::NetworkID => OperandV::NetworkID,
        }
    }
}

impl Clone for Operand {
    fn clone(&self) -> (r: Self)
        ensures
            r@ == self@,
    {
        match self {
            Operand::Literal(lit) => Operand::Literal(lit.clone()),
            Operand::Register(reg) => Operand::Register(reg.clone()),
            Operand::ProgramID(pid) => Operand::ProgramID(pid.clone()),
            Operand::Signer => Operand::Signer,
            Operand::Caller => Operand::Caller,
            Operand::BlockHeight => Operand::BlockHeight,
            Operand::NetworkID => Operand::NetworkID,
        }
    }
}

impl Operand {
    /// Whether every name inside the operand is well-formed.
    pub open spec fn wf(&self) -> bool {
        match self {
            Operand::Literal(lit) => lit.wf(),
            Operand::Register(reg) => reg.wf(),
            Operand::ProgramID(pid) => pid.wf(),
            _ => true,
        }
    }
}

/// A mapping reference inside a command: either a fully qualified locator
/// into another program, or a bare mapping name resolved against the
/// current program.
#[derive(Debug, PartialEq, Eq, Hash)]
pub enum CallOperator {
    /// A qualified `program.network/resource` locator.
    Locator(Locator),
    /// A bare resource name in the current program.
    Resource(Identifier),
}

/// The mathematical value of a [`CallOperator`].
#[verifier::ext_equal]
pub ghost enum CallOperatorV {
    Locator(LocatorV),
    Resource(Seq<u8>),
}

impl View for CallOperator {
    type V = CallOperatorV;

    open spec fn view(&self) -> CallOperatorV {
        match self {
            CallOperator::Locator(loc) => CallOperatorV::Locator(loc@),
            CallOperator::Resource(id) => CallOperatorV::Resource(id@),
        }
    }
}

impl Clone for CallOperator {
    fn clone(&self) -> (r: Self)
        ensures
            r@ == self@,
    {
        match self {
            CallOperator::Locator(loc) => CallOperator::Locator(loc.clone()),
            CallOperator::Resource(id) => CallOperator::Resource(id.clone()),
        }
    }
}

impl CallOperator {
    /// Whether every name inside is well-formed.
    pub open spec fn wf(&self) -> bool {
        match self {
            CallOperator::Locator(loc) => loc.wf(),
            CallOperator::Resource(id) => id.wf(),
        }
    }
}

/// The opcode of an instruction or command, grouped by family.
#[derive(Clone, Copy, Debug, PartialEq, Eq)]
pub enum Opcode {
    /// An assertion opcode.
    Assert(&'static str),
    /// A call opcode.
    Call,
    /// A cast opcode.
    Cast(&'static str),
    /// A finalize command opcode.
    Command(&'static str),
    /// A commitment opcode.
    Commit(&'static str),
    /// A hash opcode.
    Hash(&'static str),
    /// An is-comparison opcode.
    Is(&'static str),
    /// A literal (arithmetic, bitwise or comparison) opcode.
    Literal(&'static str),
    /// The signature-verification opcode.
    Sign,
}

/// The destination type of a cast.
#[derive(Debug, PartialEq, Eq)]
pub enum CastType {
    /// Cast a group element to its x-coordinate.
    GroupXCoordinate,
    /// Cast a group element to its y-coordinate.
    GroupYCoordinate,
    /// Cast to a plaintext type.
    Plaintext(PlaintextType),
    /// Cast to a record of the named record type.
    Record(Identifier),
    /// Cast to a record of a record type in another program.
    ExternalRecord(Locator),
}

/// A `get` command, e.g. `get accounts[r0] into r1;`.
///
/// Reads the value stored under the key in the mapping and stores it into
/// the destination register.
#[derive(Debug, PartialEq, Eq, Hash)]
pub struct Get {
    /// The mapping.
    pub mapping: CallOperator,
    /// The key whose value is read.
    pub key: Operand,
    /// The destination register.
    pub destination: Register,
}

/// The mathematical value of a [`Get`].
#[verifier::ext_equal]
pub ghost struct GetV {
    /// The mapping.
    pub mapping: CallOperatorV,
    /// The key whose value is read.
    pub key: OperandV,
    /// The destination register.
    pub destination: RegisterV,
}

impl View for Get {
    type V = GetV;

    open spec fn view(&self) -> GetV {
        GetV { mapping: self.mapping@, key: self.key@, destination: self.destination@ }
    }
}

impl Clone for Get {
    fn clone(&self) -> (r: Self)
        ensures
            r@ == self@,
    {
        Get {
            mapping: self.mapping.clone(),
            key: self.key.clone(),
            destination: self.destination.clone(),
        }
    }
}

impl Get {
    /// Whether every name inside the command is well-formed.
    pub open spec fn wf(&self) -> bool {
        self.mapping.wf() && self.key.wf() && self.destination.wf()
    }

    /// Returns the opcode.
    pub fn opcode() -> (r: Opcode)
        ensures
            r matches Opcode::Command(s) && s@ == "get"@,
    {
        Opcode::Command("get")
    }

    /// Returns the operands in the operation: the key alone.
    pub fn operands(&self) -> (r: Vec<Operand>)
        ensures
            r@.len() == 1,
            r@[0]@ == self.key@,
    {
        let mut out: Vec<Operand> = Vec::new();
        out.push(self.key.clone());
        out
    }

    /// Returns the mapping reference.
    pub fn mapping(&self) -> (r: &CallOperator)
        ensures
            *r == self.mapping,
    {
        &self.mapping
    }

    /// Returns the operand containing the key.
    pub fn key(&self) -> (r: &Operand)
        ensures
            *r == self.key,
    {
        &self.key
    }

    /// Returns the destination register.
    pub fn destination(&self) -> (r: &Register)
        ensures
            *r == self.destination,
    {
        &self.destination
    }
}

/// A `contains` command: whether the key is present in the mapping.
#[derive(Debug, PartialEq, Eq)]
pub struct Contains {
    /// The mapping.
    pub mapping: CallOperator,
    /// The key probed for.
    pub key: Operand,
    /// The destination register for the boolean result.
    pub destination: Register,
}

/// A `get.or_use` command: the stored value, or the default when absent.
#[derive(Debug, PartialEq, Eq)]
pub struct GetOrUse {
    /// The mapping.
    pub mapping: CallOperator,
    /// The key whose value is read.
    pub key: Operand,
    /// The value used when the key is absent.
    pub default: Operand,
    /// The destination register.
    pub destination: Register,
}

/// A `remove` command: deletes the key from the mapping.
#[derive(Debug, PartialEq, Eq)]
pub struct Remove {
    /// The mapping.
    pub mapping: CallOperator,
    /// The key removed.
    pub key: Operand,
}

/// A `rand.chacha` command: deterministic seeded randomness.
#[derive(Debug, PartialEq, Eq)]
pub struct RandChaCha {
    /// Extra seed operands.
    pub operands: Vec<Operand>,
    /// The destination register.
    pub destination: Register,
    /// The literal kind of the drawn value.
    pub destination_type: LiteralKind,
}

/// A conditional branch to a position label.
#[derive(Debug, PartialEq, Eq)]
pub struct Branch {
    /// The first compared operand.
    pub first: Operand,
    /// The second compared operand.
    pub second: Operand,
    /// The position label jumped to.
    pub position: Identifier,
}

/// An instruction that may appear inside finalize logic, with its operands.
/// The set is closed: pricing and execution reject anything else by
/// construction, and the three `HashMany` variants plus `Async` and `Call`
/// are rejected by the cost engine itself.
#[derive(Debug, PartialEq, Eq)]
pub enum Instruction {
    Abs(Vec<Operand>),
    AbsWrapped(Vec<Operand>),
    Add(Vec<Operand>),
    AddWrapped(Vec<Operand>),
    And(Vec<Operand>),
    AssertEq(Vec<Operand>),
    AssertNeq(Vec<Operand>),
    Async(Vec<Operand>),
    Call(Vec<Operand>),
    Cast(CastType, Vec<Operand>),
    CastLossy(CastType, Vec<Operand>),
    CommitBHP256(Vec<Operand>),
    CommitBHP512(Vec<Operand>),
    CommitBHP768(Vec<Operand>),
    CommitBHP1024(Vec<Operand>),
    CommitPED64(Vec<Operand>),
    CommitPED128(Vec<Operand>),
    Div(Vec<Operand>),
    DivWrapped(Vec<Operand>),
    Double(Vec<Operand>),
    GreaterThan(Vec<Operand>),
    GreaterThanOrEqual(Vec<Operand>),
    HashBHP256(Vec<Operand>),
    HashBHP512(Vec<Operand>),
    HashBHP768(Vec<Operand>),
    HashBHP1024(Vec<Operand>),
    HashKeccak256(Vec<Operand>),
    HashKeccak384(Vec<Operand>),
    HashKeccak512(Vec<Operand>),
    HashManyPSD2(Vec<Operand>),
    HashManyPSD4(Vec<Operand>),
    HashManyPSD8(Vec<Operand>),
    HashPED64(Vec<Operand>),
    HashPED128(Vec<Operand>),
    HashPSD2(Vec<Operand>),
    HashPSD4(Vec<Operand>),
    HashPSD8(Vec<Operand>),
    HashSha3_256(Vec<Operand>),
    HashSha3_384(Vec<Operand>),
    HashSha3_512(Vec<Operand>),
    Inv(Vec<Operand>),
    IsEq(Vec<Operand>),
    IsNeq(Vec<Operand>),
    LessThan(Vec<Operand>),
    LessThanOrEqual(Vec<Operand>),
    Modulo(Vec<Operand>),
    Mul(Vec<Operand>),
    MulWrapped(Vec<Operand>),
    Nand(Vec<Operand>),
    Neg(Vec<Operand>),
    Nor(Vec<Operand>),
    Not(Vec<Operand>),
    Or(Vec<Operand>),
    Pow(Vec<Operand>),
    PowWrapped(Vec<Operand>),
    Rem(Vec<Operand>),
    RemWrapped(Vec<Operand>),
    SignVerify(Vec<Operand>),
    Shl(Vec<Operand>),
    ShlWrapped(Vec<Operand>),
    Shr(Vec<Operand>),
    ShrWrapped(Vec<Operand>),
    Square(Vec<Operand>),
    SquareRoot(Vec<Operand>),
    Sub(Vec<Operand>),
    SubWrapped(Vec<Operand>),
    Ternary(Vec<Operand>),
    Xor(Vec<Operand>),
}

/// One command of a finalize routine.
#[derive(Debug, PartialEq, Eq)]
pub enum Command {
    /// An ordinary instruction.
    Instruction(Instruction),
    /// Await the future held in the register.
    Await(Register),
    /// Probe a mapping for a key.
    Contains(Contains),
    /// Read a mapping entry; absent keys are an error.
    Get(Get),
    /// Read a mapping entry; absent keys give the default.
    GetOrUse(GetOrUse),
    /// Draw deterministic seeded randomness.
    RandChaCha(RandChaCha),
    /// Delete a mapping entry.
    Remove(Remove),
    /// Write a mapping entry (the `set` opcode).
    SetValue { mapping: CallOperator, key: Operand, value: Operand },
    /// Branch to a position when the operands are equal.
    BranchEq(Branch),
    /// Branch to a position when the operands differ.
    BranchNeq(Branch),
    /// A position label.
    Position(Identifier),
}

} // verus!
