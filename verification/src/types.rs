//! The type layer of the virtual machine: literal kinds with their fixed
//! encoded widths, plaintext types (literal / struct / array), finalize types,
//! record entry types, and the struct registry of a program.

use vstd::prelude::*;

use crate::ident::{spec_ident_wf, Identifier, ProgramId, ProgramIdV};

verus! {

/// The primitive literal kinds. Each kind has a fixed encoded byte width,
/// shared by the cost model and the canonical codec.
#[derive(Clone, Copy, Debug, PartialEq, Eq, Hash, Structural)]
pub enum LiteralKind {
    /// An account address (one curve element).
    Address,
    /// A boolean.
    Boolean,
    /// A base-field element.
    Field,
    /// A group element (affine x-coordinate).
    Group,
    /// Signed integers.
    I8,
    I16,
    I32,
    I64,
    I128,
    /// Unsigned integers.
    U8,
    U16,
    U32,
    U64,
    U128,
    /// A scalar-field element.
    Scalar,
    /// A Schnorr signature (two scalars and a compute key).
    Signature,
    /// A string, priced and laid out at its maximum encoded size.
    String,
}

/// The fixed encoded byte width of each literal kind. Integers take their
/// bit width over eight; curve elements take one 32-byte element each.
pub open spec fn spec_literal_size(k: LiteralKind) -> u64 {
    match k {
        LiteralKind::Address => 32,
        LiteralKind::Boolean => 1,
        LiteralKind::Field => 32,
        LiteralKind::Group => 32,
        LiteralKind::I8 => 1,
        LiteralKind::I16 => 2,
        LiteralKind::I32 => 4,
        LiteralKind::I64 => 8,
        LiteralKind::I128 => 16,
        LiteralKind::U8 => 1,
        LiteralKind::U16 => 2,
        LiteralKind::U32 => 4,
        LiteralKind::U64 => 8,
        LiteralKind::U128 => 16,
        LiteralKind::Scalar => 32,
        LiteralKind::Signature => 126,
        LiteralKind::String => 1020,
    }
}

/// Executable table of [`spec_literal_size`].
pub fn literal_size_in_bytes(k: LiteralKind) -> (r: u64)
    ensures
        r == spec_literal_size(k),
{
    match k {
        LiteralKind::Address => 32,
        LiteralKind::Boolean => 1,
        LiteralKind::Field => 32,
        LiteralKind::Group => 32,
        LiteralKind::I8 => 1,
        LiteralKind::I16 => 2,
        LiteralKind::I32 => 4,
        LiteralKind::I64 => 8,
        LiteralKind::I128 => 16,
        LiteralKind::U8 => 1,
        LiteralKind::U16 => 2,
        LiteralKind::U32 => 4,
        LiteralKind::U64 => 8,
        LiteralKind::U128 => 16,
        LiteralKind::Scalar => 32,
        LiteralKind::Signature => 126,
        LiteralKind::String => 1020,
    }
}

/// The type of a plaintext value: a literal, a named struct, or a
/// fixed-length array of a nested element type.
#[derive(Debug, PartialEq, Eq, Hash)]
pub enum PlaintextType {
    /// A literal kind.
    Literal(LiteralKind),
    /// A reference to a struct declared in the enclosing program.
    Struct(Identifier),
    /// A fixed-length array: element type and length.
    Array(Box<PlaintextType>, u32),
}

/// The mathematical value of a [`PlaintextType`].
#[verifier::ext_equal]
pub ghost enum PlaintextTypeV {
    Literal(LiteralKind),
    Struct(Seq<u8>),
    Array(Box<PlaintextTypeV>, u32),
}

/// The mathematical value of a plaintext type.
pub open spec fn spec_view_plaintext_type(t: PlaintextType) -> PlaintextTypeV
    decreases t,
{
    match t {
        PlaintextType::Literal(k) => PlaintextTypeV::Literal(k),
        PlaintextType::Struct(id) => PlaintextTypeV::Struct(id@),
        PlaintextType::Array(elem, len) => PlaintextTypeV::Array(
            Box::new(spec_view_plaintext_type(*elem)),
            len,
        ),
    }
}

impl View for PlaintextType {
    type V = PlaintextTypeV;

    open spec fn view(&self) -> PlaintextTypeV {
        spec_view_plaintext_type(*self)
    }
}

impl Clone for PlaintextType {
    fn clone(&self) -> (r: Self)
        ensures
            r@ == self@,
        decreases self,
    {
        match self {
            PlaintextType::Literal(k) => PlaintextType::Literal(*k),
            PlaintextType::Struct(id) => PlaintextType::Struct(id.clone()),
            PlaintextType::Array(elem, len) => PlaintextType::Array(
                Box::new((&**elem).clone()),
                *len,
            ),
        }
    }
}

impl PlaintextType {
    /// Whether every identifier inside the type is a well-formed name.
    pub open spec fn wf(&self) -> bool
        decreases self,
    {
        match self {
            PlaintextType::Literal(_) => true,
            PlaintextType::Struct(id) => id.wf(),
            PlaintextType::Array(elem, _) => elem.wf(),
        }
    }

    /// Structural nesting depth of the type; struct references do not nest
    /// (the registry bounds their recursion separately).
    pub open spec fn height(&self) -> nat
        decreases self,
    {
        match self {
            PlaintextType::Array(elem, _) => elem.height() + 1,
            _ => 0,
        }
    }
}

/// The type of a finalize register or operand: a plaintext type, or the
/// future produced by an asynchronous call on the named program resource.
#[derive(Debug, PartialEq, Eq)]
pub enum FinalizeType {
    /// A concrete plaintext type.
    Plaintext(PlaintextType),
    /// A future; it has no concrete size, so sizing it is an error.
    Future(crate::ident::Locator),
}

impl FinalizeType {
    /// Whether every identifier inside the type is a well-formed name.
    pub open spec fn wf(&self) -> bool {
        match self {
            FinalizeType::Plaintext(pt) => pt.wf(),
            FinalizeType::Future(loc) => loc.wf(),
        }
    }
}

impl Clone for FinalizeType {
    fn clone(&self) -> (r: Self) {
        match self {
            FinalizeType::Plaintext(pt) => FinalizeType::Plaintext(pt.clone()),
            FinalizeType::Future(loc) => FinalizeType::Future(loc.clone()),
        }
    }
}

/// The visibility-tagged type of one record entry.
#[derive(Debug, PartialEq, Eq)]
pub enum EntryType {
    /// Publicly visible and constant.
    Constant(PlaintextType),
    /// Publicly visible.
    Public(PlaintextType),
    /// Visible to the owner only.
    Private(PlaintextType),
}

/// The mathematical value of an [`EntryType`].
#[verifier::ext_equal]
pub ghost enum EntryTypeV {
    Constant(PlaintextTypeV),
    Public(PlaintextTypeV),
    Private(PlaintextTypeV),
}

impl View for EntryType {
    type V = EntryTypeV;

    open spec fn view(&self) -> EntryTypeV {
        match self {
            EntryType::Constant(pt) => EntryTypeV::Constant(pt@),
            EntryType::Public(pt) => EntryTypeV::Public(pt@),
            EntryType::Private(pt) => EntryTypeV::Private(pt@),
        }
    }
}

impl EntryType {
    /// Whether every identifier inside the type is a well-formed name.
    pub open spec fn wf(&self) -> bool {
        match self {
            EntryType::Constant(pt) => pt.wf(),
            EntryType::Public(pt) => pt.wf(),
            EntryType::Private(pt) => pt.wf(),
        }
    }
}

/// One struct declaration: a name and its ordered members.
#[derive(Debug, PartialEq, Eq)]
pub struct StructDef {
    /// The declared struct name.
    pub name: Identifier,
    /// The ordered member list: member name and member type.
    pub members: Vec<(Identifier, PlaintextType)>,
}

/// Index of the first struct named `name` in `structs`, or `-1`.
pub open spec fn spec_find_struct(structs: Seq<StructDef>, name: Seq<u8>) -> int
    decreases structs.len(),
{
    if structs.len() == 0 {
        -1
    } else if structs[0].name@ == name {
        0
    } else {
        let r = spec_find_struct(structs.drop_first(), name);
        if r < 0 {
            -1
        } else {
            r + 1
        }
    }
}

/// What [`spec_find_struct`] returns: the first matching index, or `-1` when
/// no struct has the name.
pub proof fn lemma_find_struct(structs: Seq<StructDef>, name: Seq<u8>)
    ensures
        ({
            let r = spec_find_struct(structs, name);
            &&& r == -1 ==> forall|j: int|
                0 <= j < structs.len() ==> (#[trigger] structs[j].name)@ != name
            &&& r != -1 ==> {
                &&& 0 <= r < structs.len()
                &&& structs[r].name@ == name
                &&& forall|j: int| 0 <= j < r ==> (#[trigger] structs[j].name)@ != name
            }
        }),
    decreases structs.len(),
{
    if structs.len() > 0 && structs[0].name@ != name {
        lemma_find_struct(structs.drop_first(), name);
        assert forall|j: int| 1 <= j < structs.len() implies structs.drop_first()[j - 1]
            == #[trigger] structs[j] by {}
    }
}

/// Whether every struct reference inside `ty` resolves to a struct declared
/// before position `bound` in the registry.
pub open spec fn spec_type_resolves(structs: Seq<StructDef>, bound: int, ty: PlaintextType) -> bool
    decreases ty,
{
    match ty {
        PlaintextType::Literal(_) => true,
        PlaintextType::Struct(id) => 0 <= spec_find_struct(structs, id@) < bound,
        PlaintextType::Array(elem, _) => spec_type_resolves(structs, bound, *elem),
    }
}

/// A program's struct registry, in declaration order, together with the
/// program's identity.
#[derive(Debug, PartialEq, Eq)]
pub struct Program {
    /// The program's identity.
    pub id: ProgramId,
    /// The declared structs, in declaration order.
    pub structs: Vec<StructDef>,
}

impl Program {
    /// Well-formedness of the registry: names are well-formed and unique,
    /// and every member type of the struct at position `i` refers only to
    /// structs declared strictly before `i`. The parser and loader that hand
    /// programs to this engine enforce exactly this declaration-before-use
    /// discipline, which makes type resolution terminate.
    pub open spec fn wf(&self) -> bool {
        &&& self.id.wf()
        &&& forall|i: int|
            0 <= i < self.structs@.len() ==> (#[trigger] self.structs@[i]).name.wf()
        &&& forall|i: int|
            0 <= i < self.structs@.len() ==> spec_find_struct(
                self.structs@,
                (#[trigger] self.structs@[i]).name@,
            ) == i
        &&& forall|i: int, k: int|
            0 <= i < self.structs@.len() && 0 <= k < self.structs@[i].members@.len() ==> {
                &&& (#[trigger] self.structs@[i].members@[k]).0.wf()
                &&& self.structs@[i].members@[k].1.wf()
                &&& spec_type_resolves(self.structs@, i, self.structs@[i].members@[k].1)
            }
    }

    /// Looks a struct up by name: the first declaration with that name.
    pub fn find_struct(&self, name: &Identifier) -> (r: Option<usize>)
        ensures
            match r {
                Some(i) => spec_find_struct(self.structs@, name@) == i as int,
                None => spec_find_struct(self.structs@, name@) == -1,
            },
    {
        proof {
            lemma_find_struct(self.structs@, name@);
        }
        let n = self.structs.len();
        let mut i: usize = 0;
        while i < n
            invariant
                0 <= i <= n,
                n == self.structs@.len(),
                forall|j: int| 0 <= j < i ==> (#[trigger] self.structs@[j].name)@ != name@,
            decreases n - i,
        {
            if self.structs[i].name.eq_name(name) {
                proof {
                    lemma_find_first_is(self.structs@, name@, i as int);
                }
                return Some(i);
            }
            i = i + 1;
        }
        None
    }
}

/// If position `i` matches and nothing before it does, the find returns `i`.
proof fn lemma_find_first_is(structs: Seq<StructDef>, name: Seq<u8>, i: int)
    requires
        0 <= i < structs.len(),
        structs[i].name@ == name,
        forall|j: int| 0 <= j < i ==> (#[trigger] structs[j].name)@ != name,
    ensures
        spec_find_struct(structs, name) == i,
{
    lemma_find_struct(structs, name);
    let r = spec_find_struct(structs, name);
    if r == -1 {
    } else {
        if r < i {
        } else if r > i {
        }
    }
}

} // verus!
