//! Runtime values: plaintexts (literals, structs, arrays), records, futures,
//! and the value operations the executor needs (deep equality, deep copy,
//! access-path lookup).

use vstd::prelude::*;

use crate::command::{Access, LiteralValue, LiteralValueV};
use crate::ident::{Identifier, ProgramId, ProgramIdV};
use crate::VmError;

verus! {

broadcast use vstd::std_specs::vec::group_vec_axioms;

/// A plaintext value: a literal, a struct of named members, or an array.
#[derive(Debug, PartialEq, Eq)]
pub enum Plaintext {
    /// A literal value.
    Literal(LiteralValue),
    /// A struct value: ordered named members.
    Struct(Vec<(Identifier, Plaintext)>),
    /// An array value: ordered elements.
    Array(Vec<Plaintext>),
}

/// The mathematical value of a [`Plaintext`].
#[verifier::ext_equal]
pub ghost enum PlaintextV {
    Literal(LiteralValueV),
    Struct(Seq<(Seq<u8>, PlaintextV)>),
    Array(Seq<PlaintextV>),
}

/// The mathematical value of a plaintext.
pub open spec fn spec_view_plaintext(p: Plaintext) -> PlaintextV
    decreases p, 1int, 0int,
    via spec_view_plaintext_decreases
{
    match p {
        Plaintext::Literal(l) => PlaintextV::Literal(l@),
        Plaintext::Struct(members) => PlaintextV::Struct(
            spec_view_members(members@, members@.len() as int),
        ),
        Plaintext::Array(elements) => PlaintextV::Array(
            spec_view_elements(elements@, elements@.len() as int),
        ),
    }
}

/// The mathematical values of the first `i` struct members.
pub open spec fn spec_view_members(
    members: Seq<(Identifier, Plaintext)>,
    i: int,
) -> Seq<(Seq<u8>, PlaintextV)>
    decreases members, 0int, i,
    via spec_view_members_decreases
{
    if i <= 0 || i > members.len() {
        Seq::empty()
    } else {
        spec_view_members(members, i - 1).push(
            (members[i - 1].0@, spec_view_plaintext(members[i - 1].1)),
        )
    }
}

/// The mathematical values of the first `i` array elements.
pub open spec fn spec_view_elements(elements: Seq<Plaintext>, i: int) -> Seq<PlaintextV>
    decreases elements, 0int, i,
    via spec_view_elements_decreases
{
    if i <= 0 || i > elements.len() {
        Seq::empty()
    } else {
        spec_view_elements(elements, i - 1).push(spec_view_plaintext(elements[i - 1]))
    }
}

#[via_fn]
proof fn spec_view_plaintext_decreases(p: Plaintext) {
    match p {
        Plaintext::Literal(_) => {},
        Plaintext::Struct(members) => {
            assert(decreases_to!(members => members@));
        },
        Plaintext::Array(elements) => {
            assert(decreases_to!(elements => elements@));
        },
    }
}

#[via_fn]
proof fn spec_view_members_decreases(members: Seq<(Identifier, Plaintext)>, i: int) {
    if i > 0 && 0 <= i - 1 < members.len() {
        assert(decreases_to!(members => members[i - 1]));
        assert(decreases_to!(members[i - 1] => members[i - 1].1));
    }
}

#[via_fn]
proof fn spec_view_elements_decreases(elements: Seq<Plaintext>, i: int) {
    if i > 0 && 0 <= i - 1 < elements.len() {
        assert(decreases_to!(elements => elements[i - 1]));
    }
}

/// Index form of [`spec_view_members`]: the view of the first `i` members
/// has length `i` and carries each member's name and value views in place.
pub proof fn lemma_view_members_index(members: Seq<(Identifier, Plaintext)>, i: int)
    requires
        0 <= i <= members.len(),
    ensures
        spec_view_members(members, i).len() == i,
        forall|j: int|
            0 <= j < i ==> #[trigger] spec_view_members(members, i)[j] == (
                members[j].0@,
                spec_view_plaintext(members[j].1),
            ),
    decreases i,
{
    if i > 0 {
        lemma_view_members_index(members, i - 1);
    }
}

/// Index form of [`spec_view_elements`].
pub proof fn lemma_view_elements_index(elements: Seq<Plaintext>, i: int)
    requires
        0 <= i <= elements.len(),
    ensures
        spec_view_elements(elements, i).len() == i,
        forall|j: int|
            0 <= j < i ==> #[trigger] spec_view_elements(elements, i)[j] == spec_view_plaintext(
                elements[j],
            ),
    decreases i,
{
    if i > 0 {
        lemma_view_elements_index(elements, i - 1);
    }
}

impl View for Plaintext {
    type V = PlaintextV;

    open spec fn view(&self) -> PlaintextV {
        spec_view_plaintext(*self)
    }
}

/// Whether two byte vectors hold the same bytes.
fn bytes_eq(a: &Vec<u8>, b: &Vec<u8>) -> (r: bool)
    ensures
        r == (a@ == b@),
{
    if a.len() != b.len() {
        assert(a@.len() != b@.len());
        return false;
    }
    let n = a.len();
    let mut i: usize = 0;
    while i < n
        invariant
            0 <= i <= n,
            n == a@.len() && n == b@.len(),
            forall|j: int| 0 <= j < i ==> a@[j] == b@[j],
        decreases n - i,
    {
        if a[i] != b[i] {
            return false;
        }
        i = i + 1;
    }
    proof {
        assert(a@ =~= b@);
    }
    true
}

/// Deep equality of two plaintext values, equivalent to equality of their
/// mathematical values.
#[verifier::loop_isolation(false)]
pub fn plaintext_eq(a: &Plaintext, b: &Plaintext) -> (r: bool)
    ensures
        r == (a@ == b@),
    decreases *a,
{
    match (a, b) {
        (Plaintext::Literal(x), Plaintext::Literal(y)) => {
            let kinds_eq: bool = match (x.kind, y.kind) {
                (crate::types::LiteralKind::Address, crate::types::LiteralKind::Address) => true,
                (crate::types::LiteralKind::Boolean, crate::types::LiteralKind::Boolean) => true,
                (crate::types::LiteralKind::Field, crate::types::LiteralKind::Field) => true,
                (crate::types::LiteralKind::Group, crate::types::LiteralKind::Group) => true,
                (crate::types::LiteralKind::I8, crate::types::LiteralKind::I8) => true,
                (crate::types::LiteralKind::I16, crate::types::LiteralKind::I16) => true,
                (crate::types::LiteralKind::I32, crate::types::LiteralKind::I32) => true,
                (crate::types::LiteralKind::I64, crate::types::LiteralKind::I64) => true,
                (crate::types::LiteralKind::I128, crate::types::LiteralKind::I128) => true,
                (crate::types::LiteralKind::U8, crate::types::LiteralKind::U8) => true,
                (crate::types::LiteralKind::U16, crate::types::LiteralKind::U16) => true,
                (crate::types::LiteralKind::U32, crate::types::LiteralKind::U32) => true,
                (crate::types::LiteralKind::U64, crate::types::LiteralKind::U64) => true,
                (crate::types::LiteralKind::U128, crate::types::LiteralKind::U128) => true,
                (crate::types::LiteralKind::Scalar, crate::types::LiteralKind::Scalar) => true,
                (crate::types::LiteralKind::Signature, crate::types::LiteralKind::Signature) => true,
                (crate::types::LiteralKind::String, crate::types::LiteralKind::String) => true,
                _ => false,
            };
            if !kinds_eq {
                return false;
            }
            bytes_eq(&x.data, &y.data)
        },
        (Plaintext::Struct(ms1), Plaintext::Struct(ms2)) => {
            proof {
                lemma_view_members_index(ms1@, ms1@.len() as int);
                lemma_view_members_index(ms2@, ms2@.len() as int);
            }
            if ms1.len() != ms2.len() {
                assert(a@->Struct_0.len() != b@->Struct_0.len());
                return false;
            }
            let n = ms1.len();
            let mut i: usize = 0;
            while i < n
                invariant
                    0 <= i <= n,
                    n == ms1@.len() && n == ms2@.len(),
                    forall|j: int|
                        0 <= j < i ==> (#[trigger] a@->Struct_0[j]) == b@->Struct_0[j],
                decreases n - i,
            {
                if !ms1[i].0.eq_name(&ms2[i].0) {
                    assert(a@->Struct_0[i as int] != b@->Struct_0[i as int]);
                    return false;
                }
                proof {
                    assert(decreases_to!(*ms1 => ms1@[i as int]));
                    assert(decreases_to!(ms1@[i as int] => ms1@[i as int].1));
                }
                if !plaintext_eq(&ms1[i].1, &ms2[i].1) {
                    assert(a@->Struct_0[i as int] != b@->Struct_0[i as int]);
                    return false;
                }
                i = i + 1;
            }
            proof {
                assert(a@->Struct_0 =~= b@->Struct_0);
            }
            true
        },
        (Plaintext::Array(es1), Plaintext::Array(es2)) => {
            proof {
                lemma_view_elements_index(es1@, es1@.len() as int);
                lemma_view_elements_index(es2@, es2@.len() as int);
            }
            if es1.len() != es2.len() {
                assert(a@->Array_0.len() != b@->Array_0.len());
                return false;
            }
            let n = es1.len();
            let mut i: usize = 0;
            while i < n
                invariant
                    0 <= i <= n,
                    n == es1@.len() && n == es2@.len(),
                    forall|j: int| 0 <= j < i ==> (#[trigger] a@->Array_0[j]) == b@->Array_0[j],
                decreases n - i,
            {
                proof {
                    assert(decreases_to!(*es1 => es1@[i as int]));
                }
                if !plaintext_eq(&es1[i], &es2[i]) {
                    assert(a@->Array_0[i as int] != b@->Array_0[i as int]);
                    return false;
                }
                i = i + 1;
            }
            proof {
                assert(a@->Array_0 =~= b@->Array_0);
            }
            true
        },
        _ => {
            proof {
                assert(a@ != b@);
            }
            false
        },
    }
}

/// A deep copy of a plaintext value.
#[verifier::loop_isolation(false)]
pub fn clone_plaintext(p: &Plaintext) -> (r: Plaintext)
    ensures
        r@ == p@,
    decreases *p,
{
    match p {
        Plaintext::Literal(l) => Plaintext::Literal(l.clone()),
        Plaintext::Struct(members) => {
            let n = members.len();
            let mut out: Vec<(Identifier, Plaintext)> = Vec::new();
            let mut i: usize = 0;
            while i < n
                invariant
                    0 <= i <= n,
                    n == members@.len(),
                    out@.len() == i,
                    forall|j: int|
                        0 <= j < i ==> {
                            &&& (#[trigger] out@[j]).0@ == members@[j].0@
                            &&& out@[j].1@ == members@[j].1@
                        },
                decreases n - i,
            {
                let name = members[i].0.clone();
                proof {
                    assert(decreases_to!(*members => members@[i as int]));
                    assert(decreases_to!(members@[i as int] => members@[i as int].1));
                }
                let member = clone_plaintext(&members[i].1);
                out.push((name, member));
                i = i + 1;
            }
            let r = Plaintext::Struct(out);
            proof {
                lemma_view_members_index(out@, out@.len() as int);
                lemma_view_members_index(members@, members@.len() as int);
                assert(r@->Struct_0 =~= p@->Struct_0);
            }
            r
        },
        Plaintext::Array(elements) => {
            let n = elements.len();
            let mut out: Vec<Plaintext> = Vec::new();
            let mut i: usize = 0;
            while i < n
                invariant
                    0 <= i <= n,
                    n == elements@.len(),
                    out@.len() == i,
                    forall|j: int| 0 <= j < i ==> (#[trigger] out@[j])@ == elements@[j]@,
                decreases n - i,
            {
                proof {
                    assert(decreases_to!(*elements => elements@[i as int]));
                }
                out.push(clone_plaintext(&elements[i]));
                i = i + 1;
            }
            let r = Plaintext::Array(out);
            proof {
                lemma_view_elements_index(out@, out@.len() as int);
                lemma_view_elements_index(elements@, elements@.len() as int);
                assert(r@->Array_0 =~= p@->Array_0);
            }
            r
        },
    }
}

/// One record entry value with its visibility.
#[derive(Debug, PartialEq, Eq)]
pub enum EntryValue {
    /// Publicly visible and constant.
    Constant(Plaintext),
    /// Publicly visible.
    Public(Plaintext),
    /// Visible to the owner only.
    Private(Plaintext),
}

/// The mathematical value of an [`EntryValue`].
#[verifier::ext_equal]
pub ghost enum EntryValueV {
    Constant(PlaintextV),
    Public(PlaintextV),
    Private(PlaintextV),
}

impl View for EntryValue {
    type V = EntryValueV;

    open spec fn view(&self) -> EntryValueV {
        match self {
            EntryValue::Constant(p) => EntryValueV::Constant(p@),
            EntryValue::Public(p) => EntryValueV::Public(p@),
            EntryValue::Private(p) => EntryValueV::Private(p@),
        }
    }
}

/// A record value: its owner address and its named entries.
#[derive(Debug, PartialEq, Eq)]
pub struct RecordValue {
    /// The owner, an address literal.
    pub owner: LiteralValue,
    /// The named entries, in declared order.
    pub entries: Vec<(Identifier, EntryValue)>,
}

/// The mathematical value of a [`RecordValue`].
#[verifier::ext_equal]
pub ghost struct RecordValueV {
    /// The owner, an address literal.
    pub owner: LiteralValueV,
    /// The named entries, in declared order.
    pub entries: Seq<(Seq<u8>, EntryValueV)>,
}

impl View for RecordValue {
    type V = RecordValueV;

    open spec fn view(&self) -> RecordValueV {
        RecordValueV {
            owner: self.owner@,
            entries: self.entries@.map_values(|e: (Identifier, EntryValue)| (e.0@, e.1@)),
        }
    }
}

/// A future value: the asynchronous call it stands for.
#[derive(Debug, PartialEq, Eq)]
pub struct FutureValue {
    /// The program of the awaited call.
    pub program_id: ProgramId,
    /// The function of the awaited call.
    pub function_name: Identifier,
    /// The call's plaintext arguments.
    pub arguments: Vec<Plaintext>,
}

/// The mathematical value of a [`FutureValue`].
#[verifier::ext_equal]
pub ghost struct FutureValueV {
    /// The program of the awaited call.
    pub program_id: ProgramIdV,
    /// The function of the awaited call.
    pub function_name: Seq<u8>,
    /// The call's plaintext arguments.
    pub arguments: Seq<PlaintextV>,
}

impl View for FutureValue {
    type V = FutureValueV;

    open spec fn view(&self) -> FutureValueV {
        FutureValueV {
            program_id: self.program_id@,
            function_name: self.function_name@,
            arguments: spec_view_elements(self.arguments@, self.arguments@.len() as int),
        }
    }
}

/// A stored or register-held value: a plaintext, a record, or a future.
#[derive(Debug, PartialEq, Eq)]
pub enum Value {
    /// A plaintext value.
    Plaintext(Plaintext),
    /// A record value.
    Record(RecordValue),
    /// A future value.
    Future(FutureValue),
}

/// The mathematical value of a [`Value`].
#[verifier::ext_equal]
pub ghost enum ValueV {
    Plaintext(PlaintextV),
    Record(RecordValueV),
    Future(FutureValueV),
}

impl View for Value {
    type V = ValueV;

    open spec fn view(&self) -> ValueV {
        match self {
            Value::Plaintext(p) => ValueV::Plaintext(p@),
            Value::Record(r) => ValueV::Record(r@),
            Value::Future(f) => ValueV::Future(f@),
        }
    }
}

/// A deep copy of an entry value.
fn clone_entry_value(e: &EntryValue) -> (r: EntryValue)
    ensures
        r@ == e@,
{
    match e {
        EntryValue::Constant(p) => EntryValue::Constant(clone_plaintext(p)),
        EntryValue::Public(p) => EntryValue::Public(clone_plaintext(p)),
        EntryValue::Private(p) => EntryValue::Private(clone_plaintext(p)),
    }
}

/// A deep copy of a value.
#[verifier::loop_isolation(false)]
pub fn clone_value(v: &Value) -> (r: Value)
    ensures
        r@ == v@,
{
    match v {
        Value::Plaintext(p) => Value::Plaintext(clone_plaintext(p)),
        Value::Record(record) => {
            let owner = record.owner.clone();
            let n = record.entries.len();
            let mut entries: Vec<(Identifier, EntryValue)> = Vec::new();
            let mut i: usize = 0;
            while i < n
                invariant
                    0 <= i <= n,
                    n == record.entries@.len(),
                    entries@.len() == i,
                    forall|j: int|
                        0 <= j < i ==> {
                            &&& (#[trigger] entries@[j]).0@ == record.entries@[j].0@
                            &&& entries@[j].1@ == record.entries@[j].1@
                        },
                decreases n - i,
            {
                let name = record.entries[i].0.clone();
                let entry = clone_entry_value(&record.entries[i].1);
                entries.push((name, entry));
                i = i + 1;
            }
            let r = Value::Record(RecordValue { owner, entries });
            proof {
                assert(r@->Record_0.entries =~= v@->Record_0.entries);
            }
            r
        },
        Value::Future(future) => {
            let program_id = future.program_id.clone();
            let function_name = future.function_name.clone();
            let n = future.arguments.len();
            let mut arguments: Vec<Plaintext> = Vec::new();
            let mut i: usize = 0;
            while i < n
                invariant
                    0 <= i <= n,
                    n == future.arguments@.len(),
                    arguments@.len() == i,
                    forall|j: int|
                        0 <= j < i ==> (#[trigger] arguments@[j])@ == future.arguments@[j]@,
                decreases n - i,
            {
                arguments.push(clone_plaintext(&future.arguments[i]));
                i = i + 1;
            }
            let r = Value::Future(FutureValue { program_id, function_name, arguments });
            proof {
                lemma_view_elements_index(arguments@, arguments@.len() as int);
                lemma_view_elements_index(future.arguments@, future.arguments@.len() as int);
                assert(r@->Future_0.arguments =~= v@->Future_0.arguments);
            }
            r
        },
    }
}

/// The value of the first member named `name` of a struct value's members.
pub open spec fn spec_member_value(
    entries: Seq<(Seq<u8>, PlaintextV)>,
    name: Seq<u8>,
) -> Option<PlaintextV>
    decreases entries.len(),
{
    if entries.len() == 0 {
        None
    } else if entries[0].0 == name {
        Some(entries[0].1)
    } else {
        spec_member_value(entries.drop_first(), name)
    }
}

/// What [`spec_member_value`] returns: the first matching member.
proof fn lemma_member_value(entries: Seq<(Seq<u8>, PlaintextV)>, name: Seq<u8>)
    ensures
        ({
            let r = spec_member_value(entries, name);
            &&& r is None ==> forall|j: int|
                0 <= j < entries.len() ==> (#[trigger] entries[j]).0 != name
            &&& r matches Some(m) ==> exists|j: int|
                0 <= j < entries.len() && (#[trigger] entries[j]).0 == name && entries[j].1 == m
        }),
    decreases entries.len(),
{
    if entries.len() > 0 && entries[0].0 != name {
        lemma_member_value(entries.drop_first(), name);
        assert forall|j: int| 1 <= j < entries.len() implies entries.drop_first()[j - 1]
            == #[trigger] entries[j] by {}
    }
}

/// If position `j` matches and nothing before it does, the lookup gives it.
proof fn lemma_member_value_first(entries: Seq<(Seq<u8>, PlaintextV)>, name: Seq<u8>, j: int)
    requires
        0 <= j < entries.len(),
        entries[j].0 == name,
        forall|k: int| 0 <= k < j ==> (#[trigger] entries[k]).0 != name,
    ensures
        spec_member_value(entries, name) == Some(entries[j].1),
    decreases j,
{
    if j == 0 {
    } else {
        lemma_member_value_first(entries.drop_first(), name, j - 1);
        assert forall|k: int| 1 <= k < entries.len() implies entries.drop_first()[k - 1]
            == #[trigger] entries[k] by {}
    }
}

/// The plaintext value reached from `p` by the remaining access path
/// `path[i..]`: a member access needs a struct value with that member, an
/// index access needs an array value long enough.
pub open spec fn spec_access_plaintext_value(
    p: PlaintextV,
    path: Seq<Access>,
    i: int,
) -> Result<PlaintextV, VmError>
    decreases path.len() - i,
{
    if i >= path.len() || i < 0 {
        Ok(p)
    } else {
        match path[i] {
            Access::Member(id) => match p {
                PlaintextV::Struct(entries) => match spec_member_value(entries, id@) {
                    Some(m) => spec_access_plaintext_value(m, path, i + 1),
                    None => Err(VmError::SchemaError),
                },
                _ => Err(VmError::TypeMismatchError),
            },
            Access::Index(idx) => match p {
                PlaintextV::Array(es) => {
                    if idx < es.len() {
                        spec_access_plaintext_value(es[idx as int], path, i + 1)
                    } else {
                        Err(VmError::TypeMismatchError)
                    }
                },
                _ => Err(VmError::TypeMismatchError),
            },
        }
    }
}

/// Looks up a member of a struct value by name.
#[verifier::loop_isolation(false)]
fn find_member_plaintext<'a>(
    members: &'a Vec<(Identifier, Plaintext)>,
    name: &Identifier,
) -> (r: Option<&'a Plaintext>)
    ensures
        ({
            let entries = spec_view_members(members@, members@.len() as int);
            match r {
                Some(m) => spec_member_value(entries, name@) == Some(m@),
                None => spec_member_value(entries, name@) is None,
            }
        }),
{
    proof {
        lemma_view_members_index(members@, members@.len() as int);
    }
    let ghost entries = spec_view_members(members@, members@.len() as int);
    let n = members.len();
    let mut j: usize = 0;
    while j < n
        invariant
            0 <= j <= n,
            n == members@.len(),
            forall|k: int| 0 <= k < j ==> (#[trigger] entries[k]).0 != name@,
        decreases n - j,
    {
        if members[j].0.eq_name(name) {
            proof {
                lemma_member_value_first(entries, name@, j as int);
            }
            return Some(&members[j].1);
        }
        j = j + 1;
    }
    proof {
        lemma_member_value(entries, name@);
    }
    None
}

/// Walks an access path down a plaintext value.
#[verifier::loop_isolation(false)]
pub fn access_plaintext_value<'a>(p: &'a Plaintext, path: &Vec<Access>) -> (r: Result<
    &'a Plaintext,
    VmError,
>)
    ensures
        match r {
            Ok(t) => spec_access_plaintext_value(p@, path@, 0) == Ok::<PlaintextV, VmError>(t@),
            Err(e) => spec_access_plaintext_value(p@, path@, 0) == Err::<PlaintextV, VmError>(e),
        },
{
    let n = path.len();
    let mut cur: &Plaintext = p;
    let mut i: usize = 0;
    while i < n
        invariant
            0 <= i <= n,
            n == path@.len(),
            spec_access_plaintext_value(cur@, path@, i as int) == spec_access_plaintext_value(
                p@,
                path@,
                0,
            ),
        decreases n - i,
    {
        match &path[i] {
            Access::Member(id) => {
                match cur {
                    Plaintext::Struct(members) => {
                        match find_member_plaintext(members, id) {
                            Some(m) => {
                                cur = m;
                            },
                            None => {
                                return Err(VmError::SchemaError);
                            },
                        }
                    },
                    _ => {
                        return Err(VmError::TypeMismatchError);
                    },
                }
            },
            Access::Index(idx) => {
                match cur {
                    Plaintext::Array(elements) => {
                        if (*idx as usize) < elements.len() {
                            proof {
                                lemma_view_elements_index(
                                    elements@,
                                    elements@.len() as int,
                                );
                            }
                            cur = &elements[*idx as usize];
                        } else {
                            proof {
                                lemma_view_elements_index(
                                    elements@,
                                    elements@.len() as int,
                                );
                            }
                            return Err(VmError::TypeMismatchError);
                        }
                    },
                    _ => {
                        return Err(VmError::TypeMismatchError);
                    },
                }
            },
        }
        i = i + 1;
    }
    Ok(cur)
}

} // verus!
