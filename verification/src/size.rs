//! Recursive byte sizing of plaintext types against a program's struct
//! registry.
//!
//! The size of a literal comes from the fixed width table; the size of a
//! struct is the encoded length of its own name (one length byte plus the
//! name's bytes) plus the sizes of its members in declared order; the size of
//! an array is its length times the size of its element type. The
//! mathematical size is a `nat`; the executable computation clamps it to
//! `u64::MAX` (saturating arithmetic), and fails exactly when a referenced
//! struct does not resolve to an earlier declaration.

use vstd::prelude::*;

use crate::ident::Identifier;
use crate::types::{spec_find_struct, spec_literal_size, PlaintextType, Program, StructDef};
use crate::util::{lemma_sat_add_min, lemma_sat_mul_min, sat64, sat_add, sat_mul};
use crate::VmError;

verus! {

/// The mathematical byte size of `ty`, resolving struct references against
/// declarations strictly before `bound`, or `None` when a reference does not
/// resolve there. Bounding the lookups by the referencing declaration's own
/// position is what makes the recursion terminate; a well-formed registry
/// (declaration before use) loses nothing by it.
pub open spec fn spec_plaintext_size(structs: Seq<StructDef>, bound: int, ty: PlaintextType) -> Option<nat>
    decreases bound, 0int, ty.height(),
{
    match ty {
        PlaintextType::Literal(k) => Some(spec_literal_size(k) as nat),
        PlaintextType::Struct(id) => {
            let j = spec_find_struct(structs, id@);
            if 0 <= j < bound {
                match spec_members_size(structs, j, structs[j].members@, structs[j].members@.len() as int) {
                    Some(m) => Some(1 + structs[j].name@.len() + m),
                    None => None,
                }
            } else {
                None
            }
        }
        PlaintextType::Array(elem, len) => {
            match spec_plaintext_size(structs, bound, *elem) {
                Some(s) => Some(len as nat * s),
                None => None,
            }
        }
    }
}

/// The summed mathematical byte size of the first `i` member types.
pub open spec fn spec_members_size(
    structs: Seq<StructDef>,
    bound: int,
    members: Seq<(Identifier, PlaintextType)>,
    i: int,
) -> Option<nat>
    decreases bound, 1int, i,
{
    if i <= 0 {
        Some(0)
    } else {
        match spec_members_size(structs, bound, members, i - 1) {
            Some(acc) => match spec_plaintext_size(structs, bound, members[i - 1].1) {
                Some(m) => Some(acc + m),
                None => None,
            },
            None => None,
        }
    }
}

/// Once a member prefix fails to size, every longer prefix fails too.
proof fn lemma_members_size_none(
    structs: Seq<StructDef>,
    bound: int,
    members: Seq<(Identifier, PlaintextType)>,
    i: int,
    k: int,
)
    requires
        0 <= i <= k,
        spec_members_size(structs, bound, members, i) is None,
    ensures
        spec_members_size(structs, bound, members, k) is None,
    decreases k,
{
    if k > i {
        lemma_members_size_none(structs, bound, members, i, k - 1);
    }
}

/// Sizes `ty` looking only at declarations before `bound`.
#[verifier::loop_isolation(false)]
fn plaintext_size_rec(program: &Program, bound: usize, ty: &PlaintextType) -> (r: Result<
    u64,
    VmError,
>)
    requires
        bound <= program.structs@.len(),
    ensures
        match spec_plaintext_size(program.structs@, bound as int, *ty) {
            Some(n) => r == Ok::<u64, VmError>(sat64(n)),
            None => r == Err::<u64, VmError>(VmError::SchemaError),
        },
    decreases bound, 0int, ty.height(),
{
    let structs = Ghost(program.structs@);
    match ty {
        PlaintextType::Literal(k) => Ok(crate::types::literal_size_in_bytes(*k)),
        PlaintextType::Struct(id) => {
            let j_opt = program.find_struct(id);
            let j = match j_opt {
                Some(j) => j,
                None => {
                    return Err(VmError::SchemaError);
                },
            };
            if j >= bound {
                return Err(VmError::SchemaError);
            }
            let def = &program.structs[j];
            let name_len = def.name.len();
            proof {
                crate::types::lemma_find_struct(structs@, id@);
            }
            let ident_size: u64 = sat_add(1, name_len as u64);
            let ghost base: nat = 1 + def.name@.len();
            proof {
                lemma_sat_add_min(1, def.name@.len());
            }
            let mut acc: u64 = ident_size;
            let n = def.members.len();
            let mut k: usize = 0;
            while k < n
                invariant
                    0 <= k <= n,
                    n == def.members@.len(),
                    bound <= program.structs@.len(),
                    j < bound,
                    *def == program.structs@[j as int],
                    base == 1 + def.name@.len(),
                    match spec_members_size(program.structs@, j as int, def.members@, k as int) {
                        Some(p) => acc == sat64(base + p),
                        None => false,
                    },
                decreases n - k,
            {
                let m = match plaintext_size_rec(program, j, &def.members[k].1) {
                    Ok(m) => m,
                    Err(e) => {
                        proof {
                            assert(spec_members_size(
                                program.structs@,
                                j as int,
                                def.members@,
                                k as int + 1,
                            ) is None);
                            lemma_members_size_none(
                                program.structs@,
                                j as int,
                                def.members@,
                                k + 1,
                                n as int,
                            );
                        }
                        return Err(e);
                    },
                };
                let ghost p = spec_members_size(program.structs@, j as int, def.members@, k as int)->Some_0;
                let ghost msz = spec_plaintext_size(program.structs@, j as int, def.members@[k as int].1)->Some_0;
                acc = sat_add(acc, m);
                proof {
                    lemma_sat_add_min(base + p, msz);
                }
                k = k + 1;
            }
            Ok(acc)
        },
        PlaintextType::Array(elem, len) => {
            let s = match plaintext_size_rec(program, bound, &**elem) {
                Ok(s) => s,
                Err(e) => {
                    return Err(e);
                },
            };
            let r = sat_mul(*len as u64, s);
            proof {
                let sn = spec_plaintext_size(program.structs@, bound as int, **elem)->Some_0;
                lemma_sat_mul_min(*len as u64, sn);
            }
            Ok(r)
        },
    }
}

/// The exact encoded byte size of `plaintext_type` under `stack`'s struct
/// registry, clamped to `u64::MAX`; `SchemaError` exactly when a struct
/// reference does not resolve to a declaration that precedes its use.
pub fn plaintext_size_in_bytes(stack: &Program, plaintext_type: &PlaintextType) -> (r: Result<
    u64,
    VmError,
>)
    ensures
        match spec_plaintext_size(
            stack.structs@,
            stack.structs@.len() as int,
            *plaintext_type,
        ) {
            Some(n) => r == Ok::<u64, VmError>(sat64(n)),
            None => r == Err::<u64, VmError>(VmError::SchemaError),
        },
{
    plaintext_size_rec(stack, stack.structs.len(), plaintext_type)
}

/// Nesting an array of length `l` inside another array of the same length
/// multiplies the total size by `l`: the size of `[[T; l]; l]` is `l` times
/// the size of `[T; l]`, whenever the inner type sizes at all.
pub proof fn lemma_nested_array_size(
    structs: Seq<StructDef>,
    bound: int,
    elem: PlaintextType,
    l: u32,
)
    ensures
        ({
            let inner = PlaintextType::Array(Box::new(elem), l);
            let outer = PlaintextType::Array(Box::new(inner), l);
            match spec_plaintext_size(structs, bound, inner) {
                Some(s) => spec_plaintext_size(structs, bound, outer) == Some(
                    (l as nat * s) as nat,
                ),
                None => spec_plaintext_size(structs, bound, outer) is None,
            }
        }),
{
}

} // verus!
