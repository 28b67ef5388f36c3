//! The executor's state: a register file for one finalize invocation, and
//! the mapping store with its confirmed entries and its per-execution
//! write-ahead buffer of speculative writes.

use vstd::prelude::*;

use crate::command::{LiteralValue, Operand, Register};
use crate::ident::{Identifier, ProgramId, ProgramIdV};
use crate::types::LiteralKind;
use crate::value::{
    clone_plaintext, clone_value, plaintext_eq, spec_access_plaintext_value, Plaintext,
    PlaintextV, Value, ValueV,
};
use crate::VmError;

verus! {

/// The mathematical value of a register bank.
pub open spec fn spec_view_registers(regs: Seq<Option<Value>>) -> Seq<Option<ValueV>> {
    regs.map_values(
        |o: Option<Value>|
            match o {
                Option::None => None,
                Option::Some(v) => Some(v@),
            },
    )
}

/// The register file of one finalize invocation, together with the pieces of
/// global state that finalize logic may read.
#[derive(Debug, PartialEq, Eq)]
pub struct RegisterFile {
    /// The current block height.
    pub block_height: u32,
    /// The network identifier.
    pub network_id: u16,
    /// The registers, by locator; `None` is an unassigned register.
    pub registers: Vec<Option<Value>>,
}

/// The plaintext a load of `op` produces from the registers and global
/// state: an immediate literal's own value; a register's plaintext, walked
/// through the access path if any; the block height as a `u32` literal; the
/// network identifier as a `u16` literal. Loading a record or future with
/// `get`-style plaintext loads, an unassigned register, or an operand that
/// finalize logic cannot read (the signer, the caller, or a program identity,
/// whose address form is cryptographic) is an error.
pub open spec fn spec_load_plaintext(
    regs: Seq<Option<ValueV>>,
    block_height: u32,
    network_id: u16,
    op: Operand,
) -> Result<PlaintextV, VmError> {
    match op {
        Operand::Literal(lit) => Ok(PlaintextV::Literal(lit@)),
        Operand::Register(Register::Locator(r)) => {
            if r < regs.len() {
                match regs[r as int] {
                    Some(ValueV::Plaintext(p)) => Ok(p),
                    Some(_) => Err(VmError::TypeMismatchError),
                    None => Err(VmError::SchemaError),
                }
            } else {
                Err(VmError::SchemaError)
            }
        },
        Operand::Register(Register::Access(r, path)) => {
            if r < regs.len() {
                match regs[r as int] {
                    Some(ValueV::Plaintext(p)) => spec_access_plaintext_value(p, path@, 0),
                    Some(_) => Err(VmError::TypeMismatchError),
                    None => Err(VmError::SchemaError),
                }
            } else {
                Err(VmError::SchemaError)
            }
        },
        Operand::ProgramID(_) => Err(VmError::UnsupportedInFinalizeError),
        Operand::Signer => Err(VmError::UnsupportedInFinalizeError),
        Operand::Caller => Err(VmError::UnsupportedInFinalizeError),
        Operand::BlockHeight => Ok(
            PlaintextV::Literal(
                crate::command::LiteralValueV {
                    kind: LiteralKind::U32,
                    data: vstd::bytes::spec_u32_to_le_bytes(block_height),
                },
            ),
        ),
        Operand::NetworkID => Ok(
            PlaintextV::Literal(
                crate::command::LiteralValueV {
                    kind: LiteralKind::U16,
                    data: vstd::bytes::spec_u16_to_le_bytes(network_id),
                },
            ),
        ),
    }
}

/// The register bank after storing `v` into `dest`: the destination must be
/// a plain locator of an unassigned register inside the bank.
pub open spec fn spec_store_register(
    regs: Seq<Option<ValueV>>,
    dest: Register,
    v: ValueV,
) -> Result<Seq<Option<ValueV>>, VmError> {
    match dest {
        Register::Locator(r) => {
            if r < regs.len() {
                if regs[r as int] is None {
                    Ok(regs.update(r as int, Some(v)))
                } else {
                    Err(VmError::SchemaError)
                }
            } else {
                Err(VmError::SchemaError)
            }
        },
        Register::Access(_, _) => Err(VmError::TypeMismatchError),
    }
}

impl RegisterFile {
    /// A register bank of `count` unassigned registers.
    pub fn new(count: usize, block_height: u32, network_id: u16) -> (r: RegisterFile)
        ensures
            r.block_height == block_height,
            r.network_id == network_id,
            spec_view_registers(r.registers@).len() == count,
            forall|i: int| 0 <= i < count ==> spec_view_registers(r.registers@)[i] is None,
    {
        let mut registers: Vec<Option<Value>> = Vec::new();
        let mut i: usize = 0;
        while i < count
            invariant
                0 <= i <= count,
                registers@.len() == i,
                forall|j: int| 0 <= j < i ==> (#[trigger] registers@[j]) is None,
            decreases count - i,
        {
            registers.push(None);
            i = i + 1;
        }
        RegisterFile { block_height, network_id, registers }
    }

    /// Loads the operand as a plaintext value.
    pub fn load_plaintext(&self, operand: &Operand) -> (r: Result<Plaintext, VmError>)
        ensures
            ({
                let s = spec_load_plaintext(
                    spec_view_registers(self.registers@),
                    self.block_height,
                    self.network_id,
                    *operand,
                );
                match r {
                    Ok(p) => s == Ok::<PlaintextV, VmError>(p@),
                    Err(e) => s == Err::<PlaintextV, VmError>(e),
                }
            }),
    {
        let ghost regs = spec_view_registers(self.registers@);
        match operand {
            Operand::Literal(lit) => Ok(Plaintext::Literal(lit.clone())),
            Operand::Register(reg) => {
                let (loc, path): (u64, Option<&Vec<crate::command::Access>>) = match reg {
                    Register::Locator(r) => (*r, None),
                    Register::Access(r, path) => (*r, Some(path)),
                };
                if loc >= self.registers.len() as u64 {
                    return Err(VmError::SchemaError);
                }
                proof {
                    assert(regs[loc as int] == match self.registers@[loc as int] {
                        Option::None => None::<ValueV>,
                        Option::Some(v) => Some(v@),
                    });
                }
                let base = match &self.registers[loc as usize] {
                    None => {
                        return Err(VmError::SchemaError);
                    },
                    Some(Value::Record(_)) => {
                        return Err(VmError::TypeMismatchError);
                    },
                    Some(Value::Future(_)) => {
                        return Err(VmError::TypeMismatchError);
                    },
                    Some(Value::Plaintext(p)) => p,
                };
                match path {
                    None => Ok(clone_plaintext(base)),
                    Some(path) => {
                        match crate::value::access_plaintext_value(base, path) {
                            Ok(t) => Ok(clone_plaintext(t)),
                            Err(e) => Err(e),
                        }
                    },
                }
            },
            Operand::ProgramID(_) => Err(VmError::UnsupportedInFinalizeError),
            Operand::Signer => Err(VmError::UnsupportedInFinalizeError),
            Operand::Caller => Err(VmError::UnsupportedInFinalizeError),
            Operand::BlockHeight => {
                let data = vstd::bytes::u32_to_le_bytes(self.block_height);
                Ok(Plaintext::Literal(LiteralValue { kind: LiteralKind::U32, data }))
            },
            Operand::NetworkID => {
                let data = vstd::bytes::u16_to_le_bytes(self.network_id);
                Ok(Plaintext::Literal(LiteralValue { kind: LiteralKind::U16, data }))
            },
        }
    }

    /// Stores `value` into the destination register. The destination must be
    /// a plain locator of an unassigned register; nothing changes on error.
    pub fn store(&mut self, destination: &Register, value: Value) -> (r: Result<(), VmError>)
        ensures
            ({
                let s = spec_store_register(
                    spec_view_registers(old(self).registers@),
                    *destination,
                    value@,
                );
                match r {
                    Ok(()) => {
                        &&& s is Ok
                        &&& spec_view_registers(final(self).registers@) == s->Ok_0
                        &&& final(self).block_height == old(self).block_height
                        &&& final(self).network_id == old(self).network_id
                    },
                    Err(e) => s == Err::<Seq<Option<ValueV>>, VmError>(e) && *final(self) == *old(
                        self,
                    ),
                }
            }),
    {
        let loc = match destination {
            Register::Locator(r) => *r,
            Register::Access(_, _) => {
                return Err(VmError::TypeMismatchError);
            },
        };
        if loc >= self.registers.len() as u64 {
            return Err(VmError::SchemaError);
        }
        proof {
            assert(spec_view_registers(self.registers@)[loc as int] == match self.registers@[loc as int] {
                Option::None => None::<ValueV>,
                Option::Some(v) => Some(v@),
            });
        }
        match &self.registers[loc as usize] {
            Some(_) => {
                return Err(VmError::SchemaError);
            },
            None => {},
        }
        self.registers.set(loc as usize, Some(value));
        proof {
            assert(spec_view_registers(self.registers@) =~= spec_view_registers(
                old(self).registers@,
            ).update(loc as int, Some(value@)));
        }
        Ok(())
    }
}

/// One confirmed mapping: its owning program, its name, and its entries.
#[derive(Debug, PartialEq, Eq)]
pub struct Mapping {
    /// The program that owns the mapping.
    pub program_id: ProgramId,
    /// The mapping's name.
    pub mapping_name: Identifier,
    /// The confirmed entries.
    pub entries: Vec<(Plaintext, Value)>,
}

/// One not-yet-committed write of the current execution.
#[derive(Debug, PartialEq, Eq)]
pub enum PendingWrite {
    /// A speculative insert or update of a key.
    Update { program_id: ProgramId, mapping_name: Identifier, key: Plaintext, value: Value },
    /// A speculative removal of a key.
    Removal { program_id: ProgramId, mapping_name: Identifier, key: Plaintext },
}

/// The mapping store: the last committed state of every mapping, plus the
/// write-ahead buffer of the in-flight execution. Speculative reads see the
/// buffer first (latest write wins) and fall back to confirmed state;
/// confirmed reads ignore the buffer.
#[derive(Debug, PartialEq, Eq)]
pub struct FinalizeStore {
    /// The confirmed mappings.
    pub mappings: Vec<Mapping>,
    /// The speculative writes of the in-flight execution, oldest first.
    pub pending: Vec<PendingWrite>,
}

/// Whether a confirmed mapping with this identity exists.
pub open spec fn spec_contains_mapping(
    mappings: Seq<Mapping>,
    pid: ProgramIdV,
    name: Seq<u8>,
) -> bool {
    exists|j: int|
        0 <= j < mappings.len() && (#[trigger] mappings[j]).program_id@ == pid
            && mappings[j].mapping_name@ == name
}

/// Index of the first confirmed mapping with this identity, or `-1`.
pub open spec fn spec_find_mapping(mappings: Seq<Mapping>, pid: ProgramIdV, name: Seq<u8>) -> int
    decreases mappings.len(),
{
    if mappings.len() == 0 {
        -1
    } else if mappings[0].program_id@ == pid && mappings[0].mapping_name@ == name {
        0
    } else {
        let r = spec_find_mapping(mappings.drop_first(), pid, name);
        if r < 0 {
            -1
        } else {
            r + 1
        }
    }
}

/// What [`spec_find_mapping`] returns.
proof fn lemma_find_mapping(mappings: Seq<Mapping>, pid: ProgramIdV, name: Seq<u8>)
    ensures
        ({
            let r = spec_find_mapping(mappings, pid, name);
            &&& r == -1 ==> forall|j: int|
                0 <= j < mappings.len() ==> !((#[trigger] mappings[j]).program_id@ == pid
                    && mappings[j].mapping_name@ == name)
            &&& r != -1 ==> {
                &&& 0 <= r < mappings.len()
                &&& mappings[r].program_id@ == pid
                &&& mappings[r].mapping_name@ == name
                &&& forall|j: int|
                    0 <= j < r ==> !((#[trigger] mappings[j]).program_id@ == pid
                        && mappings[j].mapping_name@ == name)
            }
        }),
    decreases mappings.len(),
{
    if mappings.len() > 0 && !(mappings[0].program_id@ == pid && mappings[0].mapping_name@
        == name) {
        lemma_find_mapping(mappings.drop_first(), pid, name);
        assert forall|j: int| 1 <= j < mappings.len() implies mappings.drop_first()[j - 1]
            == #[trigger] mappings[j] by {}
    }
}

/// If position `i` matches and nothing before it does, the find returns `i`.
proof fn lemma_find_mapping_first(mappings: Seq<Mapping>, pid: ProgramIdV, name: Seq<u8>, i: int)
    requires
        0 <= i < mappings.len(),
        mappings[i].program_id@ == pid,
        mappings[i].mapping_name@ == name,
        forall|j: int|
            0 <= j < i ==> !((#[trigger] mappings[j]).program_id@ == pid
                && mappings[j].mapping_name@ == name),
    ensures
        spec_find_mapping(mappings, pid, name) == i,
    decreases i,
{
    if i > 0 {
        lemma_find_mapping_first(mappings.drop_first(), pid, name, i - 1);
        assert forall|j: int| 1 <= j < mappings.len() implies mappings.drop_first()[j - 1]
            == #[trigger] mappings[j] by {}
    }
}

/// The value stored under `key` among confirmed entries: the first entry
/// whose key has the same mathematical value.
pub open spec fn spec_lookup_entries(entries: Seq<(Plaintext, Value)>, key: PlaintextV) -> Option<
    ValueV,
>
    decreases entries.len(),
{
    if entries.len() == 0 {
        None
    } else if entries[0].0@ == key {
        Some(entries[0].1@)
    } else {
        spec_lookup_entries(entries.drop_first(), key)
    }
}

/// What [`spec_lookup_entries`] returns.
proof fn lemma_lookup_entries(entries: Seq<(Plaintext, Value)>, key: PlaintextV)
    ensures
        ({
            let r = spec_lookup_entries(entries, key);
            &&& r is None ==> forall|j: int|
                0 <= j < entries.len() ==> (#[trigger] entries[j]).0@ != key
            &&& r matches Some(v) ==> exists|j: int|
                0 <= j < entries.len() && (#[trigger] entries[j]).0@ == key && entries[j].1@ == v
        }),
    decreases entries.len(),
{
    if entries.len() > 0 && entries[0].0@ != key {
        lemma_lookup_entries(entries.drop_first(), key);
        assert forall|j: int| 1 <= j < entries.len() implies entries.drop_first()[j - 1]
            == #[trigger] entries[j] by {}
    }
}

/// If position `i` matches and nothing before it does, the lookup gives it.
proof fn lemma_lookup_entries_first(entries: Seq<(Plaintext, Value)>, key: PlaintextV, i: int)
    requires
        0 <= i < entries.len(),
        entries[i].0@ == key,
        forall|j: int| 0 <= j < i ==> (#[trigger] entries[j]).0@ != key,
    ensures
        spec_lookup_entries(entries, key) == Some(entries[i].1@),
    decreases i,
{
    if i > 0 {
        lemma_lookup_entries_first(entries.drop_first(), key, i - 1);
        assert forall|j: int| 1 <= j < entries.len() implies entries.drop_first()[j - 1]
            == #[trigger] entries[j] by {}
    }
}

/// The confirmed value under `key` in the mapping, if both exist.
pub open spec fn spec_get_confirmed(
    mappings: Seq<Mapping>,
    pid: ProgramIdV,
    name: Seq<u8>,
    key: PlaintextV,
) -> Option<ValueV> {
    let j = spec_find_mapping(mappings, pid, name);
    if j < 0 {
        None
    } else {
        spec_lookup_entries(mappings[j].entries@, key)
    }
}

/// The latest speculative write touching `(pid, name, key)`, scanned from
/// the newest write backwards: `Some(Some(v))` for an update, `Some(None)`
/// for a removal, `None` when the buffer does not touch the key.
pub open spec fn spec_pending_result(
    pending: Seq<PendingWrite>,
    pid: ProgramIdV,
    name: Seq<u8>,
    key: PlaintextV,
) -> Option<Option<ValueV>>
    decreases pending.len(),
{
    if pending.len() == 0 {
        None
    } else {
        match pending.last() {
            PendingWrite::Update { program_id, mapping_name, key: k, value } => {
                if program_id@ == pid && mapping_name@ == name && k@ == key {
                    Some(Some(value@))
                } else {
                    spec_pending_result(pending.drop_last(), pid, name, key)
                }
            },
            PendingWrite::Removal { program_id, mapping_name, key: k } => {
                if program_id@ == pid && mapping_name@ == name && k@ == key {
                    Some(None)
                } else {
                    spec_pending_result(pending.drop_last(), pid, name, key)
                }
            },
        }
    }
}

/// The speculative value under `key`: the latest pending write if any,
/// otherwise the confirmed value.
pub open spec fn spec_get_speculative(
    store: FinalizeStore,
    pid: ProgramIdV,
    name: Seq<u8>,
    key: PlaintextV,
) -> Option<ValueV> {
    match spec_pending_result(store.pending@, pid, name, key) {
        Some(r) => r,
        None => spec_get_confirmed(store.mappings@, pid, name, key),
    }
}

/// Whether the pending write at position `j` touches `(pid, name, key)`.
pub open spec fn spec_pending_touches(
    w: PendingWrite,
    pid: ProgramIdV,
    name: Seq<u8>,
    key: PlaintextV,
) -> bool {
    match w {
        PendingWrite::Update { program_id, mapping_name, key: k, value: _ } => program_id@ == pid
            && mapping_name@ == name && k@ == key,
        PendingWrite::Removal { program_id, mapping_name, key: k } => program_id@ == pid
            && mapping_name@ == name && k@ == key,
    }
}

/// The result a pending write stands for.
pub open spec fn spec_pending_outcome(w: PendingWrite) -> Option<ValueV> {
    match w {
        PendingWrite::Update { program_id: _, mapping_name: _, key: _, value } => Some(value@),
        PendingWrite::Removal { program_id: _, mapping_name: _, key: _ } => None,
    }
}

/// If position `i` touches the key and no later write does, the pending scan
/// reports exactly that write's outcome.
proof fn lemma_pending_result_at(
    pending: Seq<PendingWrite>,
    pid: ProgramIdV,
    name: Seq<u8>,
    key: PlaintextV,
    i: int,
)
    requires
        0 <= i < pending.len(),
        spec_pending_touches(pending[i], pid, name, key),
        forall|j: int|
            i < j < pending.len() ==> !spec_pending_touches(#[trigger] pending[j], pid, name, key),
    ensures
        spec_pending_result(pending, pid, name, key) == Some(spec_pending_outcome(pending[i])),
    decreases pending.len(),
{
    if i < pending.len() - 1 {
        lemma_pending_result_at(pending.drop_last(), pid, name, key, i);
    }
}

/// If no pending write touches the key, the pending scan reports nothing.
proof fn lemma_pending_result_none(
    pending: Seq<PendingWrite>,
    pid: ProgramIdV,
    name: Seq<u8>,
    key: PlaintextV,
)
    requires
        forall|j: int|
            0 <= j < pending.len() ==> !spec_pending_touches(
                #[trigger] pending[j],
                pid,
                name,
                key,
            ),
    ensures
        spec_pending_result(pending, pid, name, key) is None,
    decreases pending.len(),
{
    if pending.len() > 0 {
        lemma_pending_result_none(pending.drop_last(), pid, name, key);
    }
}

impl FinalizeStore {
    /// Whether the mapping exists in confirmed storage.
    pub fn contains_mapping_confirmed(&self, program_id: &ProgramId, mapping_name: &Identifier) -> (r:
        bool)
        ensures
            r == spec_contains_mapping(self.mappings@, program_id@, mapping_name@),
    {
        let n = self.mappings.len();
        let mut j: usize = 0;
        while j < n
            invariant
                0 <= j <= n,
                n == self.mappings@.len(),
                forall|k: int|
                    0 <= k < j ==> !((#[trigger] self.mappings@[k]).program_id@ == program_id@
                        && self.mappings@[k].mapping_name@ == mapping_name@),
            decreases n - j,
        {
            if self.mappings[j].program_id.eq_id(program_id) && self.mappings[j].mapping_name
                .eq_name(mapping_name) {
                return true;
            }
            j = j + 1;
        }
        false
    }

    /// Reads the speculative view of the mapping at `key`: the latest pending
    /// write of the in-flight execution if there is one, else the confirmed
    /// value. `None` when the key is absent (or speculatively removed).
    #[verifier::loop_isolation(false)]
    pub fn get_value_speculative(
        &self,
        program_id: &ProgramId,
        mapping_name: &Identifier,
        key: &Plaintext,
    ) -> (r: Option<Value>)
        ensures
            ({
                let s = spec_get_speculative(*self, program_id@, mapping_name@, key@);
                match r {
                    Some(v) => s == Some(v@),
                    None => s is None,
                }
            }),
    {
        // Scan the write-ahead buffer backwards: the latest write wins.
        let mut j: usize = self.pending.len();
        while j > 0
            invariant
                0 <= j <= self.pending@.len(),
                forall|k: int|
                    j <= k < self.pending@.len() ==> !spec_pending_touches(
                        #[trigger] self.pending@[k],
                        program_id@,
                        mapping_name@,
                        key@,
                    ),
            decreases j,
        {
            j = j - 1;
            match &self.pending[j] {
                PendingWrite::Update { program_id: pid, mapping_name: name, key: k, value } => {
                    if pid.eq_id(program_id) && name.eq_name(mapping_name) && plaintext_eq(k, key) {
                        proof {
                            lemma_pending_result_at(
                                self.pending@,
                                program_id@,
                                mapping_name@,
                                key@,
                                j as int,
                            );
                        }
                        return Some(clone_value(value));
                    }
                },
                PendingWrite::Removal { program_id: pid, mapping_name: name, key: k } => {
                    if pid.eq_id(program_id) && name.eq_name(mapping_name) && plaintext_eq(k, key) {
                        proof {
                            lemma_pending_result_at(
                                self.pending@,
                                program_id@,
                                mapping_name@,
                                key@,
                                j as int,
                            );
                        }
                        return None;
                    }
                },
            }
        }
        proof {
            lemma_pending_result_none(self.pending@, program_id@, mapping_name@, key@);
        }

        // Fall back to confirmed state: the first mapping with the identity.
        let n = self.mappings.len();
        let mut m: usize = 0;
        while m < n
            invariant
                0 <= m <= n,
                forall|k: int|
                    0 <= k < m ==> !((#[trigger] self.mappings@[k]).program_id@ == program_id@
                        && self.mappings@[k].mapping_name@ == mapping_name@),
            decreases n - m,
        {
            if self.mappings[m].program_id.eq_id(program_id) && self.mappings[m].mapping_name
                .eq_name(mapping_name) {
                proof {
                    lemma_find_mapping_first(
                        self.mappings@,
                        program_id@,
                        mapping_name@,
                        m as int,
                    );
                }
                let entries = &self.mappings[m].entries;
                let en = entries.len();
                let mut e: usize = 0;
                while e < en
                    invariant
                        0 <= e <= en,
                        en == entries@.len(),
                        entries@ == self.mappings@[m as int].entries@,
                        forall|k: int| 0 <= k < e ==> (#[trigger] entries@[k]).0@ != key@,
                    decreases en - e,
                {
                    if plaintext_eq(&entries[e].0, key) {
                        proof {
                            lemma_lookup_entries_first(entries@, key@, e as int);
                        }
                        return Some(clone_value(&entries[e].1));
                    }
                    e = e + 1;
                }
                proof {
                    lemma_lookup_entries(entries@, key@);
                }
                return None;
            }
            m = m + 1;
        }
        proof {
            lemma_find_mapping(self.mappings@, program_id@, mapping_name@);
        }
        None
    }

    /// Buffers a speculative write of `value` under `key`. The write becomes
    /// visible to every later speculative read of the same key in this
    /// execution, and leaves every other key's view unchanged.
    pub fn insert_speculative(
        &mut self,
        program_id: ProgramId,
        mapping_name: Identifier,
        key: Plaintext,
        value: Value,
    )
        ensures
            final(self).mappings@ == old(self).mappings@,
            spec_get_speculative(*final(self), program_id@, mapping_name@, key@) == Some(value@),
            forall|pid: ProgramIdV, name: Seq<u8>, k: PlaintextV|
                !(pid == program_id@ && name == mapping_name@ && k == key@)
                    ==> #[trigger] spec_get_speculative(*final(self), pid, name, k)
                    == spec_get_speculative(*old(self), pid, name, k),
    {
        let ghost keyv = key@;
        let ghost valuev = value@;
        self.pending.push(PendingWrite::Update { program_id, mapping_name, key, value });
        proof {
            assert(self.pending@.last() == PendingWrite::Update {
                program_id,
                mapping_name,
                key,
                value,
            });
            assert forall|pid: ProgramIdV, name: Seq<u8>, k: PlaintextV|
                !(pid == program_id@ && name == mapping_name@ && k == keyv)
                    implies #[trigger] spec_get_speculative(*self, pid, name, k)
                    == spec_get_speculative(*old(self), pid, name, k) by {
                assert(self.pending@.drop_last() =~= old(self).pending@);
            }
        }
    }

    /// Buffers a speculative removal of `key`, with the same visibility as
    /// [`FinalizeStore::insert_speculative`].
    pub fn remove_speculative(
        &mut self,
        program_id: ProgramId,
        mapping_name: Identifier,
        key: Plaintext,
    )
        ensures
            final(self).mappings@ == old(self).mappings@,
            spec_get_speculative(*final(self), program_id@, mapping_name@, key@) is None,
            forall|pid: ProgramIdV, name: Seq<u8>, k: PlaintextV|
                !(pid == program_id@ && name == mapping_name@ && k == key@)
                    ==> #[trigger] spec_get_speculative(*final(self), pid, name, k)
                    == spec_get_speculative(*old(self), pid, name, k),
    {
        let ghost keyv = key@;
        self.pending.push(PendingWrite::Removal { program_id, mapping_name, key });
        proof {
            assert(self.pending@.last() == PendingWrite::Removal { program_id, mapping_name, key });
            assert forall|pid: ProgramIdV, name: Seq<u8>, k: PlaintextV|
                !(pid == program_id@ && name == mapping_name@ && k == keyv)
                    implies #[trigger] spec_get_speculative(*self, pid, name, k)
                    == spec_get_speculative(*old(self), pid, name, k) by {
                assert(self.pending@.drop_last() =~= old(self).pending@);
            }
        }
    }
}

} // verus!
