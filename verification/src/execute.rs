//! The finalize command executor for the mapping read command `get`:
//! resolves the mapping against the current program, loads the key from the
//! registers, reads the mapping store's speculative view, and assigns the
//! value to the destination register. Every failure aborts the command with
//! the register file and the store untouched.

use vstd::prelude::*;

use crate::command::{CallOperator, Get};
use crate::ident::{Identifier, ProgramId, ProgramIdV};
use crate::store::{
    spec_contains_mapping, spec_get_speculative, spec_load_plaintext, spec_store_register,
    spec_view_registers, FinalizeStore, RegisterFile,
};
use crate::types::Program;
use crate::value::{Value, ValueV};
use crate::VmError;

verus! {

/// The program identity and mapping name a mapping reference names: a
/// qualified locator names another program's mapping; a bare name is
/// resolved against the current program.
pub open spec fn spec_resolve_mapping(
    mapping: CallOperator,
    current: ProgramIdV,
) -> (ProgramIdV, Seq<u8>) {
    match mapping {
        CallOperator::Locator(loc) => (loc.program_id@, loc.resource@),
        CallOperator::Resource(name) => (current, name@),
    }
}

/// The outcome of one `get` command: the register bank after storing the
/// value found under the key, or the error that aborts it. The mapping must
/// exist in confirmed storage; the key must load as a plaintext; the key
/// must be present in the speculative view (there is no default for `get`);
/// and the stored value must be a plaintext, never a record or future.
pub open spec fn spec_get_finalize(
    get: Get,
    current: ProgramIdV,
    store: FinalizeStore,
    regs: Seq<Option<ValueV>>,
    block_height: u32,
    network_id: u16,
) -> Result<Seq<Option<ValueV>>, VmError> {
    let resolved = spec_resolve_mapping(get.mapping, current);
    if !spec_contains_mapping(store.mappings@, resolved.0, resolved.1) {
        Err(VmError::SchemaError)
    } else {
        match spec_load_plaintext(regs, block_height, network_id, get.key) {
            Err(e) => Err(e),
            Ok(key) => match spec_get_speculative(store, resolved.0, resolved.1, key) {
                None => Err(VmError::NotFoundError),
                Some(ValueV::Record(_)) => Err(VmError::TypeMismatchError),
                Some(ValueV::Future(_)) => Err(VmError::TypeMismatchError),
                Some(ValueV::Plaintext(p)) => spec_store_register(
                    regs,
                    get.destination,
                    ValueV::Plaintext(p),
                ),
            },
        }
    }
}

impl Get {
    /// Finalizes the command: reads the mapping's speculative view at the
    /// key and stores the value into the destination register. Any failure
    /// (mapping absent from storage, key unloadable, key absent, stored
    /// value not a plaintext, destination unusable) aborts the command with
    /// the register file unchanged; the store is never written.
    pub fn finalize(
        &self,
        stack: &Program,
        store: &FinalizeStore,
        registers: &mut RegisterFile,
    ) -> (r: Result<(), VmError>)
        ensures
            ({
                let s = spec_get_finalize(
                    *self,
                    stack.id@,
                    *store,
                    spec_view_registers(old(registers).registers@),
                    old(registers).block_height,
                    old(registers).network_id,
                );
                match r {
                    Ok(()) => {
                        &&& s is Ok
                        &&& spec_view_registers(final(registers).registers@) == s->Ok_0
                        &&& final(registers).block_height == old(registers).block_height
                        &&& final(registers).network_id == old(registers).network_id
                    },
                    Err(e) => s == Err::<Seq<Option<ValueV>>, VmError>(e) && *final(registers)
                        == *old(registers),
                }
            }),
    {
        // Determine the program ID and mapping name.
        let resolved: (&ProgramId, &Identifier) = match &self.mapping {
            CallOperator::Locator(locator) => (&locator.program_id, &locator.resource),
            CallOperator::Resource(mapping_name) => (&stack.id, mapping_name),
        };
        let (program_id, mapping_name) = resolved;

        // Ensure the mapping exists in storage.
        if !store.contains_mapping_confirmed(program_id, mapping_name) {
            return Err(VmError::SchemaError);
        }

        // Load the operand as a plaintext.
        let key = match registers.load_plaintext(&self.key) {
            Ok(key) => key,
            Err(e) => {
                return Err(e);
            },
        };

        // Retrieve the value from storage as a plaintext: a key that does
        // not exist has no default here, and records and futures cannot be
        // read with `get`.
        let value = match store.get_value_speculative(program_id, mapping_name, &key) {
            Some(Value::Plaintext(plaintext)) => Value::Plaintext(plaintext),
            Some(Value::Record(_)) => {
                return Err(VmError::TypeMismatchError);
            },
            Some(Value::Future(_)) => {
                return Err(VmError::TypeMismatchError);
            },
            None => {
                return Err(VmError::NotFoundError);
            },
        };

        // Assign the value to the destination register.
        registers.store(&self.destination, value)
    }
}

} // verus!
