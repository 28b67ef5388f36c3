//! Deterministic execution and cost-metering core for on-chain finalize logic.
//!
//! The crate models a register-based virtual machine that mutates persistent
//! key-value mappings, together with the integer cost model that prices every
//! finalize command in microcredits, the canonical binary codec for tagged
//! program data types, and the canonical ordering of transitions inside an
//! authorization bundle.

use vstd::prelude::*;

pub mod authorization;
pub mod codec;
pub mod command;
pub mod cost;
pub mod execute;
pub mod fees;
pub mod ident;
pub mod size;
pub mod store;
pub mod types;
pub mod util;
pub mod value;

verus! {

/// The error kinds that any operation of this crate can surface.
///
/// Every error aborts the enclosing operation as a whole: there is no partial
/// sum, partial decode or partial state mutation.
#[derive(Clone, Copy, Debug, PartialEq, Eq, Structural)]
pub enum VmError {
    /// A struct, mapping or program that the operation needs is not declared.
    SchemaError,
    /// An opcode was given the wrong number of operands.
    ArityError,
    /// An opcode that is never permitted inside finalize logic.
    UnsupportedInFinalizeError,
    /// A value or type of the wrong shape (e.g. arithmetic on a struct).
    TypeMismatchError,
    /// Checked arithmetic overflowed while accumulating a cost.
    OverflowError,
    /// A mapping entry or a program looked up for a transition is absent.
    NotFoundError,
    /// A request and the transitions of an authorization do not match up.
    ConsistencyError,
    /// An unknown tag byte or a truncated payload during binary decode.
    DecodeError,
}

} // verus!
