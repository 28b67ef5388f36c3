//! Identifiers and program identities.
//!
//! An identifier is a short ASCII name (a mapping name, struct name, function
//! name or program name). Its byte length takes part in cost accounting, so it
//! is modeled as the sequence of its bytes.

use vstd::prelude::*;

use crate::VmError;

verus! {

/// Largest number of bytes an identifier may have.
pub const MAX_IDENTIFIER_BYTES: usize = 31;

/// Whether `b` may start an identifier: an ASCII lowercase letter.
pub open spec fn spec_is_ident_start(b: u8) -> bool {
    97 <= b <= 122
}

/// Whether `b` may continue an identifier: a lowercase letter, digit or `_`.
pub open spec fn spec_is_ident_byte(b: u8) -> bool {
    spec_is_ident_start(b) || (48 <= b <= 57) || b == 95
}

/// Whether `s` is a well-formed identifier name.
pub open spec fn spec_ident_wf(s: Seq<u8>) -> bool {
    &&& 1 <= s.len() <= MAX_IDENTIFIER_BYTES
    &&& spec_is_ident_start(s[0])
    &&& forall|i: int| 0 <= i < s.len() ==> spec_is_ident_byte(#[trigger] s[i])
}

/// A short ASCII name, e.g. a mapping, struct, function or program name.
#[derive(Debug, PartialEq, Eq, Hash)]
pub struct Identifier {
    /// The bytes of the name.
    pub bytes: Vec<u8>,
}

impl Clone for Identifier {
    fn clone(&self) -> (r: Self)
        ensures
            r@ == self@,
    {
        Identifier { bytes: crate::util::clone_bytes(&self.bytes) }
    }
}

impl View for Identifier {
    type V = Seq<u8>;

    open spec fn view(&self) -> Seq<u8> {
        self.bytes@
    }
}

impl Identifier {
    /// Whether the identifier holds a well-formed name.
    pub open spec fn wf(&self) -> bool {
        spec_ident_wf(self@)
    }

    /// Validates `bytes` as an identifier name and takes ownership of it.
    ///
    /// Returns `DecodeError` exactly when the name is empty, too long, or
    /// holds a byte outside the identifier alphabet.
    pub fn from_bytes(bytes: Vec<u8>) -> (r: Result<Identifier, VmError>)
        ensures
            match r {
                Ok(id) => id@ == bytes@ && id.wf(),
                Err(e) => e == VmError::DecodeError && !spec_ident_wf(bytes@),
            },
    {
        if bytes.len() < 1 || bytes.len() > MAX_IDENTIFIER_BYTES {
            return Err(VmError::DecodeError);
        }
        let first = bytes[0];
        if !(97 <= first && first <= 122) {
            return Err(VmError::DecodeError);
        }
        let mut i: usize = 0;
        while i < bytes.len()
            invariant
                0 <= i <= bytes@.len(),
                forall|j: int| 0 <= j < i ==> spec_is_ident_byte(#[trigger] bytes@[j]),
            decreases bytes@.len() - i,
        {
            let b = bytes[i];
            if !((97 <= b && b <= 122) || (48 <= b && b <= 57) || b == 95) {
                return Err(VmError::DecodeError);
            }
            i = i + 1;
        }
        Ok(Identifier { bytes })
    }

    /// The number of bytes in the name.
    pub fn len(&self) -> (r: usize)
        ensures
            r == self@.len(),
    {
        self.bytes.len()
    }

    /// A read-only view of the name's bytes.
    pub fn as_bytes(&self) -> (r: &Vec<u8>)
        ensures
            r@ == self@,
    {
        &self.bytes
    }

    /// Whether two identifiers hold the same name.
    pub fn eq_name(&self, other: &Identifier) -> (r: bool)
        ensures
            r == (self@ == other@),
    {
        if self.bytes.len() != other.bytes.len() {
            assert(self@.len() != other@.len());
            return false;
        }
        let n = self.bytes.len();
        let mut i: usize = 0;
        while i < n
            invariant
                0 <= i <= n,
                n == self@.len() && n == other@.len(),
                forall|j: int| 0 <= j < i ==> self@[j] == other@[j],
            decreases n - i,
        {
            if self.bytes[i] != other.bytes[i] {
                return false;
            }
            i = i + 1;
        }
        proof {
            assert(self@ =~= other@);
        }
        true
    }
}

/// The identity of a program: its name and its network suffix,
/// e.g. the name `token` under the network `aleo`.
#[derive(Debug, PartialEq, Eq, Hash)]
pub struct ProgramId {
    /// The program name.
    pub name: Identifier,
    /// The network suffix.
    pub network: Identifier,
}

/// The mathematical value of a [`ProgramId`].
#[verifier::ext_equal]
pub ghost struct ProgramIdV {
    /// The program name.
    pub name: Seq<u8>,
    /// The network suffix.
    pub network: Seq<u8>,
}

impl Clone for ProgramId {
    fn clone(&self) -> (r: Self)
        ensures
            r@ == self@,
    {
        ProgramId { name: self.name.clone(), network: self.network.clone() }
    }
}

impl View for ProgramId {
    type V = ProgramIdV;

    open spec fn view(&self) -> ProgramIdV {
        ProgramIdV { name: self.name@, network: self.network@ }
    }
}

impl ProgramId {
    /// Whether both parts are well-formed names.
    pub open spec fn wf(&self) -> bool {
        self.name.wf() && self.network.wf()
    }

    /// Whether two program identities are the same.
    pub fn eq_id(&self, other: &ProgramId) -> (r: bool)
        ensures
            r == (self@ == other@),
    {
        let r = self.name.eq_name(&other.name) && self.network.eq_name(&other.network);
        proof {
            if self.name@ == other.name@ && self.network@ == other.network@ {
                assert(self@ =~= other@);
            }
        }
        r
    }
}

/// A fully qualified resource locator: a program identity and the name of a
/// resource (a mapping, function or record) inside that program.
#[derive(Debug, PartialEq, Eq, Hash)]
pub struct Locator {
    /// The program that owns the resource.
    pub program_id: ProgramId,
    /// The resource name.
    pub resource: Identifier,
}

/// The mathematical value of a [`Locator`].
#[verifier::ext_equal]
pub ghost struct LocatorV {
    /// The program that owns the resource.
    pub program_id: ProgramIdV,
    /// The resource name.
    pub resource: Seq<u8>,
}

impl Clone for Locator {
    fn clone(&self) -> (r: Self)
        ensures
            r@ == self@,
    {
        Locator { program_id: self.program_id.clone(), resource: self.resource.clone() }
    }
}

impl View for Locator {
    type V = LocatorV;

    open spec fn view(&self) -> LocatorV {
        LocatorV { program_id: self.program_id@, resource: self.resource@ }
    }
}

impl Locator {
    /// Whether all parts are well-formed names.
    pub open spec fn wf(&self) -> bool {
        self.program_id.wf() && self.resource.wf()
    }
}

} // verus!
