//! Raw capability records.
//!
//! A capability is a 32-byte record carrying a type tag, a rights bitset,
//! the physical address of the referenced object, two type-specific payload
//! words whose bit layout is fixed per type, and two optional links into
//! the derivation chain (the MDB).  Here the links are indices into the
//! slot arena of [`crate::cspace::SlotArena`], which stands in for slot
//! memory addresses.

use vstd::prelude::*;

verus! {

/// Kernel object type discriminating the tagged capability union.
#[derive(Debug, Clone, Copy, PartialEq, Eq, Structural)]
pub enum ObjType {
    NullObj,
    Untyped,
    CNode,
    Tcb,
    Frame,
    Endpoint,
    Reply,
    VSpace,
    Interrupt,
}

impl ObjType {
    /// The stable numeric tag of this object type.
    pub open spec fn spec_code(self) -> u64 {
        match self {
            ObjType::NullObj => 0,
            ObjType::Untyped => 1,
            ObjType::CNode => 2,
            ObjType::Tcb => 3,
            ObjType::Frame => 4,
            ObjType::Endpoint => 5,
            ObjType::Reply => 6,
            ObjType::VSpace => 7,
            ObjType::Interrupt => 8,
        }
    }

    /// Numeric tag, as reported by the identify operations.
    pub fn code(self) -> (r: u64)
        ensures
            r == self.spec_code(),
    {
        match self {
            ObjType::NullObj => 0,
            ObjType::Untyped => 1,
            ObjType::CNode => 2,
            ObjType::Tcb => 3,
            ObjType::Frame => 4,
            ObjType::Endpoint => 5,
            ObjType::Reply => 6,
            ObjType::VSpace => 7,
            ObjType::Interrupt => 8,
        }
    }
}

impl Default for ObjType {
    fn default() -> (r: Self)
        ensures
            r == ObjType::NullObj,
    {
        ObjType::NullObj
    }
}

/// Right to read the object (or its frame contents).
pub const RIGHT_READ: u8 = 0x01;

/// Right to write the object.
pub const RIGHT_WRITE: u8 = 0x02;

/// Right to execute from a mapped frame.
pub const RIGHT_EXECUTE: u8 = 0x04;

/// Right to grant capabilities through an endpoint.
pub const RIGHT_GRANT: u8 = 0x08;

/// Right to issue control operations (retype, revoke).
pub const RIGHT_CONTROL: u8 = 0x10;

/// Right to send on an endpoint.
pub const RIGHT_SEND: u8 = 0x20;

/// Right to receive on an endpoint.
pub const RIGHT_RECEIVE: u8 = 0x40;

/// A bitset over the seven capability rights.
#[derive(Debug, Clone, Copy, PartialEq, Eq, Structural)]
pub struct CapRights {
    pub bits: u8,
}

impl CapRights {
    /// The empty rights set.
    pub fn none() -> (r: CapRights)
        ensures
            r.bits == 0,
    {
        CapRights { bits: 0 }
    }

    /// Rights set from a raw bit pattern.
    pub fn from_bits(bits: u8) -> (r: CapRights)
        ensures
            r.bits == bits,
    {
        CapRights { bits }
    }

    /// Whether every right in `other` is present in `self`.
    pub open spec fn spec_contains(self, other: CapRights) -> bool {
        self.bits & other.bits == other.bits
    }

    /// Whether every right in `other` is present in `self`.
    pub fn contains(self, other: CapRights) -> (r: bool)
        ensures
            r == self.spec_contains(other),
    {
        self.bits & other.bits == other.bits
    }

    /// Union of two rights sets.
    pub fn union(self, other: CapRights) -> (r: CapRights)
        ensures
            r.bits == self.bits | other.bits,
    {
        CapRights { bits: self.bits | other.bits }
    }

    /// Intersection of two rights sets; deriving a capability may only
    /// shrink its rights.
    pub fn intersect(self, other: CapRights) -> (r: CapRights)
        ensures
            r.bits == self.bits & other.bits,
    {
        CapRights { bits: self.bits & other.bits }
    }
}

/// Capability entry field definition.
#[derive(Debug, Clone, Copy)]
pub struct CapRaw {
    /// First type-specific payload word.
    pub arg1: u64,
    /// Second type-specific payload word.
    pub arg2: u64,
    /// Physical address of the referenced object.  For a CNode this is the
    /// base slot index of its slot array in the arena.
    pub paddr: u64,
    /// Type tag.
    pub cap_type: ObjType,
    /// Rights bitset.
    pub rights: CapRights,
    /// Previous entry in the derivation chain, as a slot index.
    pub mdb_prev: Option<usize>,
    /// Next entry in the derivation chain, as a slot index.
    pub mdb_next: Option<usize>,
}

impl CapRaw {
    /// The all-null capability record.
    pub open spec fn spec_default() -> CapRaw {
        CapRaw {
            arg1: 0,
            arg2: 0,
            paddr: 0,
            cap_type: ObjType::NullObj,
            rights: CapRights { bits: 0 },
            mdb_prev: None,
            mdb_next: None,
        }
    }

    /// New [`CapRaw`] default structure.
    pub fn default() -> (r: Self)
        ensures
            r == CapRaw::spec_default(),
    {
        Self {
            arg1: 0,
            arg2: 0,
            paddr: 0,
            cap_type: ObjType::NullObj,
            rights: CapRights { bits: 0 },
            mdb_prev: None,
            mdb_next: None,
        }
    }

    /// Create a new [`CapRaw`] with custom [`ObjType`].
    pub fn default_with_type(cap_type: ObjType) -> (r: Self)
        ensures
            r == (CapRaw { cap_type, ..CapRaw::spec_default() }),
    {
        let mut capraw = Self::default();
        capraw.cap_type = cap_type;
        capraw
    }
}

} // verus!
