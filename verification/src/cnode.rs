//! Capability slots and CNode capability encoding.
//!
//! A CNode is a power-of-two-sized array of capability slots.  The base
//! slot index of the array, the number of index bits (`radix`), a guard
//! value and a guard length are encoded in the CNode capability itself:
//! `arg1` carries the guard length in bits 0..6 and the radix in bits
//! 6..12, `arg2` carries the guard value.

use vstd::prelude::*;

use crate::capability::{CapRaw, CapRights, ObjType};

verus! {

/// Maximum logical depth of a capability address (number of cap address bits).
pub const CNODE_DEPTH: u64 = 32;

/// Size in bytes of one capability slot, rounded to a power of two.
pub const CNODE_ENTRY_SZ: u64 = 32;

/// log2 of [`CNODE_ENTRY_SZ`].
pub const CNODE_ENTRY_BIT_SZ: u64 = 5;

/// A capability slot holding one [`CapRaw`].  Slots live inside a CNode's
/// slot array; their index in the slot arena is their identity in the
/// derivation chain.
#[derive(Debug, Clone, Copy)]
pub struct CNodeEntry {
    pub cap: CapRaw,
}

impl View for CNodeEntry {
    type V = CapRaw;

    open spec fn view(&self) -> CapRaw {
        self.cap
    }
}

impl CNodeEntry {
    /// A fresh empty slot.
    pub fn new() -> (r: Self)
        ensures
            r@ == CapRaw::spec_default(),
    {
        Self { cap: CapRaw::default() }
    }

    /// Read the stored capability.
    pub fn get(&self) -> (r: CapRaw)
        ensures
            r == self@,
    {
        self.cap
    }

    /// Overwrite the stored capability.
    pub fn set(&mut self, cap: CapRaw)
        ensures
            final(self)@ == cap,
    {
        self.cap = cap;
    }

    /// A slot is empty iff its type tag is null.
    pub fn is_null(&self) -> (r: bool)
        ensures
            r == (self@.cap_type == ObjType::NullObj),
    {
        matches!(self.cap.cap_type, ObjType::NullObj)
    }
}

/// Guard length of a CNode capability record (bits 0..6 of `arg1`).
pub open spec fn cnode_guard_bits(c: CapRaw) -> u64 {
    c.arg1 & 0x3f
}

/// Radix (index bits) of a CNode capability record (bits 6..12 of `arg1`).
pub open spec fn cnode_radix_bits(c: CapRaw) -> u64 {
    (c.arg1 >> 6) & 0x3f
}

/// Guard value of a CNode capability record.
pub open spec fn cnode_guard(c: CapRaw) -> u64 {
    c.arg2
}

/// Number of slots of the CNode's slot array.
pub open spec fn cnode_size(c: CapRaw) -> u64 {
    1u64 << cnode_radix_bits(c)
}

/// Packing the guard length and the radix into `arg1` round-trips.
proof fn lemma_cnode_arg1_pack(guard_sz: u64, radix_sz: u64)
    by (bit_vector)
    requires
        guard_sz < 64,
        radix_sz < 64,
    ensures
        (guard_sz | (radix_sz << 6)) & 0x3f == guard_sz,
        ((guard_sz | (radix_sz << 6)) >> 6) & 0x3f == radix_sz,
{
}

/// Both decoded width fields are always below 64.
proof fn lemma_cnode_fields_bounded(arg1: u64)
    by (bit_vector)
    ensures
        arg1 & 0x3f < 64,
        (arg1 >> 6) & 0x3f < 64,
{
}

/// A typed view of a slot known to hold a CNode capability.
#[derive(Debug, Clone, Copy)]
pub struct CNodeCap {
    pub cap: CapRaw,
}

impl CNodeCap {
    /// The capability record is well-formed for this type.
    pub open spec fn wf(self) -> bool {
        self.cap.cap_type == ObjType::CNode
    }

    /// Typed view of `slot`, if it holds a CNode capability.
    pub fn try_from_slot(slot: &CNodeEntry) -> (r: Option<Self>)
        ensures
            match r {
                Some(c) => slot@.cap_type == ObjType::CNode && c.cap == slot@ && c.wf(),
                None => slot@.cap_type != ObjType::CNode,
            },
    {
        let cap = slot.get();
        if matches!(cap.cap_type, ObjType::CNode) {
            Some(Self { cap })
        } else {
            None
        }
    }

    /// Guard length in bits.
    pub fn guard_bits(&self) -> (r: u64)
        ensures
            r == cnode_guard_bits(self.cap),
            r < 64,
    {
        proof {
            lemma_cnode_fields_bounded(self.cap.arg1);
        }
        self.cap.arg1 & 0x3f
    }

    /// Radix (index bits) of the slot array.
    pub fn radix_bits(&self) -> (r: u64)
        ensures
            r == cnode_radix_bits(self.cap),
            r < 64,
    {
        proof {
            lemma_cnode_fields_bounded(self.cap.arg1);
        }
        (self.cap.arg1 >> 6) & 0x3f
    }

    /// Number of slots of the slot array.
    pub fn size(&self) -> (r: u64)
        ensures
            r == cnode_size(self.cap),
    {
        let radix = self.radix_bits();
        1u64 << radix
    }

    /// Guard value, compared against the extracted window during lookup.
    pub fn guard(&self) -> (r: u64)
        ensures
            r == cnode_guard(self.cap),
    {
        self.cap.arg2
    }

    /// Base slot index of the slot array in the arena.
    pub fn base(&self) -> (r: u64)
        ensures
            r == self.cap.paddr,
    {
        self.cap.paddr
    }

    /// Creates a CNode capability record from an array of slots plus meta.
    ///
    /// `addr` is the base slot index of the array; the array spans
    /// `1 << radix_bits` slots.
    pub fn mint(addr: u64, radix_bits: u64, guard_bits: u64, guard: u64, rights: CapRights) -> (r:
        CapRaw)
        requires
            radix_bits + guard_bits <= CNODE_DEPTH,
        ensures
            r.cap_type == ObjType::CNode,
            r.paddr == addr,
            cnode_radix_bits(r) == radix_bits,
            cnode_guard_bits(r) == guard_bits,
            cnode_guard(r) == guard,
            r.rights == rights,
            r.mdb_prev is None,
            r.mdb_next is None,
    {
        proof {
            lemma_cnode_arg1_pack(guard_bits, radix_bits);
        }
        let arg1: u64 = guard_bits | (radix_bits << 6);
        let mut capraw = CapRaw::default_with_type(ObjType::CNode);
        capraw.paddr = addr;
        capraw.arg1 = arg1;
        capraw.arg2 = guard;
        capraw.rights = rights;
        capraw
    }
}

} // verus!
