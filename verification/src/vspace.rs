//! Virtual-memory attribute types and page sizes.
//!
//! The page-table model itself lives in [`crate::ptable`]; this module
//! holds the constants and the attribute types shared between frame
//! capabilities and the table walker.

use vstd::prelude::*;

verus! {

pub const PAGE_SIZE_4K: u64 = 4096;

pub const PAGE_SIZE_2M: u64 = 2097152;

pub const PAGE_SIZE_1G: u64 = 1073741824;

pub const PAGE_BITS_4K: u64 = 12;

pub const PAGE_BITS_2M: u64 = 21;

pub const PAGE_BITS_1G: u64 = 30;

pub const ENTRIES_PER_TABLE: usize = 512;

pub const ENTRIES_BITS: u64 = 9;

/// Right to read through a mapping.
pub const VM_READ: u8 = 0x01;

/// Right to write through a mapping.
pub const VM_WRITE: u8 = 0x02;

/// Right to execute from a mapping.
pub const VM_EXECUTE: u8 = 0x04;

/// Mapping reserved to the kernel.
pub const VM_KERNEL: u8 = 0x08;

/// Virtual memory access rights.
#[derive(Debug, Clone, Copy, PartialEq, Eq, Structural)]
pub struct VMRights {
    pub bits: u8,
}

impl VMRights {
    /// No access at all.
    pub fn none() -> (r: VMRights)
        ensures
            r.bits == 0,
    {
        VMRights { bits: 0 }
    }

    /// Read and write access.
    pub fn rw() -> (r: VMRights)
        ensures
            r.bits == (VM_READ | VM_WRITE),
    {
        VMRights { bits: VM_READ | VM_WRITE }
    }

    /// Whether every right in `other` is present in `self`.
    pub open spec fn spec_contains(self, other: VMRights) -> bool {
        self.bits & other.bits == other.bits
    }

    /// Whether every right in `other` is present in `self`.
    pub fn contains(self, other: VMRights) -> (r: bool)
        ensures
            r == self.spec_contains(other),
    {
        self.bits & other.bits == other.bits
    }

    /// Union of two rights sets.
    pub fn union(self, other: VMRights) -> (r: VMRights)
        ensures
            r.bits == self.bits | other.bits,
    {
        VMRights { bits: self.bits | other.bits }
    }
}

/// Cache policy for memory mappings.
#[derive(Debug, Clone, Copy, PartialEq, Eq, Structural)]
pub enum CachePolicy {
    WriteBack,
    WriteThrough,
    Uncacheable,
    WriteCombining,
}

impl CachePolicy {
    /// Numeric encoding stored in the frame capability bits.
    pub open spec fn spec_code(self) -> u64 {
        match self {
            CachePolicy::WriteBack => 0,
            CachePolicy::WriteThrough => 1,
            CachePolicy::Uncacheable => 2,
            CachePolicy::WriteCombining => 3,
        }
    }

    /// Numeric encoding stored in the frame capability bits.
    pub fn code(self) -> (r: u64)
        ensures
            r == self.spec_code(),
            r < 4,
    {
        match self {
            CachePolicy::WriteBack => 0,
            CachePolicy::WriteThrough => 1,
            CachePolicy::Uncacheable => 2,
            CachePolicy::WriteCombining => 3,
        }
    }

    /// The policy encoded by a 3-bit field; unknown codes fall back to
    /// write-back.
    pub open spec fn spec_decode(code: u64) -> CachePolicy {
        if code == 0 {
            CachePolicy::WriteBack
        } else if code == 1 {
            CachePolicy::WriteThrough
        } else if code == 2 {
            CachePolicy::Uncacheable
        } else if code == 3 {
            CachePolicy::WriteCombining
        } else {
            CachePolicy::WriteBack
        }
    }

    /// The policy encoded by a 3-bit field.
    pub fn decode(code: u64) -> (r: CachePolicy)
        ensures
            r == CachePolicy::spec_decode(code),
    {
        if code == 0 {
            CachePolicy::WriteBack
        } else if code == 1 {
            CachePolicy::WriteThrough
        } else if code == 2 {
            CachePolicy::Uncacheable
        } else if code == 3 {
            CachePolicy::WriteCombining
        } else {
            CachePolicy::WriteBack
        }
    }
}

impl Default for CachePolicy {
    fn default() -> (r: Self)
        ensures
            r == CachePolicy::WriteBack,
    {
        CachePolicy::WriteBack
    }
}

/// VM attributes for a mapping.
#[derive(Debug, Clone, Copy, PartialEq, Eq, Structural)]
pub struct VMAttributes {
    pub rights: VMRights,
    pub cache: CachePolicy,
    /// Global page (not flushed on CR3 switch).
    pub global: bool,
    /// User accessible.
    pub user: bool,
}

impl VMAttributes {
    /// Create kernel-only attributes.
    pub fn kernel(rights: VMRights) -> (r: Self)
        ensures
            r == (VMAttributes {
                rights,
                cache: CachePolicy::WriteBack,
                global: true,
                user: false,
            }),
    {
        Self { rights, cache: CachePolicy::WriteBack, global: true, user: false }
    }

    /// Create user attributes.
    pub fn user(rights: VMRights) -> (r: Self)
        ensures
            r == (VMAttributes {
                rights,
                cache: CachePolicy::WriteBack,
                global: false,
                user: true,
            }),
    {
        Self { rights, cache: CachePolicy::WriteBack, global: false, user: true }
    }

    /// Create device (uncacheable) attributes.
    pub fn device() -> (r: Self)
        ensures
            r == (VMAttributes {
                rights: VMRights { bits: VM_READ | VM_WRITE },
                cache: CachePolicy::Uncacheable,
                global: false,
                user: false,
            }),
    {
        Self {
            rights: VMRights { bits: VM_READ | VM_WRITE },
            cache: CachePolicy::Uncacheable,
            global: false,
            user: false,
        }
    }
}

impl Default for VMAttributes {
    fn default() -> (r: Self)
        ensures
            r == (VMAttributes {
                rights: VMRights { bits: VM_READ | VM_WRITE },
                cache: CachePolicy::WriteBack,
                global: false,
                user: true,
            }),
    {
        Self {
            rights: VMRights { bits: VM_READ | VM_WRITE },
            cache: CachePolicy::WriteBack,
            global: false,
            user: true,
        }
    }
}

/// ASID (address-space identifier) for TLB tagging; ASID 0 is reserved.
pub type Asid = u16;

/// Maximum number of ASIDs supported.
pub const ASID_MAX: u16 = 0xffff;

/// ASID field of a VSpace capability record (bits 0..16 of `arg1`).
pub open spec fn vspace_asid(c: crate::capability::CapRaw) -> u64 {
    c.arg1 & 0xffff
}

/// Active flag of a VSpace capability record (bit 16 of `arg1`): set
/// while the current CR3 matches this root.
pub open spec fn vspace_is_active(c: crate::capability::CapRaw) -> bool {
    (c.arg1 >> 16) & 1 != 0
}

/// Packing the ASID into `arg1` round-trips and leaves the root inactive.
proof fn lemma_vspace_arg1_pack(asid: u64)
    by (bit_vector)
    requires
        asid <= 0xffff,
    ensures
        asid & 0xffff == asid,
        (asid >> 16) & 1 == 0,
{
}

/// Flipping the active bit leaves the ASID field alone.
proof fn lemma_vspace_active_set(arg1: u64)
    by (bit_vector)
    ensures
        (arg1 | (1u64 << 16)) & 0xffff == arg1 & 0xffff,
        ((arg1 | (1u64 << 16)) >> 16) & 1 == 1,
        (arg1 & !(1u64 << 16)) & 0xffff == arg1 & 0xffff,
        ((arg1 & !(1u64 << 16)) >> 16) & 1 == 0,
{
}

/// A typed view of a VSpace (page-table root) capability record.
#[derive(Debug, Clone, Copy)]
pub struct VSpaceCap {
    pub cap: crate::capability::CapRaw,
}

impl VSpaceCap {
    /// The capability record is well-formed for this type.
    pub open spec fn wf(self) -> bool {
        self.cap.cap_type == crate::capability::ObjType::VSpace
    }

    /// Create a VSpace capability for a PML4 at `pml4_paddr`.
    pub fn mint(pml4_paddr: u64, asid: u16, rights: crate::capability::CapRights) -> (r:
        crate::capability::CapRaw)
        ensures
            r.cap_type == crate::capability::ObjType::VSpace,
            r.paddr == pml4_paddr,
            vspace_asid(r) == asid as u64,
            !vspace_is_active(r),
            r.rights == rights,
            r.mdb_prev is None,
            r.mdb_next is None,
    {
        proof {
            lemma_vspace_arg1_pack(asid as u64);
        }
        let mut capraw = crate::capability::CapRaw::default_with_type(
            crate::capability::ObjType::VSpace,
        );
        capraw.paddr = pml4_paddr;
        capraw.arg1 = asid as u64;
        capraw.arg2 = 0;
        capraw.rights = rights;
        capraw
    }

    /// The ASID this root is tagged with.
    pub fn asid(&self) -> (r: u64)
        ensures
            r == vspace_asid(self.cap),
            r <= 0xffff,
    {
        proof {
            lemma_vspace_asid_bounded(self.cap.arg1);
        }
        self.cap.arg1 & 0xffff
    }

    /// Whether this root is the one currently loaded.
    pub fn is_active(&self) -> (r: bool)
        ensures
            r == vspace_is_active(self.cap),
    {
        (self.cap.arg1 >> 16) & 1 != 0
    }

    /// Flip the active flag on context switch.
    pub fn set_active(&mut self, active: bool)
        ensures
            vspace_is_active(final(self).cap) == active,
            vspace_asid(final(self).cap) == vspace_asid(old(self).cap),
            final(self).cap.paddr == old(self).cap.paddr,
            final(self).cap.cap_type == old(self).cap.cap_type,
            final(self).cap.rights == old(self).cap.rights,
            final(self).cap.arg2 == old(self).cap.arg2,
            final(self).cap.mdb_prev == old(self).cap.mdb_prev,
            final(self).cap.mdb_next == old(self).cap.mdb_next,
    {
        proof {
            lemma_vspace_active_set(self.cap.arg1);
        }
        let mut raw = self.cap;
        if active {
            raw.arg1 = raw.arg1 | (1u64 << 16);
        } else {
            raw.arg1 = raw.arg1 & !(1u64 << 16);
        }
        self.cap = raw;
    }

    /// Physical address of the PML4 root table.
    pub fn root_paddr(&self) -> (r: u64)
        ensures
            r == self.cap.paddr,
    {
        self.cap.paddr
    }

    /// Describe this capability in the caller's message registers.
    pub fn identify(&self, tcb: &mut crate::tcb::Tcb) -> (r: u64)
        requires
            old(tcb).wf(),
        ensures
            r == 4,
            final(tcb).wf(),
            final(tcb).context.registers@ == old(tcb).context.registers@.update(
                crate::tcb::MR1 as int,
                crate::capability::ObjType::VSpace.spec_code(),
            ).update(crate::tcb::MR2 as int, self.cap.paddr).update(
                crate::tcb::MR3 as int,
                vspace_asid(self.cap),
            ).update(
                crate::tcb::MR4 as int,
                if vspace_is_active(self.cap) {
                    1u64
                } else {
                    0u64
                },
            ),
    {
        tcb.set_mr(crate::tcb::MR1, crate::capability::ObjType::VSpace.code());
        tcb.set_mr(crate::tcb::MR2, self.cap.paddr);
        tcb.set_mr(crate::tcb::MR3, self.asid());
        tcb.set_mr(
            crate::tcb::MR4,
            if self.is_active() {
                1
            } else {
                0
            },
        );
        4
    }
}

/// The ASID field always fits 16 bits.
proof fn lemma_vspace_asid_bounded(arg1: u64)
    by (bit_vector)
    ensures
        arg1 & 0xffff <= 0xffff,
{
}

} // verus!
