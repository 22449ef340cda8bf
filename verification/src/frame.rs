//! Physical frame capabilities for memory management.
//!
//! A frame capability's first payload word packs the frame size (bits
//! 0..6), the device flag (bit 6), the cache policy (bits 7..10) and the
//! mapped ASID (bits 10..26); the second payload word holds the mapped
//! virtual address.  The mapped ASID is zero iff the frame is unmapped,
//! which gives every frame at most one mapping at any time.

use vstd::prelude::*;

use crate::capability::{CapRaw, CapRights, ObjType, RIGHT_EXECUTE, RIGHT_READ, RIGHT_WRITE};
use crate::error::SysError;
use crate::vspace::{CachePolicy, VMAttributes, VMRights, VM_EXECUTE, VM_READ, VM_WRITE};

verus! {

/// Frame size variants supported by the architecture.
#[derive(Debug, Clone, Copy, PartialEq, Eq, Structural)]
pub enum FrameSize {
    /// 4 KiB page (12 bits).
    Small,
    /// 2 MiB large page (21 bits).
    Large,
    /// 1 GiB huge page (30 bits).
    Huge,
}

impl FrameSize {
    /// Returns the bit size (log2 of byte size).
    pub open spec fn spec_bits(self) -> u64 {
        match self {
            FrameSize::Small => 12,
            FrameSize::Large => 21,
            FrameSize::Huge => 30,
        }
    }

    /// Returns the bit size (log2 of byte size).
    pub fn bits(self) -> (r: u64)
        ensures
            r == self.spec_bits(),
    {
        match self {
            FrameSize::Small => 12,
            FrameSize::Large => 21,
            FrameSize::Huge => 30,
        }
    }

    /// Returns the size in bytes for this frame type.
    pub open spec fn spec_bytes(self) -> u64 {
        1u64 << self.spec_bits()
    }

    /// Returns the size in bytes for this frame type.
    pub fn bytes(self) -> (r: u64)
        ensures
            r == self.spec_bytes(),
    {
        let b = self.bits();
        1u64 << b
    }

    /// Try to create a [`FrameSize`] from bit size.
    pub fn from_bits(bits: u64) -> (r: Option<Self>)
        ensures
            match r {
                Some(fs) => (bits == 12 || bits == 21 || bits == 30) && fs.spec_bits() == bits,
                None => bits != 12 && bits != 21 && bits != 30,
            },
    {
        if bits == 12 {
            Some(Self::Small)
        } else if bits == 21 {
            Some(Self::Large)
        } else if bits == 30 {
            Some(Self::Huge)
        } else {
            None
        }
    }

    /// Returns the alignment mask for this frame size.
    pub fn align_mask(self) -> (r: u64)
        ensures
            r == self.spec_bytes() - 1,
    {
        proof {
            crate::cspace::lemma_shl1_at_least_one(self.spec_bits());
        }
        self.bytes() - 1
    }

    /// An address is aligned iff its low `bits` bits are clear.
    pub open spec fn spec_is_aligned(self, addr: u64) -> bool {
        addr & (self.spec_bytes() - 1) as u64 == 0
    }

    /// Check if an address is properly aligned for this frame size.
    pub fn is_aligned(self, addr: u64) -> (r: bool)
        ensures
            r == self.spec_is_aligned(addr),
    {
        let m = self.align_mask();
        addr & m == 0
    }
}

impl Default for FrameSize {
    fn default() -> (r: Self)
        ensures
            r == FrameSize::Small,
    {
        FrameSize::Small
    }
}

/// Frame size field of a frame capability record (bits 0..6 of `arg1`).
pub open spec fn frame_size_bits(c: CapRaw) -> u64 {
    c.arg1 & 0x3f
}

/// Device flag of a frame capability record (bit 6 of `arg1`).
pub open spec fn frame_is_device(c: CapRaw) -> bool {
    (c.arg1 >> 6) & 1 != 0
}

/// Cache policy field of a frame capability record (bits 7..10 of `arg1`).
pub open spec fn frame_cache_code(c: CapRaw) -> u64 {
    (c.arg1 >> 7) & 7
}

/// Mapped ASID of a frame capability record (bits 10..26 of `arg1`);
/// zero iff the frame is unmapped.
pub open spec fn frame_mapped_asid(c: CapRaw) -> u64 {
    (c.arg1 >> 10) & 0xffff
}

/// Mapped virtual address of a frame capability record.
pub open spec fn frame_mapped_vaddr(c: CapRaw) -> u64 {
    c.arg2
}

/// A frame is mapped iff its recorded ASID is non-zero.
pub open spec fn frame_is_mapped(c: CapRaw) -> bool {
    frame_mapped_asid(c) != 0
}

/// The record a successful `set_mapped` writes: the ASID field replaced
/// and the virtual address recorded; everything else stands.
pub open spec fn frame_mapped_image(c: CapRaw, asid: u16, vaddr: u64) -> CapRaw {
    CapRaw {
        arg1: (c.arg1 & !(0xffffu64 << 10)) | ((asid as u64) << 10),
        arg2: vaddr,
        ..c
    }
}

/// The record `clear_mapped` writes: the ASID field and the recorded
/// address cleared; everything else stands.
pub open spec fn frame_cleared_image(c: CapRaw) -> CapRaw {
    CapRaw { arg1: c.arg1 & !(0xffffu64 << 10), arg2: 0, ..c }
}

/// The VM rights a frame capability's rights translate to.
pub open spec fn spec_vm_rights_of(r: CapRights) -> VMRights {
    VMRights {
        bits: (if r.spec_contains(CapRights { bits: RIGHT_READ }) {
            VM_READ
        } else {
            0
        }) | (if r.spec_contains(CapRights { bits: RIGHT_WRITE }) {
            VM_WRITE
        } else {
            0
        }) | (if r.spec_contains(CapRights { bits: RIGHT_EXECUTE }) {
            VM_EXECUTE
        } else {
            0
        }),
    }
}

/// The VM attributes a frame is mapped with.
pub open spec fn spec_vm_attributes(c: CapRaw, user: bool) -> VMAttributes {
    VMAttributes {
        rights: spec_vm_rights_of(c.rights),
        cache: CachePolicy::spec_decode(frame_cache_code(c)),
        global: false,
        user,
    }
}

/// Packing size, device flag and cache policy into `arg1` round-trips,
/// and leaves the mapped-ASID field zero.
proof fn lemma_frame_arg1_pack(sz: u64, dev: u64, cache: u64)
    by (bit_vector)
    requires
        sz < 64,
        dev < 2,
        cache < 8,
    ensures
        (sz | (dev << 6) | (cache << 7)) & 0x3f == sz,
        ((sz | (dev << 6) | (cache << 7)) >> 6) & 1 == dev,
        ((sz | (dev << 6) | (cache << 7)) >> 7) & 7 == cache,
        ((sz | (dev << 6) | (cache << 7)) >> 10) & 0xffff == 0,
{
}

/// Clearing the mapped-ASID field leaves the other fields alone.
proof fn lemma_frame_asid_clear(arg1: u64)
    by (bit_vector)
    ensures
        (arg1 & !(0xffffu64 << 10)) & 0x3f == arg1 & 0x3f,
        ((arg1 & !(0xffffu64 << 10)) >> 6) & 1 == (arg1 >> 6) & 1,
        ((arg1 & !(0xffffu64 << 10)) >> 7) & 7 == (arg1 >> 7) & 7,
        ((arg1 & !(0xffffu64 << 10)) >> 10) & 0xffff == 0,
{
}

/// Writing the mapped-ASID field leaves the other fields alone.
proof fn lemma_frame_asid_set(arg1: u64, asid: u64)
    by (bit_vector)
    requires
        asid <= 0xffff,
    ensures
        ((arg1 & !(0xffffu64 << 10)) | (asid << 10)) & 0x3f == arg1 & 0x3f,
        (((arg1 & !(0xffffu64 << 10)) | (asid << 10)) >> 6) & 1 == (arg1 >> 6) & 1,
        (((arg1 & !(0xffffu64 << 10)) | (asid << 10)) >> 7) & 7 == (arg1 >> 7) & 7,
        (((arg1 & !(0xffffu64 << 10)) | (asid << 10)) >> 10) & 0xffff == asid,
{
}

/// A typed view of a frame capability record.
#[derive(Debug, Clone, Copy)]
pub struct FrameCap {
    pub cap: CapRaw,
}

impl FrameCap {
    /// The capability record is well-formed for this type.
    pub open spec fn wf(self) -> bool {
        self.cap.cap_type == ObjType::Frame
    }

    /// Create a new frame capability.
    ///
    /// Device frames default to uncacheable, normal frames to
    /// write-back; the frame starts out unmapped.
    pub fn mint(paddr: u64, size: FrameSize, is_device: bool, rights: CapRights) -> (r: CapRaw)
        ensures
            r.cap_type == ObjType::Frame,
            r.paddr == paddr,
            frame_size_bits(r) == size.spec_bits(),
            frame_is_device(r) == is_device,
            frame_cache_code(r) == if is_device {
                CachePolicy::Uncacheable.spec_code()
            } else {
                CachePolicy::WriteBack.spec_code()
            },
            !frame_is_mapped(r),
            frame_mapped_vaddr(r) == 0,
            r.rights == rights,
            r.mdb_prev is None,
            r.mdb_next is None,
    {
        let cache = if is_device {
            CachePolicy::Uncacheable
        } else {
            CachePolicy::WriteBack
        };
        Self::mint_with_cache(paddr, size, is_device, cache, rights)
    }

    /// Create a frame capability with specific cache policy.
    pub fn mint_with_cache(
        paddr: u64,
        size: FrameSize,
        is_device: bool,
        cache: CachePolicy,
        rights: CapRights,
    ) -> (r: CapRaw)
        ensures
            r.cap_type == ObjType::Frame,
            r.paddr == paddr,
            frame_size_bits(r) == size.spec_bits(),
            frame_is_device(r) == is_device,
            frame_cache_code(r) == cache.spec_code(),
            !frame_is_mapped(r),
            frame_mapped_vaddr(r) == 0,
            r.rights == rights,
            r.mdb_prev is None,
            r.mdb_next is None,
    {
        let sz = size.bits();
        let dev: u64 = if is_device {
            1
        } else {
            0
        };
        let cc = cache.code();
        proof {
            lemma_frame_arg1_pack(sz, dev, cc);
        }
        let arg1 = sz | (dev << 6) | (cc << 7);
        let mut capraw = CapRaw::default_with_type(ObjType::Frame);
        capraw.paddr = paddr;
        capraw.arg1 = arg1;
        capraw.arg2 = 0;
        capraw.rights = rights;
        capraw
    }

    /// Get the frame size; an unknown size field reads as 4 KiB.
    pub fn size(&self) -> (r: FrameSize)
        ensures
            frame_size_bits(self.cap) == 12 || frame_size_bits(self.cap) == 21 || frame_size_bits(
                self.cap,
            ) == 30 ==> r.spec_bits() == frame_size_bits(self.cap),
            !(frame_size_bits(self.cap) == 12 || frame_size_bits(self.cap) == 21
                || frame_size_bits(self.cap) == 30) ==> r == FrameSize::Small,
    {
        let bits = self.cap.arg1 & 0x3f;
        match FrameSize::from_bits(bits) {
            Some(fs) => fs,
            None => FrameSize::Small,
        }
    }

    /// Get the frame size in bits (log2).
    pub fn size_bits(&self) -> (r: u64)
        ensures
            r == frame_size_bits(self.cap),
    {
        self.cap.arg1 & 0x3f
    }

    /// Check if this is device memory.
    pub fn is_device(&self) -> (r: bool)
        ensures
            r == frame_is_device(self.cap),
    {
        (self.cap.arg1 >> 6) & 1 != 0
    }

    /// Get the cache policy for this frame.
    pub fn cache_policy(&self) -> (r: CachePolicy)
        ensures
            r == CachePolicy::spec_decode(frame_cache_code(self.cap)),
    {
        let code = (self.cap.arg1 >> 7) & 7;
        CachePolicy::decode(code)
    }

    /// Get the mapped ASID (0 if unmapped).
    pub fn mapped_asid(&self) -> (r: u64)
        ensures
            r == frame_mapped_asid(self.cap),
    {
        (self.cap.arg1 >> 10) & 0xffff
    }

    /// Get the mapped virtual address (only valid if mapped).
    pub fn mapped_vaddr(&self) -> (r: u64)
        ensures
            r == frame_mapped_vaddr(self.cap),
    {
        self.cap.arg2
    }

    /// Check if this frame is currently mapped.
    pub fn is_mapped(&self) -> (r: bool)
        ensures
            r == frame_is_mapped(self.cap),
    {
        self.mapped_asid() != 0
    }

    /// Record that this frame has been mapped.
    ///
    /// Fails iff the frame is already mapped, which establishes the
    /// at-most-one-mapping invariant: a frame is mapped iff its ASID
    /// field is non-zero, and only one (asid, vaddr) pair is ever
    /// recorded at a time.  ASID zero is reserved, so a successful call
    /// always leaves the frame mapped.
    pub fn set_mapped(&mut self, asid: u16, vaddr: u64) -> (r: Result<(), SysError>)
        requires
            asid != 0,
        ensures
            match r {
                Ok(()) => {
                    &&& !frame_is_mapped(old(self).cap)
                    &&& final(self).cap == frame_mapped_image(old(self).cap, asid, vaddr)
                    &&& frame_is_mapped(final(self).cap)
                    &&& frame_mapped_asid(final(self).cap) == asid as u64
                    &&& frame_mapped_vaddr(final(self).cap) == vaddr
                    &&& frame_size_bits(final(self).cap) == frame_size_bits(old(self).cap)
                    &&& frame_is_device(final(self).cap) == frame_is_device(old(self).cap)
                    &&& frame_cache_code(final(self).cap) == frame_cache_code(old(self).cap)
                },
                Err(e) => {
                    &&& e == SysError::FrameAlreadyMapped
                    &&& frame_is_mapped(old(self).cap)
                    &&& *final(self) == *old(self)
                },
            },
    {
        if self.is_mapped() {
            return Err(SysError::FrameAlreadyMapped);
        }
        proof {
            lemma_frame_asid_set(self.cap.arg1, asid as u64);
        }
        let mut raw = self.cap;
        raw.arg1 = (raw.arg1 & !(0xffffu64 << 10)) | ((asid as u64) << 10);
        raw.arg2 = vaddr;
        self.cap = raw;
        Ok(())
    }

    /// Clear the mapping record, after the frame was unmapped from the
    /// page tables.
    pub fn clear_mapped(&mut self)
        ensures
            final(self).cap == frame_cleared_image(old(self).cap),
            !frame_is_mapped(final(self).cap),
            frame_mapped_vaddr(final(self).cap) == 0,
            frame_size_bits(final(self).cap) == frame_size_bits(old(self).cap),
            frame_is_device(final(self).cap) == frame_is_device(old(self).cap),
            frame_cache_code(final(self).cap) == frame_cache_code(old(self).cap),
    {
        proof {
            lemma_frame_asid_clear(self.cap.arg1);
        }
        let mut raw = self.cap;
        raw.arg1 = raw.arg1 & !(0xffffu64 << 10);
        raw.arg2 = 0;
        self.cap = raw;
    }

    /// Convert capability rights to VM rights for mapping.
    pub fn vm_rights_from_cap(&self) -> (r: VMRights)
        ensures
            r == spec_vm_rights_of(self.cap.rights),
            r.spec_contains(VMRights { bits: VM_READ }) == self.cap.rights.spec_contains(
                CapRights { bits: RIGHT_READ },
            ),
            r.spec_contains(VMRights { bits: VM_WRITE }) == self.cap.rights.spec_contains(
                CapRights { bits: RIGHT_WRITE },
            ),
            r.spec_contains(VMRights { bits: VM_EXECUTE }) == self.cap.rights.spec_contains(
                CapRights { bits: RIGHT_EXECUTE },
            ),
    {
        let cap_rights = self.cap.rights;
        let rb: u8 = if cap_rights.contains(CapRights { bits: RIGHT_READ }) {
            VM_READ
        } else {
            0
        };
        let wb: u8 = if cap_rights.contains(CapRights { bits: RIGHT_WRITE }) {
            VM_WRITE
        } else {
            0
        };
        let eb: u8 = if cap_rights.contains(CapRights { bits: RIGHT_EXECUTE }) {
            VM_EXECUTE
        } else {
            0
        };
        proof {
            lemma_vm_rights_pack(rb, wb, eb);
        }
        VMRights { bits: rb | wb | eb }
    }

    /// Describe this capability in the caller's message registers.
    pub fn identify(&self, tcb: &mut crate::tcb::Tcb) -> (r: u64)
        requires
            old(tcb).wf(),
        ensures
            r == 6,
            final(tcb).wf(),
            final(tcb).context.registers@ == old(tcb).context.registers@.update(
                crate::tcb::MR1 as int,
                ObjType::Frame.spec_code(),
            ).update(crate::tcb::MR2 as int, self.cap.paddr).update(
                crate::tcb::MR3 as int,
                frame_size_bits(self.cap),
            ).update(
                crate::tcb::MR4 as int,
                if frame_is_device(self.cap) {
                    1u64
                } else {
                    0u64
                },
            ).update(crate::tcb::MR5 as int, frame_mapped_vaddr(self.cap)).update(
                crate::tcb::MR6 as int,
                frame_mapped_asid(self.cap),
            ),
    {
        tcb.set_mr(crate::tcb::MR1, ObjType::Frame.code());
        tcb.set_mr(crate::tcb::MR2, self.cap.paddr);
        tcb.set_mr(crate::tcb::MR3, self.size_bits());
        tcb.set_mr(
            crate::tcb::MR4,
            if self.is_device() {
                1
            } else {
                0
            },
        );
        tcb.set_mr(crate::tcb::MR5, self.mapped_vaddr());
        tcb.set_mr(crate::tcb::MR6, self.mapped_asid());
        6
    }

    /// Build VM attributes for mapping this frame.
    pub fn vm_attributes(&self, user: bool) -> (r: VMAttributes)
        ensures
            r == spec_vm_attributes(self.cap, user),
            r.cache == CachePolicy::spec_decode(frame_cache_code(self.cap)),
            r.user == user,
            !r.global,
    {
        VMAttributes {
            rights: self.vm_rights_from_cap(),
            cache: self.cache_policy(),
            global: false,
            user,
        }
    }
}

/// A rights set built from the three low flag bits answers containment
/// queries for each flag independently.
proof fn lemma_vm_rights_pack(rb: u8, wb: u8, eb: u8)
    by (bit_vector)
    requires
        rb == 0 || rb == 1,
        wb == 0 || wb == 2,
        eb == 0 || eb == 4,
    ensures
        ((rb | wb | eb) & 1 == 1) == (rb == 1),
        ((rb | wb | eb) & 2 == 2) == (wb == 2),
        ((rb | wb | eb) & 4 == 4) == (eb == 4),
{
}

} // verus!
