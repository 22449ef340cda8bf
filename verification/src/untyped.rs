//! Untyped memory objects and retype operations.
//!
//! An untyped capability describes a physically contiguous span
//! `[paddr, paddr + 2^bit_size)` plus a monotonic free offset: `arg1`
//! holds the device flag, `arg2` packs the bit size (bits 0..6) and the
//! free offset (bits 6..64).  Retype carves typed objects out of the
//! span, bumps the offset, and never hands the memory back; only a
//! revoke on the untyped's slot reclaims the derived capabilities.
//!
//! A CNode minted by retype gets its slot array appended to the slot
//! arena, which models the zeroed object memory; its capability's
//! address field is the base index of that array.  Every other minted
//! capability carries the physical address of its object.

use vstd::prelude::*;

use crate::capability::{CapRaw, CapRights, ObjType, RIGHT_CONTROL, RIGHT_READ, RIGHT_WRITE};
use crate::cnode::{CNodeCap, CNODE_DEPTH, CNODE_ENTRY_BIT_SZ};
use crate::cnode::{cnode_guard, cnode_guard_bits, cnode_radix_bits};
use crate::cspace::{link_ok, link_target, links_wf, rank_ok, SlotArena};
use crate::error::SysError;
use crate::frame::{frame_is_device, frame_is_mapped, frame_size_bits, FrameCap, FrameSize};
use crate::tcb::TcbCap;
use crate::vspace::{vspace_asid, vspace_is_active, VSpaceCap, PAGE_BITS_4K};

verus! {

/// Smallest untyped object, in bits.
pub const UNTYPED_MIN_BIT_SIZE: u64 = 4;

/// Largest untyped object, in bits.
pub const UNTYPED_MAX_BIT_SIZE: u64 = 48;

/// Bit size of an untyped capability record (bits 0..6 of `arg2`).
pub open spec fn untyped_bit_size(c: CapRaw) -> u64 {
    c.arg2 & 0x3f
}

/// Free offset of an untyped capability record (bits 6..64 of `arg2`).
pub open spec fn untyped_free_offset(c: CapRaw) -> u64 {
    c.arg2 >> 6
}

/// Device flag of an untyped capability record.
pub open spec fn untyped_is_device(c: CapRaw) -> bool {
    c.arg1 != 0
}

/// Size in bytes of an untyped capability record.
pub open spec fn untyped_size(c: CapRaw) -> u64 {
    1u64 << untyped_bit_size(c)
}

/// Packing the bit size and the free offset into `arg2` round-trips.
proof fn lemma_untyped_arg2_pack(arg2: u64, off: u64)
    by (bit_vector)
    requires
        off < 0x0400000000000000,
    ensures
        ((arg2 & 0x3f) | (off << 6)) & 0x3f == arg2 & 0x3f,
        ((arg2 & 0x3f) | (off << 6)) >> 6 == off,
{
}

/// The decoded fields are bounded: the bit size fits 6 bits and the
/// free offset fits 58 bits.
proof fn lemma_untyped_fields_bounded(arg2: u64)
    by (bit_vector)
    ensures
        arg2 & 0x3f < 64,
        arg2 >> 6 < 0x0400000000000000,
        arg2 < 64 ==> arg2 >> 6 == 0,
{
}

/// A typed view of an untyped capability record.
#[derive(Debug, Clone, Copy)]
pub struct UntypedCap {
    pub cap: CapRaw,
}

impl UntypedCap {
    /// The capability record is well-formed for this type.
    pub open spec fn wf(self) -> bool {
        self.cap.cap_type == ObjType::Untyped
    }

    /// Create an untyped capability for the span at `paddr`.
    pub fn mint(paddr: u64, bit_sz: u64, is_device: bool) -> (r: CapRaw)
        requires
            bit_sz < 64,
        ensures
            r.cap_type == ObjType::Untyped,
            r.paddr == paddr,
            untyped_bit_size(r) == bit_sz,
            untyped_free_offset(r) == 0,
            untyped_is_device(r) == is_device,
            r.rights == (CapRights { bits: RIGHT_CONTROL }),
            r.mdb_prev is None,
            r.mdb_next is None,
    {
        proof {
            lemma_untyped_fields_bounded(bit_sz);
            assert(bit_sz & 0x3f == bit_sz) by (bit_vector)
                requires
                    bit_sz < 64,
            ;
        }
        let mut capraw = CapRaw::default_with_type(ObjType::Untyped);
        capraw.paddr = paddr;
        capraw.arg1 = if is_device {
            1
        } else {
            0
        };
        capraw.arg2 = bit_sz & 0x3f;
        capraw.rights = CapRights { bits: RIGHT_CONTROL };
        capraw
    }

    /// Size of the span, in bits.
    pub fn bit_size(&self) -> (r: u64)
        ensures
            r == untyped_bit_size(self.cap),
            r < 64,
    {
        proof {
            lemma_untyped_fields_bounded(self.cap.arg2);
        }
        self.cap.arg2 & 0x3f
    }

    /// Size of the span, in bytes.
    pub fn size(&self) -> (r: u64)
        ensures
            r == untyped_size(self.cap),
    {
        let b = self.bit_size();
        1u64 << b
    }

    /// How much of the span has already been handed out.
    pub fn free_offset(&self) -> (r: u64)
        ensures
            r == untyped_free_offset(self.cap),
            r < 0x0400000000000000,
    {
        proof {
            lemma_untyped_fields_bounded(self.cap.arg2);
        }
        self.cap.arg2 >> 6
    }

    /// Record a new free offset; the offset only ever grows.
    pub fn set_free_offset(&mut self, off: u64)
        requires
            off < 0x0400000000000000,
        ensures
            untyped_free_offset(final(self).cap) == off,
            untyped_bit_size(final(self).cap) == untyped_bit_size(old(self).cap),
            final(self).cap == (CapRaw { arg2: final(self).cap.arg2, ..old(self).cap }),
    {
        proof {
            lemma_untyped_arg2_pack(self.cap.arg2, off);
        }
        let mut raw = self.cap;
        raw.arg2 = (raw.arg2 & 0x3f) | (off << 6);
        self.cap = raw;
    }

    /// Whether only Frame or Untyped objects may be carved from this span.
    pub fn is_device(&self) -> (r: bool)
        ensures
            r == untyped_is_device(self.cap),
    {
        self.cap.arg1 != 0
    }

    /// Describe this capability in the caller's message registers.
    pub fn identify(&self, tcb: &mut crate::tcb::Tcb) -> (r: u64)
        requires
            old(tcb).wf(),
        ensures
            r == 5,
            final(tcb).wf(),
            final(tcb).context.registers@ == old(tcb).context.registers@.update(
                crate::tcb::MR1 as int,
                ObjType::Untyped.spec_code(),
            ).update(crate::tcb::MR2 as int, self.cap.paddr).update(
                crate::tcb::MR3 as int,
                untyped_bit_size(self.cap),
            ).update(
                crate::tcb::MR4 as int,
                if untyped_is_device(self.cap) {
                    1u64
                } else {
                    0u64
                },
            ).update(crate::tcb::MR5 as int, untyped_free_offset(self.cap)),
    {
        tcb.set_mr(crate::tcb::MR1, ObjType::Untyped.code());
        tcb.set_mr(crate::tcb::MR2, self.cap.paddr);
        tcb.set_mr(crate::tcb::MR3, self.bit_size());
        tcb.set_mr(
            crate::tcb::MR4,
            if self.is_device() {
                1
            } else {
                0
            },
        );
        tcb.set_mr(crate::tcb::MR5, self.free_offset());
        5
    }
}

/// Byte size of the object a retype target describes, if the target is
/// retypable with these parameters.
pub open spec fn spec_object_size(obj_type: ObjType, user_bits: u64) -> Option<u64> {
    match obj_type {
        ObjType::Frame => if user_bits == 12 || user_bits == 21 || user_bits == 30 {
            Some(1u64 << user_bits)
        } else {
            None
        },
        ObjType::VSpace => Some(1u64 << PAGE_BITS_4K),
        // A CNode's radix may not exceed the 32-bit logical depth: its
        // guard length is the depth minus the radix, which must not go
        // negative, so `user_bits` is capped at the slot width plus the
        // depth rather than at 48.
        ObjType::CNode => if CNODE_ENTRY_BIT_SZ <= user_bits && user_bits
            <= CNODE_ENTRY_BIT_SZ + CNODE_DEPTH && (1u64 << ((user_bits - CNODE_ENTRY_BIT_SZ) as u64))
            <= usize::MAX as u64 {
            Some(1u64 << user_bits)
        } else {
            None
        },
        ObjType::Tcb => Some(1024),
        ObjType::Untyped => if UNTYPED_MIN_BIT_SIZE <= user_bits && user_bits
            <= UNTYPED_MAX_BIT_SIZE {
            Some(1u64 << user_bits)
        } else {
            None
        },
        _ => None,
    }
}

/// Required alignment (in bits) for a retype target.
pub open spec fn spec_object_alignment(obj_type: ObjType, user_bits: u64) -> u64 {
    match obj_type {
        ObjType::Frame => user_bits,
        ObjType::VSpace => PAGE_BITS_4K,
        ObjType::CNode => if user_bits >= CNODE_ENTRY_BIT_SZ {
            user_bits
        } else {
            CNODE_ENTRY_BIT_SZ
        },
        ObjType::Tcb => 10,
        _ => user_bits,
    }
}

/// Byte size of the object a retype target describes.
pub fn object_size(obj_type: ObjType, user_bits: u64) -> (r: Option<u64>)
    ensures
        r == spec_object_size(obj_type, user_bits),
        r matches Some(osz) ==> osz >= 1,
{
    proof {
        if 0 <= user_bits < 64 {
            crate::cspace::lemma_shl1_at_least_one(user_bits);
        }
        crate::cspace::lemma_shl1_at_least_one(12);
    }
    match obj_type {
        ObjType::Frame => {
            if user_bits == 12 || user_bits == 21 || user_bits == 30 {
                Some(1u64 << user_bits)
            } else {
                None
            }
        },
        ObjType::VSpace => Some(1u64 << PAGE_BITS_4K),
        ObjType::CNode => {
            if CNODE_ENTRY_BIT_SZ <= user_bits && user_bits <= CNODE_ENTRY_BIT_SZ + CNODE_DEPTH
                && (1u64 << (user_bits - CNODE_ENTRY_BIT_SZ)) <= usize::MAX as u64 {
                Some(1u64 << user_bits)
            } else {
                None
            }
        },
        ObjType::Tcb => Some(1024),
        ObjType::Untyped => {
            if UNTYPED_MIN_BIT_SIZE <= user_bits && user_bits <= UNTYPED_MAX_BIT_SIZE {
                Some(1u64 << user_bits)
            } else {
                None
            }
        },
        _ => None,
    }
}

/// Required alignment (in bits) for a retype target.
pub fn object_alignment(obj_type: ObjType, user_bits: u64) -> (r: u64)
    ensures
        r == spec_object_alignment(obj_type, user_bits),
        spec_object_size(obj_type, user_bits) is Some ==> r <= 48,
{
    match obj_type {
        ObjType::Frame => user_bits,
        ObjType::VSpace => PAGE_BITS_4K,
        ObjType::CNode => {
            if user_bits >= CNODE_ENTRY_BIT_SZ {
                user_bits
            } else {
                CNODE_ENTRY_BIT_SZ
            }
        },
        ObjType::Tcb => 10,
        _ => user_bits,
    }
}

/// `off` rounded up to a multiple of `2^bits`.
pub open spec fn spec_align_up(off: u64, bits: u64) -> u64 {
    (((off + ((1u64 << bits) - 1) as u64) as u64) & !(((1u64 << bits) - 1) as u64)) as u64
}

/// Rounding up stays within one alignment unit and never moves down.
proof fn lemma_align_up_props(off: u64, bits: u64)
    by (bit_vector)
    requires
        bits <= 48,
        off < 0x0400000000000000,
    ensures
        (1u64 << bits) - 1 < 0x0002000000000000,
        off + ((1u64 << bits) - 1) < 0x0402000000000000,
        off <= ((off + ((1u64 << bits) - 1) as u64) as u64) & !(((1u64 << bits) - 1) as u64),
        (((off + ((1u64 << bits) - 1) as u64) as u64) & !(((1u64 << bits) - 1) as u64)) <= off + (
        (1u64 << bits) - 1),
{
}

/// `off` rounded up to a multiple of `2^bits`.
pub fn align_up(off: u64, bits: u64) -> (r: u64)
    requires
        bits <= 48,
        off < 0x0400000000000000,
    ensures
        r == spec_align_up(off, bits),
        off <= r <= off + ((1u64 << bits) - 1),
        r < 0x0402000000000000,
    {
    proof {
        lemma_align_up_props(off, bits);
    }
    let m = (1u64 << bits) - 1;
    (off + m) & !m
}

/// The ASID a retype assigns to a VSpace at `addr`: derived from the
/// address, never zero.
pub open spec fn spec_asid_of(addr: u64) -> u64 {
    if (addr >> 12) & 0xffff == 0 {
        1
    } else {
        (addr >> 12) & 0xffff
    }
}

/// The record a retype mints for destination `i`: for a CNode, `addr`
/// is the base index of its freshly zeroed slot array in the arena; for
/// every other type it is the physical address of the object.
pub open spec fn retyped_cap_ok(
    c: CapRaw,
    obj_type: ObjType,
    user_bits: u64,
    addr: u64,
    dev: bool,
) -> bool {
    match obj_type {
        ObjType::Untyped => {
            &&& c.cap_type == ObjType::Untyped
            &&& c.paddr == addr
            &&& untyped_bit_size(c) == user_bits
            &&& untyped_free_offset(c) == 0
            &&& untyped_is_device(c) == dev
        },
        ObjType::CNode => {
            &&& c.cap_type == ObjType::CNode
            &&& c.paddr == addr
            &&& cnode_radix_bits(c) == user_bits - CNODE_ENTRY_BIT_SZ
            &&& cnode_guard_bits(c) == CNODE_DEPTH - (user_bits - CNODE_ENTRY_BIT_SZ)
            &&& cnode_guard(c) == 0
        },
        ObjType::Frame => {
            &&& c.cap_type == ObjType::Frame
            &&& c.paddr == addr
            &&& frame_size_bits(c) == user_bits
            &&& frame_is_device(c) == dev
            &&& !frame_is_mapped(c)
            &&& c.rights == (CapRights { bits: RIGHT_READ | RIGHT_WRITE })
        },
        ObjType::Tcb => {
            &&& c.cap_type == ObjType::Tcb
            &&& c.paddr == addr
        },
        ObjType::VSpace => {
            &&& c.cap_type == ObjType::VSpace
            &&& c.paddr == addr
            &&& vspace_asid(c) == spec_asid_of(addr)
            &&& !vspace_is_active(c)
        },
        _ => false,
    }
}

/// Address of the object minted for destination `i`.
pub open spec fn spec_dest_addr(
    cap0: CapRaw,
    aligned: u64,
    obj_type: ObjType,
    user_bits: u64,
    osz: u64,
    base_len: int,
    i: int,
) -> u64 {
    if obj_type == ObjType::CNode {
        (base_len + i * (1u64 << ((user_bits - CNODE_ENTRY_BIT_SZ) as u64))) as u64
    } else {
        (cap0.paddr + aligned + i * osz) as u64
    }
}

/// The checks retype performs, in order, and the free offset it
/// records on success.
pub open spec fn spec_retype_checks(
    s: Seq<CapRaw>,
    ut: int,
    obj_type: ObjType,
    user_bits: u64,
    dests: Seq<usize>,
) -> Result<u64, SysError> {
    let cap = s[ut];
    if exists|i: int| 0 <= i < dests.len() && s[#[trigger] dests[i] as int].cap_type
        != ObjType::NullObj {
        Err(SysError::SlotNotEmpty)
    } else if untyped_is_device(cap) && obj_type != ObjType::Frame && obj_type
        != ObjType::Untyped {
        Err(SysError::InvalidValue)
    } else {
        match spec_object_size(obj_type, user_bits) {
            None => Err(SysError::InvalidValue),
            Some(osz) => {
                if dests.len() * osz > u64::MAX {
                    Err(SysError::OutOfMemory)
                } else {
                    let aligned = spec_align_up(
                        untyped_free_offset(cap),
                        spec_object_alignment(obj_type, user_bits),
                    );
                    if aligned + dests.len() * osz > u64::MAX {
                        Err(SysError::OutOfMemory)
                    } else {
                        let required = (aligned + dests.len() * osz) as u64;
                        if untyped_size(cap) < required {
                            Err(SysError::OutOfMemory)
                        } else {
                            Ok(required)
                        }
                    }
                }
            },
        }
    }
}

impl SlotArena {
    /// Carve `dests.len()` objects of the given type out of the untyped
    /// capability in slot `ut`.
    ///
    /// All destination slots must be empty; device spans only yield
    /// Frame or Untyped objects; sizes and alignment follow the
    /// per-type rules; the whole request must fit in the remaining
    /// span, else nothing changes and the error says why.  On success
    /// each destination receives its minted capability and is spliced
    /// into the derivation chain immediately after the untyped's slot,
    /// and the untyped's free offset advances to cover the objects; it
    /// never decreases.
    #[verifier::rlimit(100)]
    pub fn retype(
        &mut self,
        ut: usize,
        obj_type: ObjType,
        user_bits: u64,
        dests: &Vec<usize>,
    ) -> (r: Result<(), SysError>)
        requires
            old(self).wf(),
            ut < old(self)@.len(),
            old(self)@[ut as int].cap_type == ObjType::Untyped,
            untyped_bit_size(old(self)@[ut as int]) <= 48,
            old(self)@[ut as int].paddr + untyped_size(old(self)@[ut as int]) <= u64::MAX,
            forall|i: int| 0 <= i < dests@.len() ==> (#[trigger] dests@[i]) < old(self)@.len(),
            forall|i: int|
                0 <= i < dests@.len() ==> old(self)@[#[trigger] dests@[i] as int].mdb_prev is None
                    && old(self)@[dests@[i] as int].mdb_next is None,
            forall|i: int, j: int| 0 <= i < j < dests@.len() ==> dests@[i] != dests@[j],
        ensures
            final(self).wf(),
            match r {
                Ok(()) => ({
                    let s0 = old(self)@;
                    let s1 = final(self)@;
                    let cap0 = s0[ut as int];
                    let n = dests@.len() as int;
                    let osz = spec_object_size(obj_type, user_bits)->0;
                    let aligned = spec_align_up(
                        untyped_free_offset(cap0),
                        spec_object_alignment(obj_type, user_bits),
                    );
                    let spp = if obj_type == ObjType::CNode {
                        1u64 << ((user_bits - CNODE_ENTRY_BIT_SZ) as u64)
                    } else {
                        0
                    };
                    &&& spec_retype_checks(s0, ut as int, obj_type, user_bits, dests@) matches Ok(
                        req,
                    ) && {
                        &&& untyped_free_offset(s1[ut as int]) == req
                        &&& untyped_bit_size(s1[ut as int]) == untyped_bit_size(cap0)
                        &&& s1[ut as int].cap_type == ObjType::Untyped
                        &&& s1[ut as int].paddr == cap0.paddr
                        &&& s1[ut as int].arg1 == cap0.arg1
                        &&& s1[ut as int].rights == cap0.rights
                        &&& s1[ut as int].mdb_prev == cap0.mdb_prev
                        &&& s1[ut as int].mdb_next == (if n > 0 {
                            Some(dests@[n - 1])
                        } else {
                            cap0.mdb_next
                        })
                        &&& s1.len() == s0.len() + n * spp
                        &&& forall|i: int|
                            0 <= i < n ==> retyped_cap_ok(
                                s1[#[trigger] dests@[i] as int],
                                obj_type,
                                user_bits,
                                spec_dest_addr(
                                    cap0,
                                    aligned,
                                    obj_type,
                                    user_bits,
                                    osz,
                                    s0.len() as int,
                                    i,
                                ),
                                untyped_is_device(cap0),
                            )
                        &&& forall|i: int|
                            0 <= i < n ==> s1[#[trigger] dests@[i] as int].mdb_prev == Some(
                                if i + 1 < n {
                                    dests@[i + 1]
                                } else {
                                    ut
                                },
                            ) && s1[dests@[i] as int].mdb_next == (if i > 0 {
                                Some(dests@[i - 1])
                            } else {
                                cap0.mdb_next
                            })
                        &&& (cap0.mdb_next matches Some(h) ==> (n > 0 ==> s1[h as int] == (CapRaw {
                            mdb_prev: Some(dests@[0]),
                            ..s0[h as int]
                        })))
                        &&& forall|k: int|
                            0 <= k < s0.len() && k != ut && k != link_target(cap0.mdb_next)
                                && !dests@.contains(k as usize) ==> #[trigger] s1[k] == s0[k]
                        &&& forall|k: int|
                            s0.len() <= k < s1.len() ==> #[trigger] s1[k]
                                == CapRaw::spec_default()
                    }
                }),
                Err(e) => spec_retype_checks(old(self)@, ut as int, obj_type, user_bits, dests@)
                    == Err::<u64, SysError>(e) && final(self)@ == old(self)@,
            },
    {
        let ghost s0 = self@;
        let cap0 = self.get_slot(ut);
        let n = dests.len();

        // All destination slots must be empty.
        let mut i: usize = 0;
        while i < n
            invariant
                self.wf(),
                self@ == old(self)@,
                i <= n,
                n == dests@.len(),
                self@ == s0,
                ut < s0.len(),
                forall|j: int| 0 <= j < dests@.len() ==> (#[trigger] dests@[j]) < s0.len(),
                forall|j: int|
                    0 <= j < i ==> s0[#[trigger] dests@[j] as int].cap_type == ObjType::NullObj,
            decreases n - i,
        {
            let d = dests[i];
            if !matches!(self.get_slot(d).cap_type, ObjType::NullObj) {
                return Err(SysError::SlotNotEmpty);
            }
            i = i + 1;
        }

        let ut_cap = UntypedCap { cap: cap0 };

        // Device spans may only produce Frame or Untyped objects.
        if ut_cap.is_device() && !matches!(obj_type, ObjType::Frame | ObjType::Untyped) {
            return Err(SysError::InvalidValue);
        }

        // Resolve per-type size and alignment, and check the span.
        let osz = match object_size(obj_type, user_bits) {
            None => {
                return Err(SysError::InvalidValue);
            },
            Some(o) => o,
        };
        let align_bits = object_alignment(obj_type, user_bits);
        // A request so large that its byte count overflows cannot fit any
        // span either: it is out of memory, not malformed.
        let tot = match (n as u64).checked_mul(osz) {
            None => {
                return Err(SysError::OutOfMemory);
            },
            Some(t) => t,
        };
        let off0 = ut_cap.free_offset();
        let aligned = align_up(off0, align_bits);
        let required = match aligned.checked_add(tot) {
            None => {
                return Err(SysError::OutOfMemory);
            },
            Some(t) => t,
        };
        if ut_cap.size() < required {
            return Err(SysError::OutOfMemory);
        }

        proof {
            assert(spec_retype_checks(s0, ut as int, obj_type, user_bits, dests@) == Ok::<
                u64,
                SysError,
            >(required));
            assert(required <= untyped_size(cap0));
            let bsz = untyped_bit_size(cap0);
            let usz = untyped_size(cap0);
            assert(usz <= 0x0002000000000000) by (bit_vector)
                requires
                    usz == 1u64 << bsz,
                    bsz <= 48,
            ;
        }

        // Record the new free offset.
        proof {
            lemma_untyped_arg2_pack(cap0.arg2, required);
        }
        let new_arg2 = (cap0.arg2 & 0x3f) | (required << 6);
        self.set_arg2(ut, new_arg2);

        let ghost cap1 = CapRaw { arg2: new_arg2, ..cap0 };
        let ghost spp_g: int = if obj_type == ObjType::CNode {
            (1u64 << ((user_bits - CNODE_ENTRY_BIT_SZ) as u64)) as int
        } else {
            0
        };
        let ghost ht = link_target(cap0.mdb_next);
        proof {
            assert(link_ok(s0, ut as int));
            if let Some(h) = cap0.mdb_next {
                assert(rank_ok(s0, old(self).rank@, ut as int));
            }
        }

        // Mint one object per destination slot and splice it into the
        // derivation chain right after the untyped.
        let mut i: usize = 0;
        while i < n
            invariant
                self.wf(),
                links_wf(s0),
                i <= n,
                n == dests@.len(),
                ut < s0.len(),
                s0.len() <= self@.len(),
                self@.len() == s0.len() + i * spp_g,
                spp_g == (if obj_type == ObjType::CNode {
                    (1u64 << ((user_bits - CNODE_ENTRY_BIT_SZ) as u64)) as int
                } else {
                    0int
                }),
                cap0 == s0[ut as int],
                cap0.cap_type == ObjType::Untyped,
                ut_cap == (UntypedCap { cap: cap0 }),
                cap1 == (CapRaw { arg2: new_arg2, ..cap0 }),
                ht == link_target(cap0.mdb_next),
                ht < s0.len(),
                spec_object_size(obj_type, user_bits) == Some(osz),
                spec_object_alignment(obj_type, user_bits) == align_bits,
                align_bits <= 48,
                aligned == spec_align_up(untyped_free_offset(cap0), align_bits),
                aligned + n * osz <= untyped_size(cap0),
                untyped_size(cap0) <= 0x0002000000000000,
                cap0.paddr + untyped_size(cap0) <= u64::MAX,
                osz >= 1,
                forall|j: int| 0 <= j < dests@.len() ==> (#[trigger] dests@[j]) < s0.len(),
                forall|j: int|
                    0 <= j < dests@.len() ==> s0[#[trigger] dests@[j] as int].cap_type
                        == ObjType::NullObj && s0[dests@[j] as int].mdb_prev is None
                        && s0[dests@[j] as int].mdb_next is None,
                forall|j: int, k: int| 0 <= j < k < dests@.len() ==> dests@[j] != dests@[k],
                self@[ut as int] == (CapRaw {
                    mdb_next: if i > 0 {
                        Some(dests@[i - 1])
                    } else {
                        cap0.mdb_next
                    },
                    ..cap1
                }),
                forall|j: int|
                    0 <= j < i ==> retyped_cap_ok(
                        self@[#[trigger] dests@[j] as int],
                        obj_type,
                        user_bits,
                        spec_dest_addr(
                            cap0,
                            aligned,
                            obj_type,
                            user_bits,
                            osz,
                            s0.len() as int,
                            j,
                        ),
                        untyped_is_device(cap0),
                    ),
                forall|j: int|
                    0 <= j < i ==> self@[#[trigger] dests@[j] as int].mdb_prev == Some(
                        if j + 1 < i as int {
                            dests@[j + 1]
                        } else {
                            ut
                        },
                    ) && self@[dests@[j] as int].mdb_next == (if j > 0 {
                        Some(dests@[j - 1])
                    } else {
                        cap0.mdb_next
                    }),
                (cap0.mdb_next matches Some(h) ==> self@[h as int] == (if i > 0 {
                    CapRaw { mdb_prev: Some(dests@[0]), ..s0[h as int] }
                } else {
                    s0[h as int]
                })),
                forall|k: int|
                    0 <= k < s0.len() && k != ut && k != ht && !(exists|j: int|
                        0 <= j < i && dests@[j] == k as usize) ==> #[trigger] self@[k] == s0[k],
                forall|k: int|
                    s0.len() <= k < self@.len() ==> #[trigger] self@[k]
                        == CapRaw::spec_default(),
            decreases n - i,
        {
            let d = dests[i];
            let ghost s_pre = self@;

            proof {
                assert(d == dests@[i as int]);
                // The destination has not been touched yet: it is not the
                // untyped, not the old chain head, and not an earlier
                // destination.
                assert forall|j: int| 0 <= j < i implies dests@[j] != d by {}
                assert(!(exists|j: int| 0 <= j < i && dests@[j] == d));
                if ht == d as int {
                    assert(link_ok(s0, ut as int));
                }
                assert(s_pre[d as int] == s0[d as int]);
                vstd::arithmetic::mul::lemma_mul_inequality((i + 1) as int, n as int, osz as int);
                vstd::arithmetic::mul::lemma_mul_is_distributive_add(osz as int, i as int, 1);
                vstd::arithmetic::mul::lemma_mul_is_commutative(osz as int, i as int);
                vstd::arithmetic::mul::lemma_mul_is_commutative(osz as int, (i + 1) as int);
                vstd::arithmetic::mul::lemma_mul_is_commutative(osz as int, n as int);
                vstd::arithmetic::mul::lemma_mul_is_distributive_add(spp_g, i as int, 1);
                vstd::arithmetic::mul::lemma_mul_is_commutative(spp_g, i as int);
                vstd::arithmetic::mul::lemma_mul_is_commutative(spp_g, (i + 1) as int);
            }

            let minted: CapRaw = match obj_type {
                ObjType::Untyped => {
                    let addr = cap0.paddr + aligned + (i as u64) * osz;
                    UntypedCap::mint(addr, user_bits, ut_cap.is_device())
                },
                ObjType::CNode => {
                    let radix = user_bits - CNODE_ENTRY_BIT_SZ;
                    let guard_bits = CNODE_DEPTH - radix;
                    let base = self.len();
                    let spp64 = 1u64 << radix;
                    self.grow(spp64 as usize);
                    CNodeCap::mint(base as u64, radix, guard_bits, 0, CapRights {
                        bits: RIGHT_CONTROL,
                    })
                },
                ObjType::Frame => {
                    let addr = cap0.paddr + aligned + (i as u64) * osz;
                    let size = match FrameSize::from_bits(user_bits) {
                        Some(sz) => sz,
                        None => {
                            proof {
                                assert(false);
                            }
                            FrameSize::Small
                        },
                    };
                    FrameCap::mint(
                        addr,
                        size,
                        ut_cap.is_device(),
                        CapRights { bits: RIGHT_READ | RIGHT_WRITE },
                    )
                },
                ObjType::Tcb => {
                    let addr = cap0.paddr + aligned + (i as u64) * osz;
                    TcbCap::mint(addr)
                },
                ObjType::VSpace => {
                    let addr = cap0.paddr + aligned + (i as u64) * osz;
                    proof {
                        assert((addr >> 12) & 0xffff <= 0xffff) by (bit_vector);
                    }
                    let asid16 = ((addr >> 12) & 0xffff) as u16;
                    let asid = if asid16 == 0 {
                        1
                    } else {
                        asid16
                    };
                    VSpaceCap::mint(addr, asid, CapRights { bits: RIGHT_CONTROL })
                },
                _ => {
                    proof {
                        assert(false);
                    }
                    return Err(SysError::InvalidValue);
                },
            };

            let ghost s_grown = self@;
            self.write_slot(d, minted);
            let ghost s_wr = self@;
            self.mdb_insert_after(ut, d);

            proof {
                let s1 = self@;
                // The slot the insertion relinks besides ut and d: the head
                // of the chain so far.
                let lt = link_target(s_wr[ut as int].mdb_next);
                assert(s0[d as int].cap_type == ObjType::NullObj);
                assert(d as int != ut as int);
                assert(s_wr[ut as int] == s_grown[ut as int]);
                assert(lt == (if i > 0 {
                    dests@[i - 1] as int
                } else {
                    ht
                }));
                // The old chain head is none of the destinations.
                if let Some(h) = cap0.mdb_next {
                    assert(link_ok(s0, ut as int));
                    assert forall|j: int| 0 <= j < n implies dests@[j] != h by {
                        if dests@[j] == h {
                            assert(s0[h as int].mdb_prev is None);
                        }
                    }
                }
                // Frame: everything untouched this iteration.
                assert forall|k: int|
                    0 <= k < s_grown.len() && k != ut && k != d as int && k != lt implies s1[k]
                    == s_grown[k] by {}
                // The new destination's record.
                assert(s1[d as int] == (CapRaw {
                    mdb_prev: Some(ut),
                    mdb_next: s_grown[ut as int].mdb_next,
                    ..minted
                }));
                // The untyped's record.
                assert(s1[ut as int] == (CapRaw { mdb_next: Some(d), ..s_grown[ut as int] }));
                // Per-destination records for the next iteration.
                assert forall|j: int|
                    0 <= j < i + 1 implies retyped_cap_ok(
                    s1[#[trigger] dests@[j] as int],
                    obj_type,
                    user_bits,
                    spec_dest_addr(cap0, aligned, obj_type, user_bits, osz, s0.len() as int, j),
                    untyped_is_device(cap0),
                ) && s1[dests@[j] as int].mdb_prev == Some(
                    if j + 1 < i + 1 {
                        dests@[j + 1]
                    } else {
                        ut
                    },
                ) && s1[dests@[j] as int].mdb_next == (if j > 0 {
                    Some(dests@[j - 1])
                } else {
                    cap0.mdb_next
                }) by {
                    assert forall|jj: int, kk: int|
                        0 <= jj < kk < dests@.len() implies dests@[jj] != dests@[kk] by {}
                    assert((dests@[j] as int) < s0.len());
                    if j < i {
                        assert(retyped_cap_ok(
                            s_pre[dests@[j] as int],
                            obj_type,
                            user_bits,
                            spec_dest_addr(
                                cap0,
                                aligned,
                                obj_type,
                                user_bits,
                                osz,
                                s0.len() as int,
                                j,
                            ),
                            untyped_is_device(cap0),
                        ));
                        assert(s_grown[dests@[j] as int] == s_pre[dests@[j] as int]);
                    }
                    if j == i as int {
                        assert(s1[d as int].mdb_next == s_grown[ut as int].mdb_next);
                        assert(s1[d as int] == (CapRaw {
                            mdb_prev: Some(ut),
                            mdb_next: s_grown[ut as int].mdb_next,
                            ..minted
                        }));
                        assert(retyped_cap_ok(
                            minted,
                            obj_type,
                            user_bits,
                            spec_dest_addr(
                                cap0,
                                aligned,
                                obj_type,
                                user_bits,
                                osz,
                                s0.len() as int,
                                j,
                            ),
                            untyped_is_device(cap0),
                        ));
                    } else if j == i - 1 {
                        assert(s1[dests@[j] as int] == (CapRaw {
                            mdb_prev: Some(d),
                            ..s_wr[dests@[j] as int]
                        }));
                        assert(s_wr[dests@[j] as int] == s_grown[dests@[j] as int]);
                        assert(s_grown[dests@[j] as int] == s_pre[dests@[j] as int]);
                    } else {
                        assert(dests@[j] as int != lt);
                        assert(s1[dests@[j] as int] == s_grown[dests@[j] as int]);
                        assert(s_grown[dests@[j] as int] == s_pre[dests@[j] as int]);
                    }
                }
                // Frame against the original arena.
                assert forall|k: int|
                    0 <= k < s0.len() && k != ut && k != ht && !(exists|j: int|
                        0 <= j < i + 1 && dests@[j] == k as usize) implies #[trigger] s1[k]
                    == s0[k] by {
                    assert(!(exists|j: int| 0 <= j < i && dests@[j] == k as usize));
                    assert(dests@[i as int] != k as usize);
                    assert(s_pre[k] == s0[k]);
                    assert(s_grown[k] == s_pre[k]);
                }
                // Newly grown slots stay empty.
                assert forall|k: int|
                    s0.len() <= k < s1.len() implies #[trigger] s1[k] == CapRaw::spec_default() by {
                    assert(d < s0.len() && ut < s0.len() && ht < s0.len());
                    if i > 0 {
                        assert((dests@[i - 1] as int) < s0.len());
                    }
                }
            }
            i = i + 1;
        }

        proof {
            let s1 = self@;
            assert forall|k: int|
                0 <= k < s0.len() && k != ut && k != link_target(cap0.mdb_next)
                    && !dests@.contains(k as usize) implies #[trigger] s1[k] == s0[k] by {
                assert(!(exists|j: int| 0 <= j < n && dests@[j] == k as usize));
            }
        }
        Ok(())
    }
}

/// Retype then revoke on the ancestor: revoking the untyped's slot
/// reclaims every capability derived from it and returns the free
/// offset to zero in the capability bits -- the value a fresh span
/// starts from -- while the bit size, device flag and base address
/// stand, so the whole region is reusable by a subsequent retype at
/// the same alignment.
pub proof fn lemma_revoke_resets_untyped_offset(c: CapRaw)
    requires
        c.cap_type == ObjType::Untyped,
    ensures
        untyped_free_offset(crate::cspace::revoked_slot_image(c)) == 0,
        untyped_bit_size(crate::cspace::revoked_slot_image(c)) == untyped_bit_size(c),
        untyped_is_device(crate::cspace::revoked_slot_image(c)) == untyped_is_device(c),
        crate::cspace::revoked_slot_image(c).paddr == c.paddr,
{
    let a = c.arg2;
    assert((a & 0x3f) >> 6 == 0) by (bit_vector);
    assert((a & 0x3f) & 0x3f == a & 0x3f) by (bit_vector);
}

/// Capability types whose records may be copied with reduced rights.
pub open spec fn spec_derivable(t: ObjType) -> bool {
    t == ObjType::Frame || t == ObjType::Endpoint || t == ObjType::CNode || t == ObjType::VSpace
        || t == ObjType::Tcb
}

impl SlotArena {
    /// Derive a capability: copy the record in `parent` into the empty
    /// slot `dest` with its rights reduced by `mask`, and splice the
    /// copy into the derivation chain immediately after its parent, so
    /// a later revoke on the parent reclaims it.
    pub fn derive_cap(&mut self, parent: usize, dest: usize, mask: CapRights) -> (r: Result<
        (),
        SysError,
    >)
        requires
            old(self).wf(),
            parent < old(self)@.len(),
            dest < old(self)@.len(),
            parent != dest,
            old(self)@[dest as int].mdb_prev is None,
            old(self)@[dest as int].mdb_next is None,
        ensures
            final(self).wf(),
            match r {
                Ok(()) => ({
                    let s0 = old(self)@;
                    let s1 = final(self)@;
                    let child = CapRaw {
                        rights: CapRights { bits: s0[parent as int].rights.bits & mask.bits },
                        mdb_prev: Some(parent),
                        mdb_next: s0[parent as int].mdb_next,
                        ..s0[parent as int]
                    };
                    &&& spec_derivable(s0[parent as int].cap_type)
                    &&& s0[dest as int].cap_type == ObjType::NullObj
                    &&& s1[dest as int] == child
                    &&& s1[parent as int] == (CapRaw { mdb_next: Some(dest), ..s0[parent as int] })
                    &&& (s0[parent as int].mdb_next matches Some(h) ==> s1[h as int] == (CapRaw {
                        mdb_prev: Some(dest),
                        ..s0[h as int]
                    }))
                    &&& forall|k: int|
                        0 <= k < s1.len() && k != parent && k != dest
                            && k != crate::cspace::link_target(s0[parent as int].mdb_next)
                            ==> s1[k] == s0[k]
                }),
                Err(e) => final(self)@ == old(self)@ && ((e == SysError::SlotNotEmpty && old(
                    self,
                )@[dest as int].cap_type != ObjType::NullObj) || (e == SysError::UnableToDerive
                    && old(self)@[dest as int].cap_type == ObjType::NullObj && !spec_derivable(
                    old(self)@[parent as int].cap_type,
                ))),
            },
    {
        let dest_cap = self.get_slot(dest);
        if !matches!(dest_cap.cap_type, ObjType::NullObj) {
            return Err(SysError::SlotNotEmpty);
        }
        let parent_cap = self.get_slot(parent);
        if !matches!(
            parent_cap.cap_type,
            ObjType::Frame | ObjType::Endpoint | ObjType::CNode | ObjType::VSpace | ObjType::Tcb
        ) {
            return Err(SysError::UnableToDerive);
        }
        let child = CapRaw {
            rights: CapRights { bits: parent_cap.rights.bits & mask.bits },
            mdb_prev: None,
            mdb_next: None,
            ..parent_cap
        };
        proof {
            // The parent's successor, if any, is a linked slot and so
            // distinct from the isolated destination.
            assert(link_ok(self@, parent as int));
        }
        self.write_slot(dest, child);
        self.mdb_insert_after(parent, dest);
        Ok(())
    }
}


} // verus!
