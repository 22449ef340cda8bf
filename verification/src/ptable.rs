//! The four-level page-table manager.
//!
//! Page tables are 512-entry arrays of raw 64-bit entries, owned by a
//! [`VSpaceObj`] and keyed by their physical address; following an
//! entry's address field stands in for dereferencing physical memory
//! through the kernel's physical-memory window.  The entry encodings
//! (present, huge, address and permission bits) follow the x86-64
//! format.

use vstd::prelude::*;

use crate::capability::CapRaw;
use crate::error::{SysError, VSpaceError, WalkResult};
use crate::frame::{
    frame_cleared_image, frame_is_mapped, frame_mapped_asid, frame_mapped_image,
    frame_mapped_vaddr, frame_size_bits, spec_vm_attributes, FrameCap, FrameSize,
};
use crate::vspace::{CachePolicy, VMAttributes, VMRights, VM_EXECUTE, VM_WRITE};

verus! {

/// Entry bit: present.
pub const PT_PRESENT: u64 = 0x1;

/// Entry bit: writable.
pub const PT_WRITABLE: u64 = 0x2;

/// Entry bit: user accessible.
pub const PT_USER: u64 = 0x4;

/// Entry bit: write-through caching.
pub const PT_WRITE_THROUGH: u64 = 0x8;

/// Entry bit: cache disable.
pub const PT_CACHE_DISABLE: u64 = 0x10;

/// Entry bit: huge/large page.
pub const PT_HUGE: u64 = 0x80;

/// Entry bit: global page.
pub const PT_GLOBAL: u64 = 0x100;

/// Entry bit: no-execute.
pub const PT_NO_EXECUTE: u64 = 0x8000000000000000;

/// Mask of the physical-address field of an entry.
pub const PT_ADDR_MASK: u64 = 0x000ffffffffff000;

/// Number of entries in one page table.
pub const PT_ENTRIES: usize = 512;

/// An entry is present.
pub open spec fn pte_present(e: u64) -> bool {
    e & PT_PRESENT != 0
}

/// An entry maps a huge/large page rather than a next-level table.
pub open spec fn pte_huge(e: u64) -> bool {
    e & PT_HUGE != 0
}

/// The physical-address field of an entry.
pub open spec fn pte_addr(e: u64) -> u64 {
    e & PT_ADDR_MASK
}

/// The permission and cache bits derived from VM attributes.
pub open spec fn spec_build_flags(attr: VMAttributes) -> u64 {
    PT_PRESENT | (if attr.rights.spec_contains(VMRights { bits: VM_WRITE }) {
        PT_WRITABLE
    } else {
        0
    }) | (if attr.user {
        PT_USER
    } else {
        0
    }) | (if attr.global {
        PT_GLOBAL
    } else {
        0
    }) | (if !attr.rights.spec_contains(VMRights { bits: VM_EXECUTE }) {
        PT_NO_EXECUTE
    } else {
        0
    }) | (match attr.cache {
        CachePolicy::WriteBack => 0,
        CachePolicy::WriteThrough => PT_WRITE_THROUGH,
        CachePolicy::Uncacheable => PT_CACHE_DISABLE,
        CachePolicy::WriteCombining => PT_WRITE_THROUGH | PT_CACHE_DISABLE,
    })
}

/// A table entry built from an address and flag bits is present, carries
/// exactly the masked address, and is huge iff the huge bit is or'd in.
proof fn lemma_entry_bits(p: u64, w: u64, u: u64, g: u64, nx: u64, cb: u64)
    by (bit_vector)
    requires
        w == 0 || w == 0x2,
        u == 0 || u == 0x4,
        g == 0 || g == 0x100,
        nx == 0 || nx == 0x8000000000000000,
        cb == 0 || cb == 0x8 || cb == 0x10 || cb == 0x18,
    ensures
        ((p & 0x000ffffffffff000) | (0x1u64 | w | u | g | nx | cb)) & 0x1 != 0,
        ((p & 0x000ffffffffff000) | (0x1u64 | w | u | g | nx | cb)) & 0x80 == 0,
        ((p & 0x000ffffffffff000) | (0x1u64 | w | u | g | nx | cb)) & 0x000ffffffffff000 == p
            & 0x000ffffffffff000,
        ((p & 0x000ffffffffff000) | (0x1u64 | w | u | g | nx | cb) | 0x80) & 0x1 != 0,
        ((p & 0x000ffffffffff000) | (0x1u64 | w | u | g | nx | cb) | 0x80) & 0x80 != 0,
        ((p & 0x000ffffffffff000) | (0x1u64 | w | u | g | nx | cb) | 0x80) & 0x000ffffffffff000
            == p & 0x000ffffffffff000,
{
}

/// A plain table link is present, not huge, and carries the masked
/// address; a 4 KiB-aligned address below 2^52 survives the mask.
pub proof fn lemma_table_link_bits(p: u64)
    by (bit_vector)
    ensures
        ((p & 0x000ffffffffff000) | 0x7) & 0x1 != 0,
        ((p & 0x000ffffffffff000) | 0x7) & 0x80 == 0,
        ((p & 0x000ffffffffff000) | 0x7) & 0x000ffffffffff000 == p & 0x000ffffffffff000,
        p & 0xfff == 0 && p < 0x0010000000000000 ==> p & 0x000ffffffffff000 == p,
{
}

/// The permission and cache bits derived from VM attributes.
pub fn build_flags(attr: &VMAttributes) -> (r: u64)
    ensures
        r == spec_build_flags(*attr),
{
    let w: u64 = if attr.rights.contains(VMRights { bits: VM_WRITE }) {
        PT_WRITABLE
    } else {
        0
    };
    let u: u64 = if attr.user {
        PT_USER
    } else {
        0
    };
    let g: u64 = if attr.global {
        PT_GLOBAL
    } else {
        0
    };
    let nx: u64 = if !attr.rights.contains(VMRights { bits: VM_EXECUTE }) {
        PT_NO_EXECUTE
    } else {
        0
    };
    let cb: u64 = match attr.cache {
        CachePolicy::WriteBack => 0,
        CachePolicy::WriteThrough => PT_WRITE_THROUGH,
        CachePolicy::Uncacheable => PT_CACHE_DISABLE,
        CachePolicy::WriteCombining => PT_WRITE_THROUGH | PT_CACHE_DISABLE,
    };
    PT_PRESENT | w | u | g | nx | cb
}

/// A freshly built leaf entry: present, not huge, masked address kept.
pub proof fn lemma_new_page_bits(p: u64, attr: VMAttributes)
    ensures
        pte_present((p & PT_ADDR_MASK) | spec_build_flags(attr)),
        !pte_huge((p & PT_ADDR_MASK) | spec_build_flags(attr)),
        pte_addr((p & PT_ADDR_MASK) | spec_build_flags(attr)) == p & PT_ADDR_MASK,
        pte_present((p & PT_ADDR_MASK) | spec_build_flags(attr) | PT_HUGE),
        pte_huge((p & PT_ADDR_MASK) | spec_build_flags(attr) | PT_HUGE),
        pte_addr((p & PT_ADDR_MASK) | spec_build_flags(attr) | PT_HUGE) == p & PT_ADDR_MASK,
{
    let w: u64 = if attr.rights.spec_contains(VMRights { bits: VM_WRITE }) {
        PT_WRITABLE
    } else {
        0
    };
    let u: u64 = if attr.user {
        PT_USER
    } else {
        0
    };
    let g: u64 = if attr.global {
        PT_GLOBAL
    } else {
        0
    };
    let nx: u64 = if !attr.rights.spec_contains(VMRights { bits: VM_EXECUTE }) {
        PT_NO_EXECUTE
    } else {
        0
    };
    let cb: u64 = match attr.cache {
        CachePolicy::WriteBack => 0u64,
        CachePolicy::WriteThrough => PT_WRITE_THROUGH,
        CachePolicy::Uncacheable => PT_CACHE_DISABLE,
        CachePolicy::WriteCombining => PT_WRITE_THROUGH | PT_CACHE_DISABLE,
    };
    assert(0x8u64 | 0x10 == 0x18) by (bit_vector);
    lemma_entry_bits(p, w, u, g, nx, cb);
}

/// One page table: 512 raw entries at a physical address.
#[derive(Debug)]
pub struct Table {
    /// Physical address of the table page.
    pub paddr: u64,
    /// The 512 raw entries.
    pub entries: Vec<u64>,
}

impl Table {
    /// The table has exactly its 512 entries.
    pub open spec fn wf(self) -> bool {
        self.entries@.len() == PT_ENTRIES
    }

    /// Create an empty table with all invalid entries.
    pub fn new(paddr: u64) -> (r: Self)
        ensures
            r.wf(),
            r.paddr == paddr,
            forall|i: int| 0 <= i < PT_ENTRIES ==> r.entries@[i] == 0,
    {
        let mut entries: Vec<u64> = Vec::new();
        let mut k: usize = 0;
        while k < PT_ENTRIES
            invariant
                k <= PT_ENTRIES,
                entries@.len() == k,
                forall|i: int| 0 <= i < k ==> entries@[i] == 0,
            decreases PT_ENTRIES - k,
        {
            entries.push(0);
            k = k + 1;
        }
        Self { paddr, entries }
    }

    /// Physical address of this table.
    pub fn table_paddr(&self) -> (r: u64)
        ensures
            r == self.paddr,
    {
        self.paddr
    }

    /// Get an entry by index.
    pub fn get(&self, index: usize) -> (r: Option<u64>)
        requires
            self.wf(),
        ensures
            match r {
                Some(e) => index < PT_ENTRIES && e == self.entries@[index as int],
                None => index >= PT_ENTRIES,
            },
    {
        if index < PT_ENTRIES {
            Some(self.entries[index])
        } else {
            None
        }
    }

    /// Zero all entries.
    pub fn clear(&mut self)
        requires
            old(self).wf(),
        ensures
            final(self).wf(),
            final(self).paddr == old(self).paddr,
            forall|i: int| 0 <= i < PT_ENTRIES ==> final(self).entries@[i] == 0,
    {
        let mut k: usize = 0;
        while k < PT_ENTRIES
            invariant
                self.wf(),
                k <= PT_ENTRIES,
                self.paddr == old(self).paddr,
                forall|i: int| 0 <= i < k ==> self.entries@[i] == 0,
            decreases PT_ENTRIES - k,
        {
            self.entries.set(k, 0);
            k = k + 1;
        }
    }
}

/// The nine-bit table indices of a virtual address, top level first.
pub open spec fn spec_vaddr_indices(vaddr: u64) -> (u64, u64, u64, u64) {
    ((vaddr >> 39) & 0x1ff, (vaddr >> 30) & 0x1ff, (vaddr >> 21) & 0x1ff, (vaddr >> 12) & 0x1ff)
}

/// The four table indices fit the 512-entry tables.
proof fn lemma_vaddr_indices_bounded(vaddr: u64)
    by (bit_vector)
    ensures
        (vaddr >> 39) & 0x1ff < 512,
        (vaddr >> 30) & 0x1ff < 512,
        (vaddr >> 21) & 0x1ff < 512,
        (vaddr >> 12) & 0x1ff < 512,
{
}

/// Extract the four level indices of a canonical virtual address.
pub fn vaddr_indices(vaddr: u64) -> (r: (u64, u64, u64, u64))
    ensures
        r == spec_vaddr_indices(vaddr),
        r.0 < 512 && r.1 < 512 && r.2 < 512 && r.3 < 512,
{
    proof {
        lemma_vaddr_indices_bounded(vaddr);
    }
    ((vaddr >> 39) & 0x1ff, (vaddr >> 30) & 0x1ff, (vaddr >> 21) & 0x1ff, (vaddr >> 12) & 0x1ff)
}

/// Canonical addresses have bits 63..47 all zero or all one.
pub open spec fn spec_is_canonical(vaddr: u64) -> bool {
    vaddr >> 47 == 0 || vaddr >> 47 == 0x1ffff
}

/// Check whether a virtual address is canonical.
pub fn is_canonical(vaddr: u64) -> (r: bool)
    ensures
        r == spec_is_canonical(vaddr),
{
    let top = vaddr >> 47;
    top == 0 || top == 0x1ffff
}

/// A virtual address space: the PML4 root and the page tables it owns,
/// keyed by physical address.
#[derive(Debug)]
pub struct VSpaceObj {
    /// Physical address of the PML4 root table.
    pub root: u64,
    /// The tables, in no particular order.
    pub tables: Vec<Table>,
}

impl View for VSpaceObj {
    type V = Map<u64, Seq<u64>>;

    open spec fn view(&self) -> Map<u64, Seq<u64>> {
        Map::new(
            |p: u64|
                exists|i: int|
                    0 <= i < self.tables@.len() && (#[trigger] self.tables@[i]).paddr == p,
            |p: u64|
                self.tables@[choose|i: int|
                    0 <= i < self.tables@.len() && (#[trigger] self.tables@[i]).paddr
                        == p].entries@,
        )
    }
}

impl VSpaceObj {
    /// Tables are well-formed, distinct, and the root is among them.
    pub open spec fn wf(self) -> bool {
        &&& forall|i: int| 0 <= i < self.tables@.len() ==> (#[trigger] self.tables@[i]).wf()
        &&& forall|i: int, j: int|
            0 <= i < j < self.tables@.len() ==> self.tables@[i].paddr != self.tables@[j].paddr
        &&& exists|i: int|
            0 <= i < self.tables@.len() && (#[trigger] self.tables@[i]).paddr == self.root
    }

    /// Each stored table is what the view maps its address to.
    proof fn lemma_view_index(self, i: int)
        requires
            self.wf(),
            0 <= i < self.tables@.len(),
        ensures
            self@.dom().contains(self.tables@[i].paddr),
            self@[self.tables@[i].paddr] == self.tables@[i].entries@,
            self@[self.tables@[i].paddr].len() == PT_ENTRIES,
    {
        let p = self.tables@[i].paddr;
        let j = choose|j: int|
            0 <= j < self.tables@.len() && (#[trigger] self.tables@[j]).paddr == p;
        assert(0 <= j < self.tables@.len() && self.tables@[j].paddr == p);
        assert(j == i);
        assert(self.tables@[i].wf());
    }

    /// Well-formedness puts the full 512 entries behind every mapped
    /// table address.
    pub proof fn lemma_all_tables_sized(self)
        requires
            self.wf(),
        ensures
            spec_tables_sized(self@),
    {
        assert forall|p: u64| #[trigger] self@.dom().contains(p) implies self@[p].len()
            == PT_ENTRIES by {
            let j = choose|j: int|
                0 <= j < self.tables@.len() && (#[trigger] self.tables@[j]).paddr == p;
            self.lemma_view_index(j);
        }
    }

    /// A fresh address space with an empty root table.
    pub fn new(root: u64) -> (r: Self)
        ensures
            r.wf(),
            r.root == root,
            r@.dom() =~= set![root],
            r@[root] =~= Seq::new(PT_ENTRIES as nat, |i: int| 0u64),
    {
        let mut tables: Vec<Table> = Vec::new();
        tables.push(Table::new(root));
        let r = Self { root, tables };
        proof {
            assert(r.tables@[0].paddr == root);
            r.lemma_view_index(0);
            assert(r@.dom() =~= set![root]);
            assert(r@[root] =~= Seq::new(PT_ENTRIES as nat, |i: int| 0u64));
        }
        r
    }

    /// Find the table at a physical address.
    fn find_table(&self, paddr: u64) -> (r: Option<usize>)
        requires
            self.wf(),
        ensures
            match r {
                Some(i) => i < self.tables@.len() && self.tables@[i as int].paddr == paddr
                    && self@.dom().contains(paddr) && self@[paddr] == self.tables@[
                    i as int].entries@ && self@[paddr].len() == PT_ENTRIES,
                None => !self@.dom().contains(paddr),
            },
    {
        let n = self.tables.len();
        let mut i: usize = 0;
        while i < n
            invariant
                self.wf(),
                n == self.tables@.len(),
                i <= n,
                forall|j: int| 0 <= j < i ==> (#[trigger] self.tables@[j]).paddr != paddr,
            decreases n - i,
        {
            if self.tables[i].table_paddr() == paddr {
                proof {
                    self.lemma_view_index(i as int);
                }
                return Some(i);
            }
            i = i + 1;
        }
        proof {
            if self@.dom().contains(paddr) {
                let j = choose|j: int|
                    0 <= j < self.tables@.len() && (#[trigger] self.tables@[j]).paddr == paddr;
                assert(self.tables@[j].paddr != paddr);
            }
        }
        None
    }

    /// Overwrite one entry of the table at index `ti`.
    fn set_table_entry(&mut self, ti: usize, ei: usize, e: u64)
        requires
            old(self).wf(),
            ti < old(self).tables@.len(),
            ei < PT_ENTRIES,
        ensures
            final(self).wf(),
            final(self).root == old(self).root,
            final(self)@ == old(self)@.insert(
                old(self).tables@[ti as int].paddr,
                old(self)@[old(self).tables@[ti as int].paddr].update(ei as int, e),
            ),
    {
        proof {
            self.lemma_view_index(ti as int);
        }
        let mut t = self.tables.remove(ti);
        t.entries.set(ei, e);
        self.tables.insert(ti, t);
        proof {
            let p = old(self).tables@[ti as int].paddr;
            assert(self.tables@ =~= old(self).tables@.update(
                ti as int,
                Table {
                    paddr: p,
                    entries: self.tables@[ti as int].entries,
                },
            ));
            assert(self.tables@[ti as int].paddr == p);
            assert(self.tables@[ti as int].entries@ == old(self).tables@[
                ti as int].entries@.update(ei as int, e));
            assert forall|k: int|
                0 <= k < self.tables@.len() implies (#[trigger] self.tables@[k]).wf() && (k != ti
                ==> self.tables@[k] == old(self).tables@[k]) by {
                assert(old(self).tables@[k].wf());
            }
            let je = choose|i: int|
                0 <= i < old(self).tables@.len() && (#[trigger] old(self).tables@[i]).paddr == old(
                    self,
                ).root;
            assert(self.tables@[je].paddr == self.root);
            assert(self.wf());
            assert forall|q: u64| self@.dom().contains(q) <==> old(self)@.insert(
                p,
                old(self)@[p].update(ei as int, e),
            ).dom().contains(q) by {
                if q == p {
                    self.lemma_view_index(ti as int);
                } else {
                    if old(self)@.dom().contains(q) {
                        let j = choose|j: int|
                            0 <= j < old(self).tables@.len() && (#[trigger] old(
                                self,
                            ).tables@[j]).paddr == q;
                        assert(self.tables@[j].paddr == q);
                    }
                    if self@.dom().contains(q) {
                        let j = choose|j: int|
                            0 <= j < self.tables@.len() && (#[trigger] self.tables@[j]).paddr
                                == q;
                        assert(old(self).tables@[j].paddr == q);
                    }
                }
            }
            assert forall|q: u64| self@.dom().contains(q) implies self@[q] == old(self)@.insert(
                p,
                old(self)@[p].update(ei as int, e),
            )[q] by {
                let j = choose|j: int|
                    0 <= j < self.tables@.len() && (#[trigger] self.tables@[j]).paddr == q;
                self.lemma_view_index(j);
                if q == p {
                    assert(j == ti);
                } else {
                    assert(j != ti);
                    old(self).lemma_view_index(j);
                }
            }
            assert(self@ =~= old(self)@.insert(p, old(self)@[p].update(ei as int, e)));
        }
    }

    /// Add a fresh zeroed table at a physical address not yet used.
    fn add_table(&mut self, paddr: u64)
        requires
            old(self).wf(),
            !old(self)@.dom().contains(paddr),
        ensures
            final(self).wf(),
            final(self).root == old(self).root,
            final(self)@ == old(self)@.insert(paddr, Seq::new(PT_ENTRIES as nat, |i: int| 0u64)),
    {
        self.tables.push(Table::new(paddr));
        proof {
            let n = self.tables@.len() - 1;
            assert forall|i: int, j: int|
                0 <= i < j < self.tables@.len() implies self.tables@[i].paddr
                != self.tables@[j].paddr by {
                if j == n {
                    if self.tables@[i].paddr == paddr {
                        old(self).lemma_view_index(i);
                    }
                } else {
                }
            }
            assert forall|i: int|
                0 <= i < self.tables@.len() implies (#[trigger] self.tables@[i]).wf() by {
                if i < n {
                    assert(old(self).tables@[i].wf());
                }
            }
            let je = choose|i: int|
                0 <= i < old(self).tables@.len() && (#[trigger] old(self).tables@[i]).paddr == old(
                    self,
                ).root;
            assert(self.tables@[je].paddr == self.root);
            assert(self.wf());
            assert forall|q: u64| #[trigger]
                self@.dom().contains(q) <==> (old(self)@.dom().contains(q) || q == paddr) by {
                if self@.dom().contains(q) {
                    let j = choose|j: int|
                        0 <= j < self.tables@.len() && (#[trigger] self.tables@[j]).paddr == q;
                    if j < n {
                        assert(old(self).tables@[j].paddr == q);
                    }
                }
                if old(self)@.dom().contains(q) {
                    let j = choose|j: int|
                        0 <= j < old(self).tables@.len() && (#[trigger] old(
                            self,
                        ).tables@[j]).paddr == q;
                    assert(self.tables@[j].paddr == q);
                }
                assert(self.tables@[n].paddr == paddr);
            }
            assert forall|q: u64| self@.dom().contains(q) implies self@[q] == old(self)@.insert(
                paddr,
                Seq::new(PT_ENTRIES as nat, |i: int| 0u64),
            )[q] by {
                let j = choose|j: int|
                    0 <= j < self.tables@.len() && (#[trigger] self.tables@[j]).paddr == q;
                self.lemma_view_index(j);
                if q == paddr {
                    assert(j == n);
                    assert(self.tables@[n].entries@ =~= Seq::new(
                        PT_ENTRIES as nat,
                        |i: int| 0u64,
                    ));
                } else {
                    assert(j != n);
                    old(self).lemma_view_index(j);
                }
            }
            assert(self@ =~= old(self)@.insert(paddr, Seq::new(PT_ENTRIES as nat, |i: int| 0u64)));
        }
    }
}

/// Walking the tables for `vaddr`: follow PML4, PDPT, PD, PT until a
/// not-present entry, a huge-page entry, or the final PTE.
pub open spec fn spec_walk(v: Map<u64, Seq<u64>>, root: u64, vaddr: u64) -> Result<
    WalkResult,
    VSpaceError,
> {
    if !spec_is_canonical(vaddr) {
        Err(VSpaceError::InvalidVAddr)
    } else {
        let idx = spec_vaddr_indices(vaddr);
        if !v.dom().contains(root) {
            Err(VSpaceError::MissingTable)
        } else {
            let e4 = v[root][idx.0 as int];
            if !pte_present(e4) {
                Ok(WalkResult::NotMapped { level: 4 })
            } else if !v.dom().contains(pte_addr(e4)) {
                Err(VSpaceError::MissingTable)
            } else {
                let e3 = v[pte_addr(e4)][idx.1 as int];
                if !pte_present(e3) {
                    Ok(WalkResult::NotMapped { level: 3 })
                } else if pte_huge(e3) {
                    Ok(WalkResult::MappedPage {
                        paddr: pte_addr(e3),
                        size: FrameSize::Huge,
                        level: 3,
                    })
                } else if !v.dom().contains(pte_addr(e3)) {
                    Err(VSpaceError::MissingTable)
                } else {
                    let e2 = v[pte_addr(e3)][idx.2 as int];
                    if !pte_present(e2) {
                        Ok(WalkResult::NotMapped { level: 2 })
                    } else if pte_huge(e2) {
                        Ok(WalkResult::MappedPage {
                            paddr: pte_addr(e2),
                            size: FrameSize::Large,
                            level: 2,
                        })
                    } else if !v.dom().contains(pte_addr(e2)) {
                        Err(VSpaceError::MissingTable)
                    } else {
                        let e1 = v[pte_addr(e2)][idx.3 as int];
                        if !pte_present(e1) {
                            Ok(WalkResult::NotMapped { level: 1 })
                        } else {
                            Ok(WalkResult::MappedPage {
                                paddr: pte_addr(e1),
                                size: FrameSize::Small,
                                level: 1,
                            })
                        }
                    }
                }
            }
        }
    }
}

/// Mapping a 4 KiB frame: all three interior levels must hold present
/// table links, the target PTE must be absent; the new PTE carries the
/// masked frame address and the attribute flags.
pub open spec fn spec_map_4k(
    v: Map<u64, Seq<u64>>,
    root: u64,
    vaddr: u64,
    frame_paddr: u64,
    attr: VMAttributes,
) -> Result<Map<u64, Seq<u64>>, VSpaceError> {
    if !spec_is_canonical(vaddr) {
        Err(VSpaceError::InvalidVAddr)
    } else if !FrameSize::Small.spec_is_aligned(vaddr) {
        Err(VSpaceError::MisalignedVAddr)
    } else if !FrameSize::Small.spec_is_aligned(frame_paddr) {
        Err(VSpaceError::MisalignedPAddr)
    } else {
        let idx = spec_vaddr_indices(vaddr);
        if !v.dom().contains(root) {
            Err(VSpaceError::MissingTable)
        } else {
            let e4 = v[root][idx.0 as int];
            if !pte_present(e4) {
                Err(VSpaceError::MissingTable)
            } else if !v.dom().contains(pte_addr(e4)) {
                Err(VSpaceError::MissingTable)
            } else {
                let e3 = v[pte_addr(e4)][idx.1 as int];
                if !pte_present(e3) {
                    Err(VSpaceError::MissingTable)
                } else if pte_huge(e3) {
                    Err(VSpaceError::AlreadyMapped)
                } else if !v.dom().contains(pte_addr(e3)) {
                    Err(VSpaceError::MissingTable)
                } else {
                    let e2 = v[pte_addr(e3)][idx.2 as int];
                    if !pte_present(e2) {
                        Err(VSpaceError::MissingTable)
                    } else if pte_huge(e2) {
                        Err(VSpaceError::AlreadyMapped)
                    } else if !v.dom().contains(pte_addr(e2)) {
                        Err(VSpaceError::MissingTable)
                    } else {
                        let e1 = v[pte_addr(e2)][idx.3 as int];
                        if pte_present(e1) {
                            Err(VSpaceError::AlreadyMapped)
                        } else {
                            Ok(
                                v.insert(
                                    pte_addr(e2),
                                    v[pte_addr(e2)].update(
                                        idx.3 as int,
                                        (frame_paddr & PT_ADDR_MASK) | spec_build_flags(attr),
                                    ),
                                ),
                            )
                        }
                    }
                }
            }
        }
    }
}

/// Mapping a 2 MiB frame: two interior levels of table links, absent PD
/// entry; the new PDE carries the huge bit.
pub open spec fn spec_map_2m(
    v: Map<u64, Seq<u64>>,
    root: u64,
    vaddr: u64,
    frame_paddr: u64,
    attr: VMAttributes,
) -> Result<Map<u64, Seq<u64>>, VSpaceError> {
    if !spec_is_canonical(vaddr) {
        Err(VSpaceError::InvalidVAddr)
    } else if !FrameSize::Large.spec_is_aligned(vaddr) {
        Err(VSpaceError::MisalignedVAddr)
    } else if !FrameSize::Large.spec_is_aligned(frame_paddr) {
        Err(VSpaceError::MisalignedPAddr)
    } else {
        let idx = spec_vaddr_indices(vaddr);
        if !v.dom().contains(root) {
            Err(VSpaceError::MissingTable)
        } else {
            let e4 = v[root][idx.0 as int];
            if !pte_present(e4) {
                Err(VSpaceError::MissingTable)
            } else if !v.dom().contains(pte_addr(e4)) {
                Err(VSpaceError::MissingTable)
            } else {
                let e3 = v[pte_addr(e4)][idx.1 as int];
                if !pte_present(e3) {
                    Err(VSpaceError::MissingTable)
                } else if pte_huge(e3) {
                    Err(VSpaceError::AlreadyMapped)
                } else if !v.dom().contains(pte_addr(e3)) {
                    Err(VSpaceError::MissingTable)
                } else {
                    let e2 = v[pte_addr(e3)][idx.2 as int];
                    if pte_present(e2) {
                        Err(VSpaceError::AlreadyMapped)
                    } else {
                        Ok(
                            v.insert(
                                pte_addr(e3),
                                v[pte_addr(e3)].update(
                                    idx.2 as int,
                                    (frame_paddr & PT_ADDR_MASK) | spec_build_flags(attr)
                                        | PT_HUGE,
                                ),
                            ),
                        )
                    }
                }
            }
        }
    }
}

/// Mapping a 1 GiB frame: one interior level, absent PDPT entry; the new
/// PDPTE carries the huge bit.
pub open spec fn spec_map_1g(
    v: Map<u64, Seq<u64>>,
    root: u64,
    vaddr: u64,
    frame_paddr: u64,
    attr: VMAttributes,
) -> Result<Map<u64, Seq<u64>>, VSpaceError> {
    if !spec_is_canonical(vaddr) {
        Err(VSpaceError::InvalidVAddr)
    } else if !FrameSize::Huge.spec_is_aligned(vaddr) {
        Err(VSpaceError::MisalignedVAddr)
    } else if !FrameSize::Huge.spec_is_aligned(frame_paddr) {
        Err(VSpaceError::MisalignedPAddr)
    } else {
        let idx = spec_vaddr_indices(vaddr);
        if !v.dom().contains(root) {
            Err(VSpaceError::MissingTable)
        } else {
            let e4 = v[root][idx.0 as int];
            if !pte_present(e4) {
                Err(VSpaceError::MissingTable)
            } else if !v.dom().contains(pte_addr(e4)) {
                Err(VSpaceError::MissingTable)
            } else {
                let e3 = v[pte_addr(e4)][idx.1 as int];
                if pte_present(e3) {
                    Err(VSpaceError::AlreadyMapped)
                } else {
                    Ok(
                        v.insert(
                            pte_addr(e4),
                            v[pte_addr(e4)].update(
                                idx.1 as int,
                                (frame_paddr & PT_ADDR_MASK) | spec_build_flags(attr) | PT_HUGE,
                            ),
                        ),
                    )
                }
            }
        }
    }
}

/// Unmapping: walk to the mapped leaf, clear it, and report the freed
/// physical address and page size.
pub open spec fn spec_unmap(v: Map<u64, Seq<u64>>, root: u64, vaddr: u64) -> Result<
    (Map<u64, Seq<u64>>, u64, FrameSize),
    VSpaceError,
> {
    if !spec_is_canonical(vaddr) {
        Err(VSpaceError::InvalidVAddr)
    } else {
        let idx = spec_vaddr_indices(vaddr);
        if !v.dom().contains(root) {
            Err(VSpaceError::MissingTable)
        } else {
            let e4 = v[root][idx.0 as int];
            if !pte_present(e4) {
                Err(VSpaceError::NotMapped)
            } else if !v.dom().contains(pte_addr(e4)) {
                Err(VSpaceError::MissingTable)
            } else {
                let e3 = v[pte_addr(e4)][idx.1 as int];
                if !pte_present(e3) {
                    Err(VSpaceError::NotMapped)
                } else if pte_huge(e3) {
                    Ok(
                        (
                            v.insert(pte_addr(e4), v[pte_addr(e4)].update(idx.1 as int, 0)),
                            pte_addr(e3),
                            FrameSize::Huge,
                        ),
                    )
                } else if !v.dom().contains(pte_addr(e3)) {
                    Err(VSpaceError::MissingTable)
                } else {
                    let e2 = v[pte_addr(e3)][idx.2 as int];
                    if !pte_present(e2) {
                        Err(VSpaceError::NotMapped)
                    } else if pte_huge(e2) {
                        Ok(
                            (
                                v.insert(pte_addr(e3), v[pte_addr(e3)].update(idx.2 as int, 0)),
                                pte_addr(e2),
                                FrameSize::Large,
                            ),
                        )
                    } else if !v.dom().contains(pte_addr(e2)) {
                        Err(VSpaceError::MissingTable)
                    } else {
                        let e1 = v[pte_addr(e2)][idx.3 as int];
                        if !pte_present(e1) {
                            Err(VSpaceError::NotMapped)
                        } else {
                            Ok(
                                (
                                    v.insert(
                                        pte_addr(e2),
                                        v[pte_addr(e2)].update(idx.3 as int, 0),
                                    ),
                                    pte_addr(e1),
                                    FrameSize::Small,
                                ),
                            )
                        }
                    }
                }
            }
        }
    }
}

impl VSpaceObj {
    /// Follow the four levels of tables for `vaddr`.
    pub fn walk(&self, vaddr: u64) -> (r: Result<WalkResult, VSpaceError>)
        requires
            self.wf(),
        ensures
            r == spec_walk(self@, self.root, vaddr),
    {
        if !is_canonical(vaddr) {
            return Err(VSpaceError::InvalidVAddr);
        }
        let idx = vaddr_indices(vaddr);
        let t4 = match self.find_table(self.root) {
            None => {
                return Err(VSpaceError::MissingTable);
            },
            Some(t) => t,
        };
        let e4 = self.tables[t4].entries[idx.0 as usize];
        if e4 & PT_PRESENT == 0 {
            return Ok(WalkResult::NotMapped { level: 4 });
        }
        let t3 = match self.find_table(e4 & PT_ADDR_MASK) {
            None => {
                return Err(VSpaceError::MissingTable);
            },
            Some(t) => t,
        };
        let e3 = self.tables[t3].entries[idx.1 as usize];
        if e3 & PT_PRESENT == 0 {
            return Ok(WalkResult::NotMapped { level: 3 });
        }
        if e3 & PT_HUGE != 0 {
            return Ok(WalkResult::MappedPage {
                paddr: e3 & PT_ADDR_MASK,
                size: FrameSize::Huge,
                level: 3,
            });
        }
        let t2 = match self.find_table(e3 & PT_ADDR_MASK) {
            None => {
                return Err(VSpaceError::MissingTable);
            },
            Some(t) => t,
        };
        let e2 = self.tables[t2].entries[idx.2 as usize];
        if e2 & PT_PRESENT == 0 {
            return Ok(WalkResult::NotMapped { level: 2 });
        }
        if e2 & PT_HUGE != 0 {
            return Ok(WalkResult::MappedPage {
                paddr: e2 & PT_ADDR_MASK,
                size: FrameSize::Large,
                level: 2,
            });
        }
        let t1 = match self.find_table(e2 & PT_ADDR_MASK) {
            None => {
                return Err(VSpaceError::MissingTable);
            },
            Some(t) => t,
        };
        let e1 = self.tables[t1].entries[idx.3 as usize];
        if e1 & PT_PRESENT == 0 {
            return Ok(WalkResult::NotMapped { level: 1 });
        }
        Ok(WalkResult::MappedPage { paddr: e1 & PT_ADDR_MASK, size: FrameSize::Small, level: 1 })
    }

    /// Install a 4 KiB mapping.
    pub fn map_4k(&mut self, vaddr: u64, frame_paddr: u64, attr: VMAttributes) -> (r: Result<
        (),
        VSpaceError,
    >)
        requires
            old(self).wf(),
        ensures
            final(self).wf(),
            final(self).root == old(self).root,
            match r {
                Ok(()) => spec_map_4k(old(self)@, old(self).root, vaddr, frame_paddr, attr)
                    == Ok::<Map<u64, Seq<u64>>, VSpaceError>(final(self)@),
                Err(e) => spec_map_4k(old(self)@, old(self).root, vaddr, frame_paddr, attr)
                    == Err::<Map<u64, Seq<u64>>, VSpaceError>(e) && final(self)@ == old(self)@,
            },
    {
        if !is_canonical(vaddr) {
            return Err(VSpaceError::InvalidVAddr);
        }
        if !FrameSize::Small.is_aligned(vaddr) {
            return Err(VSpaceError::MisalignedVAddr);
        }
        if !FrameSize::Small.is_aligned(frame_paddr) {
            return Err(VSpaceError::MisalignedPAddr);
        }
        let idx = vaddr_indices(vaddr);
        let t4 = match self.find_table(self.root) {
            None => {
                return Err(VSpaceError::MissingTable);
            },
            Some(t) => t,
        };
        let e4 = self.tables[t4].entries[idx.0 as usize];
        if e4 & PT_PRESENT == 0 {
            return Err(VSpaceError::MissingTable);
        }
        let t3 = match self.find_table(e4 & PT_ADDR_MASK) {
            None => {
                return Err(VSpaceError::MissingTable);
            },
            Some(t) => t,
        };
        let e3 = self.tables[t3].entries[idx.1 as usize];
        if e3 & PT_PRESENT == 0 {
            return Err(VSpaceError::MissingTable);
        }
        if e3 & PT_HUGE != 0 {
            return Err(VSpaceError::AlreadyMapped);
        }
        let t2 = match self.find_table(e3 & PT_ADDR_MASK) {
            None => {
                return Err(VSpaceError::MissingTable);
            },
            Some(t) => t,
        };
        let e2 = self.tables[t2].entries[idx.2 as usize];
        if e2 & PT_PRESENT == 0 {
            return Err(VSpaceError::MissingTable);
        }
        if e2 & PT_HUGE != 0 {
            return Err(VSpaceError::AlreadyMapped);
        }
        let t1 = match self.find_table(e2 & PT_ADDR_MASK) {
            None => {
                return Err(VSpaceError::MissingTable);
            },
            Some(t) => t,
        };
        let e1 = self.tables[t1].entries[idx.3 as usize];
        if e1 & PT_PRESENT != 0 {
            return Err(VSpaceError::AlreadyMapped);
        }
        let flags = build_flags(&attr);
        self.set_table_entry(t1, idx.3 as usize, (frame_paddr & PT_ADDR_MASK) | flags);
        Ok(())
    }

    /// Install a 2 MiB mapping.
    pub fn map_2m(&mut self, vaddr: u64, frame_paddr: u64, attr: VMAttributes) -> (r: Result<
        (),
        VSpaceError,
    >)
        requires
            old(self).wf(),
        ensures
            final(self).wf(),
            final(self).root == old(self).root,
            match r {
                Ok(()) => spec_map_2m(old(self)@, old(self).root, vaddr, frame_paddr, attr)
                    == Ok::<Map<u64, Seq<u64>>, VSpaceError>(final(self)@),
                Err(e) => spec_map_2m(old(self)@, old(self).root, vaddr, frame_paddr, attr)
                    == Err::<Map<u64, Seq<u64>>, VSpaceError>(e) && final(self)@ == old(self)@,
            },
    {
        if !is_canonical(vaddr) {
            return Err(VSpaceError::InvalidVAddr);
        }
        if !FrameSize::Large.is_aligned(vaddr) {
            return Err(VSpaceError::MisalignedVAddr);
        }
        if !FrameSize::Large.is_aligned(frame_paddr) {
            return Err(VSpaceError::MisalignedPAddr);
        }
        let idx = vaddr_indices(vaddr);
        let t4 = match self.find_table(self.root) {
            None => {
                return Err(VSpaceError::MissingTable);
            },
            Some(t) => t,
        };
        let e4 = self.tables[t4].entries[idx.0 as usize];
        if e4 & PT_PRESENT == 0 {
            return Err(VSpaceError::MissingTable);
        }
        let t3 = match self.find_table(e4 & PT_ADDR_MASK) {
            None => {
                return Err(VSpaceError::MissingTable);
            },
            Some(t) => t,
        };
        let e3 = self.tables[t3].entries[idx.1 as usize];
        if e3 & PT_PRESENT == 0 {
            return Err(VSpaceError::MissingTable);
        }
        if e3 & PT_HUGE != 0 {
            return Err(VSpaceError::AlreadyMapped);
        }
        let t2 = match self.find_table(e3 & PT_ADDR_MASK) {
            None => {
                return Err(VSpaceError::MissingTable);
            },
            Some(t) => t,
        };
        let e2 = self.tables[t2].entries[idx.2 as usize];
        if e2 & PT_PRESENT != 0 {
            return Err(VSpaceError::AlreadyMapped);
        }
        let flags = build_flags(&attr);
        self.set_table_entry(t2, idx.2 as usize, (frame_paddr & PT_ADDR_MASK) | flags | PT_HUGE);
        Ok(())
    }

    /// Install a 1 GiB mapping.
    pub fn map_1g(&mut self, vaddr: u64, frame_paddr: u64, attr: VMAttributes) -> (r: Result<
        (),
        VSpaceError,
    >)
        requires
            old(self).wf(),
        ensures
            final(self).wf(),
            final(self).root == old(self).root,
            match r {
                Ok(()) => spec_map_1g(old(self)@, old(self).root, vaddr, frame_paddr, attr)
                    == Ok::<Map<u64, Seq<u64>>, VSpaceError>(final(self)@),
                Err(e) => spec_map_1g(old(self)@, old(self).root, vaddr, frame_paddr, attr)
                    == Err::<Map<u64, Seq<u64>>, VSpaceError>(e) && final(self)@ == old(self)@,
            },
    {
        if !is_canonical(vaddr) {
            return Err(VSpaceError::InvalidVAddr);
        }
        if !FrameSize::Huge.is_aligned(vaddr) {
            return Err(VSpaceError::MisalignedVAddr);
        }
        if !FrameSize::Huge.is_aligned(frame_paddr) {
            return Err(VSpaceError::MisalignedPAddr);
        }
        let idx = vaddr_indices(vaddr);
        let t4 = match self.find_table(self.root) {
            None => {
                return Err(VSpaceError::MissingTable);
            },
            Some(t) => t,
        };
        let e4 = self.tables[t4].entries[idx.0 as usize];
        if e4 & PT_PRESENT == 0 {
            return Err(VSpaceError::MissingTable);
        }
        let t3 = match self.find_table(e4 & PT_ADDR_MASK) {
            None => {
                return Err(VSpaceError::MissingTable);
            },
            Some(t) => t,
        };
        let e3 = self.tables[t3].entries[idx.1 as usize];
        if e3 & PT_PRESENT != 0 {
            return Err(VSpaceError::AlreadyMapped);
        }
        let flags = build_flags(&attr);
        self.set_table_entry(t3, idx.1 as usize, (frame_paddr & PT_ADDR_MASK) | flags | PT_HUGE);
        Ok(())
    }

    /// Remove the mapping covering `vaddr` and return the freed frame.
    /// Intermediate tables are never freed.
    pub fn unmap(&mut self, vaddr: u64) -> (r: Result<(u64, FrameSize), VSpaceError>)
        requires
            old(self).wf(),
        ensures
            final(self).wf(),
            final(self).root == old(self).root,
            match r {
                Ok((pa, sz)) => spec_unmap(old(self)@, old(self).root, vaddr) == Ok::<
                    (Map<u64, Seq<u64>>, u64, FrameSize),
                    VSpaceError,
                >((final(self)@, pa, sz)),
                Err(e) => spec_unmap(old(self)@, old(self).root, vaddr) == Err::<
                    (Map<u64, Seq<u64>>, u64, FrameSize),
                    VSpaceError,
                >(e) && final(self)@ == old(self)@,
            },
    {
        if !is_canonical(vaddr) {
            return Err(VSpaceError::InvalidVAddr);
        }
        let idx = vaddr_indices(vaddr);
        let t4 = match self.find_table(self.root) {
            None => {
                return Err(VSpaceError::MissingTable);
            },
            Some(t) => t,
        };
        let e4 = self.tables[t4].entries[idx.0 as usize];
        if e4 & PT_PRESENT == 0 {
            return Err(VSpaceError::NotMapped);
        }
        let t3 = match self.find_table(e4 & PT_ADDR_MASK) {
            None => {
                return Err(VSpaceError::MissingTable);
            },
            Some(t) => t,
        };
        let e3 = self.tables[t3].entries[idx.1 as usize];
        if e3 & PT_PRESENT == 0 {
            return Err(VSpaceError::NotMapped);
        }
        if e3 & PT_HUGE != 0 {
            self.set_table_entry(t3, idx.1 as usize, 0);
            return Ok((e3 & PT_ADDR_MASK, FrameSize::Huge));
        }
        let t2 = match self.find_table(e3 & PT_ADDR_MASK) {
            None => {
                return Err(VSpaceError::MissingTable);
            },
            Some(t) => t,
        };
        let e2 = self.tables[t2].entries[idx.2 as usize];
        if e2 & PT_PRESENT == 0 {
            return Err(VSpaceError::NotMapped);
        }
        if e2 & PT_HUGE != 0 {
            self.set_table_entry(t2, idx.2 as usize, 0);
            return Ok((e2 & PT_ADDR_MASK, FrameSize::Large));
        }
        let t1 = match self.find_table(e2 & PT_ADDR_MASK) {
            None => {
                return Err(VSpaceError::MissingTable);
            },
            Some(t) => t,
        };
        let e1 = self.tables[t1].entries[idx.3 as usize];
        if e1 & PT_PRESENT == 0 {
            return Err(VSpaceError::NotMapped);
        }
        self.set_table_entry(t1, idx.3 as usize, 0);
        Ok((e1 & PT_ADDR_MASK, FrameSize::Small))
    }

    /// Place a new interior table at the requested level on the path of
    /// `vaddr`: level 3 fills a PML4 entry, level 2 a PDPT entry, level
    /// 1 a PD entry.  The parent level must be present and the target
    /// entry absent; the new table is claimed, zeroed, at `table_paddr`.
    pub fn install_table(&mut self, vaddr: u64, level: u64, table_paddr: u64) -> (r: Result<
        (),
        VSpaceError,
    >)
        requires
            old(self).wf(),
        ensures
            final(self).wf(),
            final(self).root == old(self).root,
            match r {
                Ok(()) => spec_install_table(old(self)@, old(self).root, vaddr, level, table_paddr)
                    == Ok::<Map<u64, Seq<u64>>, VSpaceError>(final(self)@),
                Err(e) => spec_install_table(old(self)@, old(self).root, vaddr, level, table_paddr)
                    == Err::<Map<u64, Seq<u64>>, VSpaceError>(e) && final(self)@ == old(self)@,
            },
    {
        if !is_canonical(vaddr) {
            return Err(VSpaceError::InvalidVAddr);
        }
        if table_paddr & 0xfff != 0 {
            return Err(VSpaceError::MisalignedPAddr);
        }
        if self.find_table(table_paddr).is_some() {
            return Err(VSpaceError::AllocationFailed);
        }
        let idx = vaddr_indices(vaddr);
        if level == 3 {
            let t4 = match self.find_table(self.root) {
                None => {
                    return Err(VSpaceError::MissingTable);
                },
                Some(t) => t,
            };
            let e4 = self.tables[t4].entries[idx.0 as usize];
            if e4 & PT_PRESENT != 0 {
                return Err(VSpaceError::AlreadyMapped);
            }
            self.set_table_entry(t4, idx.0 as usize, (table_paddr & PT_ADDR_MASK) | 0x7);
            self.add_table(table_paddr);
            Ok(())
        } else if level == 2 {
            let t4 = match self.find_table(self.root) {
                None => {
                    return Err(VSpaceError::MissingTable);
                },
                Some(t) => t,
            };
            let e4 = self.tables[t4].entries[idx.0 as usize];
            if e4 & PT_PRESENT == 0 {
                return Err(VSpaceError::MissingTable);
            }
            let t3 = match self.find_table(e4 & PT_ADDR_MASK) {
                None => {
                    return Err(VSpaceError::MissingTable);
                },
                Some(t) => t,
            };
            let e3 = self.tables[t3].entries[idx.1 as usize];
            if e3 & PT_PRESENT != 0 {
                return Err(VSpaceError::AlreadyMapped);
            }
            self.set_table_entry(t3, idx.1 as usize, (table_paddr & PT_ADDR_MASK) | 0x7);
            self.add_table(table_paddr);
            Ok(())
        } else if level == 1 {
            let t4 = match self.find_table(self.root) {
                None => {
                    return Err(VSpaceError::MissingTable);
                },
                Some(t) => t,
            };
            let e4 = self.tables[t4].entries[idx.0 as usize];
            if e4 & PT_PRESENT == 0 {
                return Err(VSpaceError::MissingTable);
            }
            let t3 = match self.find_table(e4 & PT_ADDR_MASK) {
                None => {
                    return Err(VSpaceError::MissingTable);
                },
                Some(t) => t,
            };
            let e3 = self.tables[t3].entries[idx.1 as usize];
            if e3 & PT_PRESENT == 0 {
                return Err(VSpaceError::MissingTable);
            }
            if e3 & PT_HUGE != 0 {
                return Err(VSpaceError::AlreadyMapped);
            }
            let t2 = match self.find_table(e3 & PT_ADDR_MASK) {
                None => {
                    return Err(VSpaceError::MissingTable);
                },
                Some(t) => t,
            };
            let e2 = self.tables[t2].entries[idx.2 as usize];
            if e2 & PT_PRESENT != 0 {
                return Err(VSpaceError::AlreadyMapped);
            }
            self.set_table_entry(t2, idx.2 as usize, (table_paddr & PT_ADDR_MASK) | 0x7);
            self.add_table(table_paddr);
            Ok(())
        } else {
            Err(VSpaceError::InvalidVAddr)
        }
    }
}

/// Installing an interior table: the checks in order, and on success
/// the parent-level entry becomes a present table link to `table_paddr`
/// and the zeroed table itself is claimed.
pub open spec fn spec_install_table(
    v: Map<u64, Seq<u64>>,
    root: u64,
    vaddr: u64,
    level: u64,
    table_paddr: u64,
) -> Result<Map<u64, Seq<u64>>, VSpaceError> {
    if !spec_is_canonical(vaddr) {
        Err(VSpaceError::InvalidVAddr)
    } else if table_paddr & 0xfff != 0 {
        Err(VSpaceError::MisalignedPAddr)
    } else if v.dom().contains(table_paddr) {
        Err(VSpaceError::AllocationFailed)
    } else {
        let idx = spec_vaddr_indices(vaddr);
        let link = (table_paddr & PT_ADDR_MASK) | 0x7;
        let zeros = Seq::new(PT_ENTRIES as nat, |i: int| 0u64);
        if level == 3 {
            if !v.dom().contains(root) {
                Err(VSpaceError::MissingTable)
            } else {
                let e4 = v[root][idx.0 as int];
                if pte_present(e4) {
                    Err(VSpaceError::AlreadyMapped)
                } else {
                    Ok(
                        v.insert(root, v[root].update(idx.0 as int, link)).insert(
                            table_paddr,
                            zeros,
                        ),
                    )
                }
            }
        } else if level == 2 {
            if !v.dom().contains(root) {
                Err(VSpaceError::MissingTable)
            } else {
                let e4 = v[root][idx.0 as int];
                if !pte_present(e4) {
                    Err(VSpaceError::MissingTable)
                } else if !v.dom().contains(pte_addr(e4)) {
                    Err(VSpaceError::MissingTable)
                } else {
                    let e3 = v[pte_addr(e4)][idx.1 as int];
                    if pte_present(e3) {
                        Err(VSpaceError::AlreadyMapped)
                    } else {
                        Ok(
                            v.insert(
                                pte_addr(e4),
                                v[pte_addr(e4)].update(idx.1 as int, link),
                            ).insert(table_paddr, zeros),
                        )
                    }
                }
            }
        } else if level == 1 {
            if !v.dom().contains(root) {
                Err(VSpaceError::MissingTable)
            } else {
                let e4 = v[root][idx.0 as int];
                if !pte_present(e4) {
                    Err(VSpaceError::MissingTable)
                } else if !v.dom().contains(pte_addr(e4)) {
                    Err(VSpaceError::MissingTable)
                } else {
                    let e3 = v[pte_addr(e4)][idx.1 as int];
                    if !pte_present(e3) {
                        Err(VSpaceError::MissingTable)
                    } else if pte_huge(e3) {
                        Err(VSpaceError::AlreadyMapped)
                    } else if !v.dom().contains(pte_addr(e3)) {
                        Err(VSpaceError::MissingTable)
                    } else {
                        let e2 = v[pte_addr(e3)][idx.2 as int];
                        if pte_present(e2) {
                            Err(VSpaceError::AlreadyMapped)
                        } else {
                            Ok(
                                v.insert(
                                    pte_addr(e3),
                                    v[pte_addr(e3)].update(idx.2 as int, link),
                                ).insert(table_paddr, zeros),
                            )
                        }
                    }
                }
            }
        } else {
            Err(VSpaceError::InvalidVAddr)
        }
    }
}

/// Every table of the view has the full 512 entries.
pub open spec fn spec_tables_sized(v: Map<u64, Seq<u64>>) -> bool {
    forall|p: u64| #[trigger] v.dom().contains(p) ==> v[p].len() == PT_ENTRIES
}

/// The tables on the walk path for `vaddr` down to the level that a
/// mapping of `sb` size bits would write are pairwise distinct, so
/// writing the leaf does not disturb the interior links.
pub open spec fn spec_chain_distinct(v: Map<u64, Seq<u64>>, root: u64, vaddr: u64, sb: u64) -> bool {
    let idx = spec_vaddr_indices(vaddr);
    let t3 = pte_addr(v[root][idx.0 as int]);
    let t2 = pte_addr(v[t3][idx.1 as int]);
    let t1 = pte_addr(v[t2][idx.2 as int]);
    if sb == 12 {
        t1 != root && t1 != t3 && t1 != t2
    } else if sb == 21 {
        t2 != root && t2 != t3
    } else if sb == 30 {
        t3 != root
    } else {
        true
    }
}

/// A frame's mapping record agrees with an address space: if the frame
/// is marked mapped, walking its recorded virtual address finds exactly
/// this frame, at its size.
pub open spec fn frame_vspace_coherent(c: CapRaw, v: Map<u64, Seq<u64>>, root: u64) -> bool {
    frame_is_mapped(c) ==> (spec_walk(v, root, frame_mapped_vaddr(c)) matches Ok(
        WalkResult::MappedPage { paddr, size, level },
    ) && paddr == c.paddr && size.spec_bits() == crate::frame::frame_size_bits(c))
}

/// At-most-one mapping, as a biconditional: under coherence a frame is
/// marked mapped exactly when its recorded ASID is non-zero and the
/// page tables translate its recorded virtual address to this frame at
/// its size.
pub proof fn lemma_frame_mapping_iff(c: CapRaw, v: Map<u64, Seq<u64>>, root: u64)
    requires
        frame_vspace_coherent(c, v, root),
    ensures
        frame_is_mapped(c) <==> (frame_mapped_asid(c) != 0 && (spec_walk(
            v,
            root,
            frame_mapped_vaddr(c),
        ) matches Ok(WalkResult::MappedPage { paddr, size, level }) && paddr == c.paddr
            && size.spec_bits() == frame_size_bits(c))),
{
}

/// Everything a frame map decides, in order: ASID zero is reserved, a
/// mapped frame maps nowhere else, the size must be supported, and then
/// the size-matched table update runs; on success the new tables and
/// the updated frame record.
pub open spec fn spec_map_frame(
    v: Map<u64, Seq<u64>>,
    root: u64,
    vaddr: u64,
    c: CapRaw,
    asid: u16,
    user: bool,
) -> Result<(Map<u64, Seq<u64>>, CapRaw), SysError> {
    if asid == 0 {
        Err(SysError::InvalidValue)
    } else if frame_is_mapped(c) {
        Err(SysError::FrameAlreadyMapped)
    } else if !(frame_size_bits(c) == 12 || frame_size_bits(c) == 21 || frame_size_bits(c)
        == 30) {
        Err(SysError::InvalidValue)
    } else {
        let attr = spec_vm_attributes(c, user);
        let m = if frame_size_bits(c) == 12 {
            spec_map_4k(v, root, vaddr, c.paddr, attr)
        } else if frame_size_bits(c) == 21 {
            spec_map_2m(v, root, vaddr, c.paddr, attr)
        } else {
            spec_map_1g(v, root, vaddr, c.paddr, attr)
        };
        match m {
            Err(e) => Err(crate::error::sys_error_of_vspace_error(e)),
            Ok(v2) => Ok((v2, frame_mapped_image(c, asid, vaddr))),
        }
    }
}

/// Everything a frame unmap decides: an unmapped frame has nothing to
/// undo; otherwise the translation the frame records is removed and the
/// record cleared.
pub open spec fn spec_unmap_frame(v: Map<u64, Seq<u64>>, root: u64, c: CapRaw) -> Result<
    (Map<u64, Seq<u64>>, CapRaw, u64, FrameSize),
    SysError,
> {
    if !frame_is_mapped(c) {
        Err(SysError::FrameNotMapped)
    } else {
        match spec_unmap(v, root, frame_mapped_vaddr(c)) {
            Err(e) => Err(crate::error::sys_error_of_vspace_error(e)),
            Ok((v2, pa, sz)) => Ok((v2, frame_cleared_image(c), pa, sz)),
        }
    }
}

impl VSpaceObj {
    /// Map a frame capability at `vaddr` and record the mapping in the
    /// capability, establishing the at-most-one-mapping invariant: a
    /// frame maps at most one virtual address, and while it is marked
    /// mapped the walk of that address finds exactly this frame.
    pub fn map_frame(&mut self, vaddr: u64, frame: &mut FrameCap, asid: u16, user: bool) -> (r:
        Result<(), SysError>)
        requires
            old(self).wf(),
            old(frame).wf(),
            old(frame).cap.paddr < 0x0010000000000000,
            spec_chain_distinct(
                old(self)@,
                old(self).root,
                vaddr,
                crate::frame::frame_size_bits(old(frame).cap),
            ),
        ensures
            final(self).wf(),
            final(self).root == old(self).root,
            final(frame).wf(),
            final(frame).cap.paddr == old(frame).cap.paddr,
            match r {
                Ok(()) => {
                    &&& spec_map_frame(old(self)@, old(self).root, vaddr, old(frame).cap, asid,
                    user) == Ok::<(Map<u64, Seq<u64>>, CapRaw), SysError>(
                        (final(self)@, final(frame).cap),
                    )
                    &&& frame_is_mapped(final(frame).cap)
                    &&& frame_mapped_vaddr(final(frame).cap) == vaddr
                    &&& frame_mapped_asid(final(frame).cap) == asid as u64
                    &&& frame_vspace_coherent(final(frame).cap, final(self)@, final(self).root)
                    &&& !frame_is_mapped(old(frame).cap)
                },
                Err(e) => spec_map_frame(old(self)@, old(self).root, vaddr, old(frame).cap, asid,
                user) == Err::<(Map<u64, Seq<u64>>, CapRaw), SysError>(e) && final(self)@ == old(
                    self,
                )@ && *final(frame) == *old(frame),
            },
    {
        if asid == 0 {
            return Err(SysError::InvalidValue);
        }
        if frame.is_mapped() {
            return Err(SysError::FrameAlreadyMapped);
        }
        let fs = frame.size();
        let sb = frame.size_bits();
        if !(sb == 12 || sb == 21 || sb == 30) {
            return Err(SysError::InvalidValue);
        }
        let attr = frame.vm_attributes(user);
        let fp = frame.cap.paddr;
        let ghost v0 = self@;
        let res: Result<(), VSpaceError> = match fs {
            FrameSize::Small => self.map_4k(vaddr, fp, attr),
            FrameSize::Large => self.map_2m(vaddr, fp, attr),
            FrameSize::Huge => self.map_1g(vaddr, fp, attr),
        };
        match res {
            Err(e) => Err(crate::error::SysError::from(e)),
            Ok(()) => {
                proof {
                    old(self).lemma_all_tables_sized();
                    lemma_map_walk_hit(v0, self.root, vaddr, fp, attr, fs);
                }
                match frame.set_mapped(asid, vaddr) {
                    Ok(()) => Ok(()),
                    Err(e) => {
                        proof {
                            assert(false);
                        }
                        Err(e)
                    },
                }
            },
        }
    }

    /// Undo a frame mapping: remove the translation the frame records
    /// and clear the record, returning the frame to unmapped.
    pub fn unmap_frame(&mut self, frame: &mut FrameCap) -> (r: Result<(u64, FrameSize), SysError>)
        requires
            old(self).wf(),
            old(frame).wf(),
        ensures
            final(self).wf(),
            final(self).root == old(self).root,
            final(frame).wf(),
            match r {
                Ok((pa, sz)) => {
                    &&& spec_unmap_frame(old(self)@, old(self).root, old(frame).cap) == Ok::<
                        (Map<u64, Seq<u64>>, CapRaw, u64, FrameSize),
                        SysError,
                    >((final(self)@, final(frame).cap, pa, sz))
                    &&& frame_is_mapped(old(frame).cap)
                    &&& !frame_is_mapped(final(frame).cap)
                    &&& frame_mapped_vaddr(final(frame).cap) == 0
                },
                Err(e) => spec_unmap_frame(old(self)@, old(self).root, old(frame).cap) == Err::<
                    (Map<u64, Seq<u64>>, CapRaw, u64, FrameSize),
                    SysError,
                >(e) && final(self)@ == old(self)@ && *final(frame) == *old(frame),
            },
    {
        if !frame.is_mapped() {
            return Err(SysError::FrameNotMapped);
        }
        let vaddr = frame.mapped_vaddr();
        match self.unmap(vaddr) {
            Err(e) => Err(crate::error::SysError::from(e)),
            Ok((pa, sz)) => {
                frame.clear_mapped();
                Ok((pa, sz))
            },
        }
    }
}

/// A successful map leaves a translation that the walk finds: the walk
/// of the mapped address returns the masked frame address at the
/// mapped size.
pub proof fn lemma_map_walk_hit(
    v: Map<u64, Seq<u64>>,
    root: u64,
    vaddr: u64,
    fp: u64,
    attr: VMAttributes,
    fs: FrameSize,
)
    requires
        match fs {
            FrameSize::Small => spec_map_4k(v, root, vaddr, fp, attr) is Ok,
            FrameSize::Large => spec_map_2m(v, root, vaddr, fp, attr) is Ok,
            FrameSize::Huge => spec_map_1g(v, root, vaddr, fp, attr) is Ok,
        },
        fp < 0x0010000000000000,
        spec_tables_sized(v),
        spec_chain_distinct(v, root, vaddr, fs.spec_bits()),
    ensures
        match fs {
            FrameSize::Small => spec_walk(
                spec_map_4k(v, root, vaddr, fp, attr)->Ok_0,
                root,
                vaddr,
            ) == Ok::<WalkResult, VSpaceError>(
                WalkResult::MappedPage { paddr: fp, size: FrameSize::Small, level: 1 },
            ),
            FrameSize::Large => spec_walk(
                spec_map_2m(v, root, vaddr, fp, attr)->Ok_0,
                root,
                vaddr,
            ) == Ok::<WalkResult, VSpaceError>(
                WalkResult::MappedPage { paddr: fp, size: FrameSize::Large, level: 2 },
            ),
            FrameSize::Huge => spec_walk(
                spec_map_1g(v, root, vaddr, fp, attr)->Ok_0,
                root,
                vaddr,
            ) == Ok::<WalkResult, VSpaceError>(
                WalkResult::MappedPage { paddr: fp, size: FrameSize::Huge, level: 3 },
            ),
        },
{
    let idx = spec_vaddr_indices(vaddr);
    lemma_new_page_bits(fp, attr);
    lemma_table_link_bits(fp);
    lemma_vaddr_indices_bounded(vaddr);
    assert((1u64 << 12) - 1 == 0xfff) by (bit_vector);
    assert((1u64 << 21) - 1 == 0x1fffff) by (bit_vector);
    assert((1u64 << 30) - 1 == 0x3fffffff) by (bit_vector);
    match fs {
        FrameSize::Small => {
            let e4 = v[root][idx.0 as int];
            let e3 = v[pte_addr(e4)][idx.1 as int];
            let e2 = v[pte_addr(e3)][idx.2 as int];
            let t1 = pte_addr(e2);
            let ne = (fp & PT_ADDR_MASK) | spec_build_flags(attr);
            let v2 = v.insert(t1, v[t1].update(idx.3 as int, ne));
            assert(spec_map_4k(v, root, vaddr, fp, attr) == Ok::<
                Map<u64, Seq<u64>>,
                VSpaceError,
            >(v2));
            assert(fp & PT_ADDR_MASK == fp) by (bit_vector)
                requires
                    fp < 0x0010000000000000,
                    fp & 0xfff == 0,
            ;
        },
        FrameSize::Large => {
            let e4 = v[root][idx.0 as int];
            let e3 = v[pte_addr(e4)][idx.1 as int];
            let t2 = pte_addr(e3);
            let ne = (fp & PT_ADDR_MASK) | spec_build_flags(attr) | PT_HUGE;
            let v2 = v.insert(t2, v[t2].update(idx.2 as int, ne));
            assert(spec_map_2m(v, root, vaddr, fp, attr) == Ok::<
                Map<u64, Seq<u64>>,
                VSpaceError,
            >(v2));
            assert(fp & PT_ADDR_MASK == fp) by (bit_vector)
                requires
                    fp < 0x0010000000000000,
                    fp & 0x1fffff == 0,
            ;
        },
        FrameSize::Huge => {
            let e4 = v[root][idx.0 as int];
            let t3 = pte_addr(e4);
            let ne = (fp & PT_ADDR_MASK) | spec_build_flags(attr) | PT_HUGE;
            let v2 = v.insert(t3, v[t3].update(idx.1 as int, ne));
            assert(spec_map_1g(v, root, vaddr, fp, attr) == Ok::<
                Map<u64, Seq<u64>>,
                VSpaceError,
            >(v2));
            assert(fp & PT_ADDR_MASK == fp) by (bit_vector)
                requires
                    fp < 0x0010000000000000,
                    fp & 0x3fffffff == 0,
            ;
        },
    }
}


/// Map then Unmap round-trip: after a successful map at any supported
/// size, unmapping the same address succeeds, hands back exactly the
/// mapped frame at its size, and leaves the page-table entry
/// not-present: the walk of that address reports the level unmapped.
pub proof fn lemma_map_then_unmap(
    v: Map<u64, Seq<u64>>,
    root: u64,
    vaddr: u64,
    fp: u64,
    attr: VMAttributes,
    fs: FrameSize,
)
    requires
        match fs {
            FrameSize::Small => spec_map_4k(v, root, vaddr, fp, attr) is Ok,
            FrameSize::Large => spec_map_2m(v, root, vaddr, fp, attr) is Ok,
            FrameSize::Huge => spec_map_1g(v, root, vaddr, fp, attr) is Ok,
        },
        fp < 0x0010000000000000,
        spec_tables_sized(v),
        spec_chain_distinct(v, root, vaddr, fs.spec_bits()),
    ensures
        ({
            let v2 = match fs {
                FrameSize::Small => spec_map_4k(v, root, vaddr, fp, attr)->Ok_0,
                FrameSize::Large => spec_map_2m(v, root, vaddr, fp, attr)->Ok_0,
                FrameSize::Huge => spec_map_1g(v, root, vaddr, fp, attr)->Ok_0,
            };
            let lvl: u64 = match fs {
                FrameSize::Small => 1,
                FrameSize::Large => 2,
                FrameSize::Huge => 3,
            };
            &&& spec_unmap(v2, root, vaddr) matches Ok((v3, pa, sz)) && {
                &&& pa == fp
                &&& sz == fs
                &&& spec_walk(v3, root, vaddr) == Ok::<WalkResult, VSpaceError>(
                    WalkResult::NotMapped { level: lvl },
                )
                &&& spec_unmap(v3, root, vaddr) == Err::<
                    (Map<u64, Seq<u64>>, u64, FrameSize),
                    VSpaceError,
                >(VSpaceError::NotMapped)
            }
        }),
{
    let idx = spec_vaddr_indices(vaddr);
    lemma_new_page_bits(fp, attr);
    lemma_table_link_bits(fp);
    lemma_vaddr_indices_bounded(vaddr);
    lemma_map_walk_hit(v, root, vaddr, fp, attr, fs);
    assert((1u64 << 12) - 1 == 0xfff) by (bit_vector);
    assert((1u64 << 21) - 1 == 0x1fffff) by (bit_vector);
    assert((1u64 << 30) - 1 == 0x3fffffff) by (bit_vector);
    assert(0u64 & 0x1 == 0) by (bit_vector);
    assert(0u64 & 0x80 == 0) by (bit_vector);
    match fs {
        FrameSize::Small => {
            let e4 = v[root][idx.0 as int];
            let e3 = v[pte_addr(e4)][idx.1 as int];
            let e2 = v[pte_addr(e3)][idx.2 as int];
            let t1 = pte_addr(e2);
            let ne = (fp & PT_ADDR_MASK) | spec_build_flags(attr);
            let v2 = v.insert(t1, v[t1].update(idx.3 as int, ne));
            assert(spec_map_4k(v, root, vaddr, fp, attr) == Ok::<
                Map<u64, Seq<u64>>,
                VSpaceError,
            >(v2));
            let v3 = v2.insert(t1, v2[t1].update(idx.3 as int, 0));
            assert(spec_unmap(v2, root, vaddr) == Ok::<
                (Map<u64, Seq<u64>>, u64, FrameSize),
                VSpaceError,
            >((v3, pte_addr(ne), FrameSize::Small)));
            assert(fp & PT_ADDR_MASK == fp) by (bit_vector)
                requires
                    fp < 0x0010000000000000,
                    fp & 0xfff == 0,
            ;
            assert(spec_walk(v3, root, vaddr) == Ok::<WalkResult, VSpaceError>(
                WalkResult::NotMapped { level: 1 },
            ));
        },
        FrameSize::Large => {
            let e4 = v[root][idx.0 as int];
            let e3 = v[pte_addr(e4)][idx.1 as int];
            let t2 = pte_addr(e3);
            let ne = (fp & PT_ADDR_MASK) | spec_build_flags(attr) | PT_HUGE;
            let v2 = v.insert(t2, v[t2].update(idx.2 as int, ne));
            assert(spec_map_2m(v, root, vaddr, fp, attr) == Ok::<
                Map<u64, Seq<u64>>,
                VSpaceError,
            >(v2));
            let v3 = v2.insert(t2, v2[t2].update(idx.2 as int, 0));
            assert(spec_unmap(v2, root, vaddr) == Ok::<
                (Map<u64, Seq<u64>>, u64, FrameSize),
                VSpaceError,
            >((v3, pte_addr(ne), FrameSize::Large)));
            assert(fp & PT_ADDR_MASK == fp) by (bit_vector)
                requires
                    fp < 0x0010000000000000,
                    fp & 0x1fffff == 0,
            ;
            assert(spec_walk(v3, root, vaddr) == Ok::<WalkResult, VSpaceError>(
                WalkResult::NotMapped { level: 2 },
            ));
        },
        FrameSize::Huge => {
            let e4 = v[root][idx.0 as int];
            let t3 = pte_addr(e4);
            let ne = (fp & PT_ADDR_MASK) | spec_build_flags(attr) | PT_HUGE;
            let v2 = v.insert(t3, v[t3].update(idx.1 as int, ne));
            assert(spec_map_1g(v, root, vaddr, fp, attr) == Ok::<
                Map<u64, Seq<u64>>,
                VSpaceError,
            >(v2));
            let v3 = v2.insert(t3, v2[t3].update(idx.1 as int, 0));
            assert(spec_unmap(v2, root, vaddr) == Ok::<
                (Map<u64, Seq<u64>>, u64, FrameSize),
                VSpaceError,
            >((v3, pte_addr(ne), FrameSize::Huge)));
            assert(fp & PT_ADDR_MASK == fp) by (bit_vector)
                requires
                    fp < 0x0010000000000000,
                    fp & 0x3fffffff == 0,
            ;
            assert(spec_walk(v3, root, vaddr) == Ok::<WalkResult, VSpaceError>(
                WalkResult::NotMapped { level: 3 },
            ));
        },
    }
}


} // verus!
