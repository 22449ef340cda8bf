//! The slot arena, the derivation chain (MDB) and CSpace lookup.
//!
//! All capability slots of the system live in one index-addressed arena;
//! a slot's index is its identity, standing in for the memory address of
//! the slot cell.  The derivation chain is a doubly-linked list threaded
//! through the `mdb_prev`/`mdb_next` fields of the stored records.  A
//! ghost rank map, strictly increasing along `mdb_next`, witnesses that
//! the chain is acyclic.

use vstd::prelude::*;

use crate::capability::{CapRaw, ObjType};
use crate::cnode::{CNodeEntry, CNODE_DEPTH};
use crate::error::SysError;

verus! {

/// Slot index an optional link points at, or -1 for no link; convenient
/// for writing frame conditions over links.
pub open spec fn link_target(o: Option<usize>) -> int {
    match o {
        Some(j) => j as int,
        None => -1,
    }
}

/// The links of slot `i` are consistent with the slots they point at:
/// every forward link is mirrored by a back link and vice versa.
pub open spec fn link_ok(s: Seq<CapRaw>, i: int) -> bool {
    &&& (s[i].mdb_next matches Some(j) ==> (j as int) < s.len() && link_target(
        s[j as int].mdb_prev,
    ) == i)
    &&& (s[i].mdb_prev matches Some(j) ==> (j as int) < s.len() && link_target(
        s[j as int].mdb_next,
    ) == i)
}

/// Every slot's links are consistent.
pub open spec fn links_wf(s: Seq<CapRaw>) -> bool {
    forall|i: int| 0 <= i < s.len() ==> #[trigger] link_ok(s, i)
}

/// The rank of slot `i` strictly increases along its forward link.
pub open spec fn rank_ok(s: Seq<CapRaw>, rank: Map<int, int>, i: int) -> bool {
    s[i].mdb_next matches Some(j) ==> rank[i] < rank[j as int]
}

/// The rank map strictly increases along every forward link, so the
/// derivation chain can have no cycle.
pub open spec fn ranks_ok(s: Seq<CapRaw>, rank: Map<int, int>) -> bool {
    forall|i: int| 0 <= i < s.len() ==> #[trigger] rank_ok(s, rank, i)
}

/// The arena of capability slots, together with the ghost rank witness
/// for acyclicity of the derivation chain.
pub struct SlotArena {
    /// The slots; CNode objects own contiguous ranges of this vector.
    pub slots: Vec<CNodeEntry>,
    /// Ghost witness: ranks strictly increase along `mdb_next`.
    pub rank: Ghost<Map<int, int>>,
}

impl View for SlotArena {
    type V = Seq<CapRaw>;

    open spec fn view(&self) -> Seq<CapRaw> {
        self.slots@.map(|i: int, e: CNodeEntry| e@)
    }
}

impl SlotArena {
    /// The derivation chain is well-formed: links are mirrored and the
    /// ghost ranks rule out cycles.
    pub open spec fn wf(self) -> bool {
        &&& links_wf(self@)
        &&& ranks_ok(self@, self.rank@)
    }

    /// A fresh arena of `n` empty slots.
    pub fn new(n: usize) -> (r: Self)
        ensures
            r.wf(),
            r@.len() == n,
            forall|i: int| 0 <= i < n ==> r@[i] == CapRaw::spec_default(),
    {
        let mut slots: Vec<CNodeEntry> = Vec::new();
        let mut k: usize = 0;
        while k < n
            invariant
                k <= n,
                slots@.len() == k,
                forall|i: int| 0 <= i < k ==> slots@[i]@ == CapRaw::spec_default(),
            decreases n - k,
        {
            slots.push(CNodeEntry::new());
            k = k + 1;
        }
        let r = Self { slots, rank: Ghost(Map::empty()) };
        proof {
            assert forall|i: int| 0 <= i < r@.len() implies #[trigger] link_ok(r@, i) by {
                assert(r@[i] == CapRaw::spec_default());
            }
            assert forall|i: int| 0 <= i < r@.len() implies #[trigger] rank_ok(r@, r.rank@, i) by {
                assert(r@[i] == CapRaw::spec_default());
            }
        }
        r
    }

    /// Number of slots.
    pub fn len(&self) -> (r: usize)
        ensures
            r == self@.len(),
    {
        self.slots.len()
    }

    /// Read the capability record stored in slot `i`.
    pub fn get_slot(&self, i: usize) -> (r: CapRaw)
        requires
            i < self@.len(),
        ensures
            r == self@[i as int],
    {
        self.slots[i].get()
    }

    /// Overwrite an isolated slot with a record that carries no links.
    ///
    /// Restricting the write to link-free records on both sides keeps the
    /// derivation chain consistent: no other slot can point at an
    /// isolated slot.
    pub fn write_slot(&mut self, i: usize, cap: CapRaw)
        requires
            old(self).wf(),
            i < old(self)@.len(),
            old(self)@[i as int].mdb_prev is None,
            old(self)@[i as int].mdb_next is None,
            cap.mdb_prev is None,
            cap.mdb_next is None,
        ensures
            final(self).wf(),
            final(self)@ == old(self)@.update(i as int, cap),
    {
        let mut e = self.slots[i];
        e.set(cap);
        self.slots.set(i, e);
        proof {
            let s0 = old(self)@;
            let s1 = self@;
            assert(s1 =~= s0.update(i as int, cap));
            assert forall|k: int| 0 <= k < s1.len() implies #[trigger] link_ok(s1, k) by {
                assert(link_ok(s0, k));
                assert(link_ok(s0, i as int));
            }
            assert forall|k: int| 0 <= k < s1.len() implies #[trigger] rank_ok(s1, self.rank@, k) by {
                assert(rank_ok(s0, self.rank@, k));
            }
        }
    }

    /// Append `k` empty slots at the end of the arena, as when a region
    /// of memory is claimed for a fresh CNode's slot array.
    pub fn grow(&mut self, k: usize)
        requires
            old(self).wf(),
        ensures
            final(self).wf(),
            final(self)@.len() == old(self)@.len() + k,
            forall|i: int|
                0 <= i < old(self)@.len() ==> final(self)@[i] == old(self)@[i],
            forall|i: int|
                old(self)@.len() <= i < final(self)@.len() ==> final(self)@[i]
                    == CapRaw::spec_default(),
    {
        let ghost s0 = self@;
        let mut j: usize = 0;
        while j < k
            invariant
                j <= k,
                self@.len() == s0.len() + j,
                self.rank@ == old(self).rank@,
                forall|i: int| 0 <= i < s0.len() ==> self@[i] == s0[i],
                forall|i: int|
                    s0.len() <= i < self@.len() ==> self@[i] == CapRaw::spec_default(),
            decreases k - j,
        {
            let ghost s_pre = self@;
            self.slots.push(CNodeEntry::new());
            proof {
                assert(self@ =~= s_pre.push(CapRaw::spec_default()));
            }
            j = j + 1;
        }
        proof {
            let s1 = self@;
            assert forall|i: int| 0 <= i < s1.len() implies #[trigger] link_ok(s1, i) by {
                if i < s0.len() {
                    assert(link_ok(s0, i));
                }
            }
            assert forall|i: int| 0 <= i < s1.len() implies #[trigger] rank_ok(s1, self.rank@, i) by {
                if i < s0.len() {
                    assert(rank_ok(s0, self.rank@, i));
                }
            }
        }
    }

    /// Overwrite the second payload word of a slot, leaving its links and
    /// everything else alone.  Used to advance an untyped's free offset.
    pub fn set_arg2(&mut self, i: usize, arg2: u64)
        requires
            old(self).wf(),
            i < old(self)@.len(),
        ensures
            final(self).wf(),
            final(self)@ == old(self)@.update(
                i as int,
                CapRaw { arg2, ..old(self)@[i as int] },
            ),
    {
        let raw = self.slots[i].get();
        self.slots.set(i, CNodeEntry { cap: CapRaw { arg2, ..raw } });
        proof {
            let s0 = old(self)@;
            let s1 = self@;
            assert(s1 =~= s0.update(i as int, CapRaw { arg2, ..s0[i as int] }));
            assert forall|k: int| 0 <= k < s1.len() implies #[trigger] link_ok(s1, k) by {
                assert(link_ok(s0, k));
                assert(link_ok(s0, i as int));
                if let Some(j) = s0[k].mdb_next {
                    assert(link_ok(s0, j as int));
                }
                if let Some(j) = s0[k].mdb_prev {
                    assert(link_ok(s0, j as int));
                }
            }
            assert forall|k: int| 0 <= k < s1.len() implies #[trigger] rank_ok(s1, self.rank@, k) by {
                assert(rank_ok(s0, self.rank@, k));
            }
        }
    }

    /// Insert `dst` after `src` on the MDB list.
    ///
    /// `dst` must be isolated; it is spliced between `src` and `src`'s
    /// old successor.  Only the links of the three slots involved change.
    pub fn mdb_insert_after(&mut self, src: usize, dst: usize)
        requires
            old(self).wf(),
            src < old(self)@.len(),
            dst < old(self)@.len(),
            src != dst,
            old(self)@[dst as int].mdb_prev is None,
            old(self)@[dst as int].mdb_next is None,
        ensures
            final(self).wf(),
            final(self)@.len() == old(self)@.len(),
            final(self)@[src as int] == (CapRaw {
                mdb_next: Some(dst),
                ..old(self)@[src as int]
            }),
            final(self)@[dst as int] == (CapRaw {
                mdb_prev: Some(src),
                mdb_next: old(self)@[src as int].mdb_next,
                ..old(self)@[dst as int]
            }),
            old(self)@[src as int].mdb_next matches Some(nx) ==> final(self)@[nx as int] == (CapRaw {
                mdb_prev: Some(dst),
                ..old(self)@[nx as int]
            }),
            forall|k: int|
                0 <= k < final(self)@.len() && k != src && k != dst && k != link_target(
                    old(self)@[src as int].mdb_next,
                ) ==> final(self)@[k] == old(self)@[k],
    {
        let ghost s0 = old(self)@;
        let src_raw = self.slots[src].get();
        let dst_raw = self.slots[dst].get();
        let orig_next = src_raw.mdb_next;

        proof {
            // The old successor of `src`, if any, is neither `src` nor `dst`.
            assert(link_ok(s0, src as int));
            assert(link_ok(s0, dst as int));
            if let Some(nx) = s0[src as int].mdb_next {
                assert(s0[nx as int].mdb_prev == Some(src));
                assert(nx != dst);
                assert(rank_ok(s0, self.rank@, src as int));
                assert(nx != src);
            }
        }

        // Fix dst pointers.
        let new_dst = CapRaw { mdb_prev: Some(src), mdb_next: orig_next, ..dst_raw };
        self.slots.set(dst, CNodeEntry { cap: new_dst });

        // Update next's prev.
        if let Some(next_ix) = orig_next {
            let next_raw = self.slots[next_ix].get();
            let new_next = CapRaw { mdb_prev: Some(dst), ..next_raw };
            self.slots.set(next_ix, CNodeEntry { cap: new_next });
        }

        // Update src's next.
        let src_raw2 = self.slots[src].get();
        let new_src = CapRaw { mdb_next: Some(dst), ..src_raw2 };
        self.slots.set(src, CNodeEntry { cap: new_src });

        proof {
            let r0 = self.rank@;
            let r1 = Map::<int, int>::new(
                |i: int| true,
                |i: int|
                    if i == dst as int {
                        2 * r0[src as int] + 1
                    } else {
                        2 * r0[i]
                    },
            );
            self.rank = Ghost(r1);
            let s1 = self@;
            let nxt = link_target(s0[src as int].mdb_next);
            assert(s1.len() == s0.len());
            if 0 <= nxt {
                assert(link_ok(s0, nxt));
                assert(rank_ok(s0, r0, nxt));
            }
            assert(s1[src as int] == (CapRaw { mdb_next: Some(dst), ..s0[src as int] }));
            assert(s1[dst as int] == (CapRaw {
                mdb_prev: Some(src),
                mdb_next: s0[src as int].mdb_next,
                ..s0[dst as int]
            }));
            if 0 <= nxt {
                assert(s1[nxt] == (CapRaw { mdb_prev: Some(dst), ..s0[nxt] }));
            }
            assert forall|k: int|
                0 <= k < s1.len() && k != src && k != dst && k != nxt implies s1[k] == s0[k] by {}
            assert forall|k: int| 0 <= k < s1.len() implies #[trigger] link_ok(s1, k) by {
                assert(link_ok(s0, k));
                assert(rank_ok(s0, r0, k));
                if let Some(j) = s0[k].mdb_next {
                    assert(link_ok(s0, j as int));
                    assert(rank_ok(s0, r0, j as int));
                }
                if let Some(j) = s0[k].mdb_prev {
                    assert(link_ok(s0, j as int));
                    assert(rank_ok(s0, r0, j as int));
                }
                assert(link_ok(s0, src as int));
                assert(link_ok(s0, dst as int));
                assert(rank_ok(s0, r0, src as int));
            }
            assert forall|k: int| 0 <= k < s1.len() implies #[trigger] rank_ok(s1, r1, k) by {
                assert(rank_ok(s0, r0, k));
                assert(rank_ok(s0, r0, src as int));
                assert(link_ok(s0, k));
                assert(link_ok(s0, dst as int));
                if let Some(j) = s0[k].mdb_next {
                    assert(link_ok(s0, j as int));
                }
            }
        }
    }

    /// Remove slot `n` from the MDB list, leaving it isolated.
    ///
    /// Its neighbours, if any, are linked to each other; everything but
    /// the links of the three slots involved is unchanged.
    pub fn mdb_remove(&mut self, n: usize)
        requires
            old(self).wf(),
            n < old(self)@.len(),
        ensures
            final(self).wf(),
            final(self)@.len() == old(self)@.len(),
            final(self)@[n as int] == (CapRaw {
                mdb_prev: None,
                mdb_next: None,
                ..old(self)@[n as int]
            }),
            old(self)@[n as int].mdb_prev matches Some(p) ==> final(self)@[p as int] == (CapRaw {
                mdb_next: old(self)@[n as int].mdb_next,
                ..old(self)@[p as int]
            }),
            old(self)@[n as int].mdb_next matches Some(x) ==> final(self)@[x as int] == (CapRaw {
                mdb_prev: old(self)@[n as int].mdb_prev,
                ..old(self)@[x as int]
            }),
            forall|k: int|
                0 <= k < final(self)@.len() && k != n && k != link_target(old(self)@[n as int].mdb_prev)
                    && k != link_target(old(self)@[n as int].mdb_next) ==> final(self)@[k] == old(
                    self,
                )@[k],
    {
        let ghost s0 = old(self)@;
        let ghost r0 = self.rank@;
        let self_raw = self.slots[n].get();
        let prev = self_raw.mdb_prev;
        let next = self_raw.mdb_next;

        proof {
            // Neighbours are distinct from `n` and from each other:
            // ranks increase strictly along forward links.
            assert(link_ok(s0, n as int));
            if let Some(p) = s0[n as int].mdb_prev {
                assert(rank_ok(s0, r0, p as int));
                assert(r0[p as int] < r0[n as int]);
            }
            if let Some(x) = s0[n as int].mdb_next {
                assert(rank_ok(s0, r0, n as int));
                assert(r0[n as int] < r0[x as int]);
            }
        }

        if let Some(p) = prev {
            let p_raw = self.slots[p].get();
            self.slots.set(p, CNodeEntry { cap: CapRaw { mdb_next: next, ..p_raw } });
        }

        if let Some(x) = next {
            let x_raw = self.slots[x].get();
            self.slots.set(x, CNodeEntry { cap: CapRaw { mdb_prev: prev, ..x_raw } });
        }

        let n_raw = self.slots[n].get();
        self.slots.set(n, CNodeEntry { cap: CapRaw { mdb_prev: None, mdb_next: None, ..n_raw } });

        proof {
            let s1 = self@;
            let pt = link_target(s0[n as int].mdb_prev);
            let xt = link_target(s0[n as int].mdb_next);
            assert(s1.len() == s0.len());
            if 0 <= pt {
                assert(link_ok(s0, pt));
                assert(rank_ok(s0, r0, pt));
            }
            if 0 <= xt {
                assert(link_ok(s0, xt));
                assert(rank_ok(s0, r0, xt));
            }
            assert(s1[n as int] == (CapRaw { mdb_prev: None, mdb_next: None, ..s0[n as int] }));
            if 0 <= pt {
                assert(s1[pt] == (CapRaw { mdb_next: s0[n as int].mdb_next, ..s0[pt] }));
            }
            if 0 <= xt {
                assert(s1[xt] == (CapRaw { mdb_prev: s0[n as int].mdb_prev, ..s0[xt] }));
            }
            assert forall|k: int|
                0 <= k < s1.len() && k != n && k != pt && k != xt implies s1[k] == s0[k] by {}
            assert forall|k: int| 0 <= k < s1.len() implies #[trigger] link_ok(s1, k) by {
                assert(link_ok(s0, k));
                assert(rank_ok(s0, r0, k));
                assert(link_ok(s0, n as int));
                assert(rank_ok(s0, r0, n as int));
                if let Some(j) = s0[k].mdb_next {
                    assert(link_ok(s0, j as int));
                }
                if let Some(j) = s0[k].mdb_prev {
                    assert(link_ok(s0, j as int));
                }
                if 0 <= pt {
                    assert(link_ok(s0, pt));
                    assert(rank_ok(s0, r0, pt));
                }
                if 0 <= xt {
                    assert(link_ok(s0, xt));
                    assert(rank_ok(s0, r0, xt));
                }
            }
            assert forall|k: int| 0 <= k < s1.len() implies #[trigger] rank_ok(s1, r0, k) by {
                assert(rank_ok(s0, r0, k));
                assert(rank_ok(s0, r0, n as int));
                if let Some(p) = s0[n as int].mdb_prev {
                    assert(rank_ok(s0, r0, p as int));
                }
            }
        }
    }
}

/// The record a revoke leaves in the revoked slot itself: the successor
/// link is gone, and an untyped capability's free offset returns to
/// zero, since everything ever carved from the span has just been
/// reclaimed; all other payload stands.
pub open spec fn revoked_slot_image(c: CapRaw) -> CapRaw {
    CapRaw {
        mdb_next: None,
        arg2: if c.cap_type == ObjType::Untyped {
            c.arg2 & 0x3f
        } else {
            c.arg2
        },
        ..c
    }
}

impl SlotArena {
    /// Revoke all capabilities derived from slot `n`.
    ///
    /// Walks strictly forward over the derivation chain from `n`,
    /// nullifying every descendant record (type, rights, address and
    /// payload words all cleared) and unlinking it; `n` itself keeps its
    /// record but loses its successor link, and when it holds an untyped
    /// capability its free offset returns to zero: with every derived
    /// object reclaimed, the whole span is reusable by a subsequent
    /// retype at the same alignment.  The operation is idempotent:
    /// revoking a slot that has no successor and nothing left to
    /// reclaim leaves the arena unchanged (last clause).
    pub fn revoke(&mut self, n: usize)
        requires
            old(self).wf(),
            n < old(self)@.len(),
        ensures
            final(self).wf(),
            final(self)@.len() == old(self)@.len(),
            final(self)@[n as int] == revoked_slot_image(old(self)@[n as int]),
            forall|j: int|
                #![trigger final(self)@[j]]
                0 <= j < old(self)@.len() && reachable_fwd(old(self)@, n as int, j)
                    ==> final(self)@[j] == CapRaw::spec_default(),
            forall|j: int|
                #![trigger final(self)@[j]]
                0 <= j < old(self)@.len() && j != n && !reachable_fwd(old(self)@, n as int, j)
                    ==> final(self)@[j] == old(self)@[j],
            old(self)@[n as int].mdb_next is None && revoked_slot_image(old(self)@[n as int])
                == old(self)@[n as int] ==> final(self)@ == old(self)@,
    {
        let ghost s0 = old(self)@;
        let ghost r0 = self.rank@;
        let mut cur_opt = self.slots[n].get().mdb_next;
        let ghost mut m: nat = 1;

        proof {
            assert(link_ok(s0, n as int));
            assert(rank_ok(s0, r0, n as int));
            assert(mdb_next_iter(s0, n as int, 0) == Some(n as int));
            assert(mdb_next_iter(s0, n as int, 1) == (match s0[n as int].mdb_next {
                Some(j) => Some(j as int),
                None => None,
            }));
        }

        while cur_opt.is_some()
            invariant
                self.rank@ == r0,
                self@.len() == s0.len(),
                n < s0.len(),
                links_wf(s0),
                ranks_ok(s0, r0),
                links_wf(self@),
                ranks_ok(self@, r0),
                m >= 1,
                m <= s0.len(),
                match cur_opt {
                    Some(c) => {
                        &&& mdb_next_iter(s0, n as int, m) == Some(c as int)
                        &&& (c as int) < s0.len()
                        &&& self@[c as int] == (CapRaw { mdb_prev: Some(n), ..s0[c as int] })
                        &&& r0[n as int] < r0[c as int]
                        &&& c != n
                    },
                    None => mdb_next_iter(s0, n as int, m) is None,
                },
                self@[n as int] == (CapRaw { mdb_next: cur_opt, ..s0[n as int] }),
                forall|k: nat|
                    1 <= k < m ==> ((#[trigger] mdb_next_iter(s0, n as int, k)) matches Some(j)
                        && self@[j] == CapRaw::spec_default()),
                forall|j: int|
                    #![trigger self@[j]]
                    0 <= j < s0.len() && j != n && link_target(cur_opt) != j && !(exists|k: nat|
                        1 <= k < m && mdb_next_iter(s0, n as int, k) == Some(j)) ==> self@[j]
                        == s0[j],
            decreases s0.len() - m,
        {
            let cur = cur_opt.unwrap();
            let ghost s_pre = self@;
            let cur_raw = self.slots[cur].get();
            let nx = cur_raw.mdb_next;
            let ghost xt = link_target(nx);

            proof {
                // The original record of `cur` had the same successor:
                // only its back link was changed so far.
                assert(s0[cur as int].mdb_next == nx);
                // One more step of the walk in the original arena.
                assert(mdb_next_iter(s0, n as int, m + 1) == (match nx {
                    Some(j) => Some(j as int),
                    None => None,
                }));
                // Rank facts: n, cur and the successor are pairwise
                // distinct, and no already-nulled slot equals any of them.
                assert(rank_ok(s0, r0, cur as int));
                if 0 <= xt {
                    assert(r0[cur as int] < r0[xt]);
                    assert(link_ok(s0, cur as int));
                }
                // The walk leaves the original chain within the arena
                // size, which bounds the step count.
                lemma_no_cycles_seq(s0, r0, n as int);
                let k0 = choose|k: nat|
                    k <= s0.len() && mdb_next_iter(s0, n as int, k) is None;
                if m >= k0 {
                    lemma_iter_none_stays(s0, n as int, k0, m);
                }
                assert(m < k0);
            }

            // Erase the descendant and unlink it: its predecessor on the
            // chain is always `n` at this point.
            self.slots.set(cur, CNodeEntry { cap: CapRaw::default() });
            let n_raw = self.slots[n].get();
            self.slots.set(n, CNodeEntry { cap: CapRaw { mdb_next: nx, ..n_raw } });
            if let Some(x) = nx {
                let x_raw = self.slots[x].get();
                self.slots.set(x, CNodeEntry { cap: CapRaw { mdb_prev: Some(n), ..x_raw } });
            }
            cur_opt = nx;

            proof {
                let s1 = self@;
                assert(s1.len() == s_pre.len());
                assert(s1[cur as int] == CapRaw::spec_default());
                assert(s1[n as int] == (CapRaw { mdb_next: nx, ..s_pre[n as int] }));
                if 0 <= xt {
                    assert(s1[xt] == (CapRaw { mdb_prev: Some(n), ..s_pre[xt] }));
                    // The successor was not touched before this iteration:
                    // its rank exceeds the rank of every slot handled so far.
                    assert forall|k: nat|
                        1 <= k < m implies mdb_next_iter(s0, n as int, k) != Some(xt) by {
                        lemma_iter_rank_strict(s0, r0, n as int, k, m);
                        lemma_iter_rank_strict(s0, r0, n as int, m, m + 1);
                    }
                    assert(s_pre[xt] == s0[xt]);
                }
                assert forall|j: int|
                    0 <= j < s1.len() && j != cur && j != n && j != xt implies s1[j] == s_pre[j] by {}
                // Every slot nulled in an earlier iteration stays nulled:
                // it is distinct from n, cur and the successor.
                assert forall|k: nat|
                    1 <= k < m + 1 implies ((#[trigger] mdb_next_iter(s0, n as int, k)) matches Some(
                    j,
                ) && s1[j] == CapRaw::spec_default()) by {
                    lemma_iter_rank_strict(s0, r0, n as int, 0, k);
                    if k < m {
                        lemma_iter_rank_strict(s0, r0, n as int, k, m);
                        if 0 <= xt {
                            lemma_iter_rank_strict(s0, r0, n as int, m, m + 1);
                        }
                        lemma_iter_in_bounds(s0, n as int, k);
                    }
                }
                // The links stay mirrored.
                assert forall|k: int| 0 <= k < s1.len() implies #[trigger] link_ok(s1, k) by {
                    assert(link_ok(s_pre, k));
                    assert(rank_ok(s_pre, r0, k));
                    assert(link_ok(s_pre, cur as int));
                    assert(link_ok(s_pre, n as int));
                    assert(rank_ok(s_pre, r0, cur as int));
                    assert(rank_ok(s_pre, r0, n as int));
                    if let Some(j) = s_pre[k].mdb_next {
                        assert(link_ok(s_pre, j as int));
                    }
                    if let Some(j) = s_pre[k].mdb_prev {
                        assert(link_ok(s_pre, j as int));
                    }
                    if 0 <= xt {
                        assert(link_ok(s_pre, xt));
                        assert(rank_ok(s_pre, r0, xt));
                    }
                }
                // The ranks still increase along every forward link.
                assert forall|k: int| 0 <= k < s1.len() implies #[trigger] rank_ok(s1, r0, k) by {
                    assert(rank_ok(s_pre, r0, k));
                    assert(rank_ok(s_pre, r0, n as int));
                    assert(rank_ok(s_pre, r0, cur as int));
                }
                m = m + 1;
            }
        }

        let ghost s_mid = self@;
        // With every descendant reclaimed, an untyped capability's span
        // is whole again: its free offset returns to zero.
        let n_raw_fin = self.slots[n].get();
        if matches!(n_raw_fin.cap_type, ObjType::Untyped) {
            self.set_arg2(n, n_raw_fin.arg2 & 0x3f);
        }

        proof {
            let s_fin = self@;
            assert(s_fin[n as int] == revoked_slot_image(s0[n as int]));
            assert forall|j: int| 0 <= j < s0.len() && j != n implies s_fin[j] == s_mid[j] by {}
            assert forall|j: int|
                0 <= j < s0.len() && reachable_fwd(s0, n as int, j) implies s_fin[j]
                == CapRaw::spec_default() by {
                let k = choose|k: nat| 1 <= k && mdb_next_iter(s0, n as int, k) == Some(j);
                if k >= m {
                    lemma_iter_none_stays(s0, n as int, m, k);
                }
                assert(1 <= k < m);
                assert(mdb_next_iter(s0, n as int, k) matches Some(jj) && s_mid[jj]
                    == CapRaw::spec_default());
                if j == n {
                    lemma_iter_rank_strict(s0, r0, n as int, 0, k);
                }
            }
            assert forall|j: int|
                0 <= j < s0.len() && j != n && !reachable_fwd(s0, n as int, j) implies s_fin[j]
                == s0[j] by {
                assert forall|k: nat|
                    1 <= k < m implies mdb_next_iter(s0, n as int, k) != Some(j) by {
                    if mdb_next_iter(s0, n as int, k) == Some(j) {
                        assert(reachable_fwd(s0, n as int, j));
                    }
                }
            }
            if s0[n as int].mdb_next is None && revoked_slot_image(s0[n as int]) == s0[n as int] {
                assert(mdb_next_iter(s0, n as int, 1) is None);
                assert forall|j: int| 0 <= j < s0.len() && j != n implies s_fin[j] == s0[j] by {
                    if reachable_fwd(s0, n as int, j) {
                        let k = choose|k: nat|
                            1 <= k && mdb_next_iter(s0, n as int, k) == Some(j);
                        lemma_iter_none_stays(s0, n as int, 1, k);
                    }
                }
                assert(s_fin[n as int] == s0[n as int]);
                assert(s_fin =~= s0);
            }
        }
    }
}

/// Seq-level form of the no-cycle argument, usable while an arena is
/// being rewritten: any walk along `mdb_next` leaves the chain after at
/// most as many steps as there are slots.
proof fn lemma_no_cycles_seq(s: Seq<CapRaw>, rank: Map<int, int>, start: int)
    requires
        links_wf(s),
        ranks_ok(s, rank),
        0 <= start < s.len(),
    ensures
        exists|k: nat| k <= s.len() && mdb_next_iter(s, start, k) is None,
{
    let n = s.len() as nat;
    if mdb_next_iter(s, start, n) is None {
        assert(n <= s.len() && mdb_next_iter(s, start, n) is None);
    } else {
        lemma_visited_grows(s, rank, start, n);
        vstd::set_lib::lemma_int_range(0, s.len() as int);
        vstd::set_lib::lemma_len_subset(
            visited_set(s, start, n),
            vstd::set_lib::set_int_range(0, s.len() as int),
        );
        assert(false);
    }
}

/// The slot reached after `k` steps along `mdb_next` from `start`, or
/// `None` once the walk has run off the end of the chain.
pub open spec fn mdb_next_iter(s: Seq<CapRaw>, start: int, k: nat) -> Option<int>
    decreases k,
{
    if k == 0 {
        Some(start)
    } else {
        match mdb_next_iter(s, start, (k - 1) as nat) {
            Some(i) => {
                if 0 <= i < s.len() {
                    match s[i].mdb_next {
                        Some(j) => Some(j as int),
                        None => None,
                    }
                } else {
                    None
                }
            },
            None => None,
        }
    }
}

/// Slot `j` is a strict forward-descendant of `from` on the chain.
pub open spec fn reachable_fwd(s: Seq<CapRaw>, from: int, j: int) -> bool {
    exists|k: nat| 1 <= k && mdb_next_iter(s, from, k) == Some(j)
}

/// Every slot the walk reaches lies inside the arena.
proof fn lemma_iter_in_bounds(s: Seq<CapRaw>, start: int, k: nat)
    requires
        links_wf(s),
        0 <= start < s.len(),
        mdb_next_iter(s, start, k) is Some,
    ensures
        0 <= mdb_next_iter(s, start, k)->0 < s.len(),
    decreases k,
{
    if k > 0 {
        lemma_iter_in_bounds(s, start, (k - 1) as nat);
        let i = mdb_next_iter(s, start, (k - 1) as nat)->0;
        assert(link_ok(s, i));
    }
}

/// Ranks increase strictly along the walk: step `k2` sees a strictly
/// larger rank than step `k1`, so the walk can never revisit a slot.
proof fn lemma_iter_rank_strict(s: Seq<CapRaw>, rank: Map<int, int>, start: int, k1: nat, k2: nat)
    requires
        links_wf(s),
        ranks_ok(s, rank),
        0 <= start < s.len(),
        k1 < k2,
        mdb_next_iter(s, start, k2) is Some,
    ensures
        mdb_next_iter(s, start, k1) is Some,
        rank[mdb_next_iter(s, start, k1)->0] < rank[mdb_next_iter(s, start, k2)->0],
    decreases k2,
{
    let prev = mdb_next_iter(s, start, (k2 - 1) as nat);
    assert(prev is Some);
    let i = prev->0;
    lemma_iter_in_bounds(s, start, (k2 - 1) as nat);
    assert(rank_ok(s, rank, i));
    if k1 == k2 - 1 {
    } else {
        lemma_iter_rank_strict(s, rank, start, k1, (k2 - 1) as nat);
    }
}

/// Once the walk has left the chain it never comes back.
proof fn lemma_iter_none_stays(s: Seq<CapRaw>, start: int, k1: nat, k2: nat)
    requires
        k1 <= k2,
        mdb_next_iter(s, start, k1) is None,
    ensures
        mdb_next_iter(s, start, k2) is None,
    decreases k2,
{
    if k1 < k2 {
        lemma_iter_none_stays(s, start, k1, (k2 - 1) as nat);
    }
}

/// The set of slots seen by the first `m` steps of the walk.
spec fn visited_set(s: Seq<CapRaw>, start: int, m: nat) -> Set<int>
    decreases m,
{
    if m == 0 {
        set![start]
    } else {
        match mdb_next_iter(s, start, m) {
            Some(i) => visited_set(s, start, (m - 1) as nat).insert(i),
            None => visited_set(s, start, (m - 1) as nat),
        }
    }
}

/// While the walk stays on the chain it keeps visiting fresh slots: after
/// `m` steps it has seen `m + 1` distinct slots, all inside the arena.
proof fn lemma_visited_grows(s: Seq<CapRaw>, rank: Map<int, int>, start: int, m: nat)
    requires
        links_wf(s),
        ranks_ok(s, rank),
        0 <= start < s.len(),
        mdb_next_iter(s, start, m) is Some,
    ensures
        visited_set(s, start, m).finite(),
        visited_set(s, start, m).len() == m + 1,
        visited_set(s, start, m).subset_of(vstd::set_lib::set_int_range(0, s.len() as int)),
        forall|j: int|
            visited_set(s, start, m).contains(j) ==> rank[j] <= rank[mdb_next_iter(s, start, m)->0],
    decreases m,
{
    broadcast use vstd::set::axiom_set_insert_len;

    lemma_iter_in_bounds(s, start, m);
    if m == 0 {
    } else {
        let i = mdb_next_iter(s, start, m)->0;
        let i_prev = mdb_next_iter(s, start, (m - 1) as nat)->0;
        lemma_visited_grows(s, rank, start, (m - 1) as nat);
        lemma_iter_rank_strict(s, rank, start, (m - 1) as nat, m);
        assert forall|j: int| visited_set(s, start, (m - 1) as nat).contains(j) implies rank[j]
            < rank[i] by {
            assert(rank[j] <= rank[i_prev]);
        }
        assert(!visited_set(s, start, (m - 1) as nat).contains(i));
    }
}

/// There are no cycles in the MDB: the walk along `mdb_next` from any
/// slot leaves the chain after at most as many steps as the arena has
/// slots.
pub proof fn lemma_mdb_no_cycles(a: SlotArena, start: int)
    requires
        a.wf(),
        0 <= start < a@.len(),
    ensures
        exists|k: nat| k <= a@.len() && mdb_next_iter(a@, start, k) is None,
{
    let s = a@;
    let n = s.len() as nat;
    if mdb_next_iter(s, start, n) is None {
        assert(n <= s.len() && mdb_next_iter(s, start, n) is None);
    } else {
        lemma_visited_grows(s, a.rank@, start, n);
        vstd::set_lib::lemma_int_range(0, s.len() as int);
        vstd::set_lib::lemma_len_subset(
            visited_set(s, start, n),
            vstd::set_lib::set_int_range(0, s.len() as int),
        );
        assert(false);
    }
}

/// The low `bits` bits set, for `bits < 64`.
pub open spec fn spec_mask64(bits: u64) -> u64 {
    ((1u64 << bits) - 1) as u64
}

/// A left shift of one by less than the width is at least one, so the
/// all-low-bits mask can be formed without underflow.
pub proof fn lemma_shl1_at_least_one(b: u64)
    by (bit_vector)
    requires
        b < 64,
    ensures
        1u64 << b >= 1,
{
}

/// One lookup returning a slot index plus the number of address bits
/// that were not consumed.
#[derive(Debug, Clone, Copy, PartialEq, Eq, Structural)]
pub struct ResolveResult {
    pub slot: usize,
    pub bits_remaining: u64,
}

/// Resolution of `n_bits` of `cptr` starting at the CNode capability
/// `cap`, as the guarded-radix algorithm defines it.
///
/// At each level the current capability must be a CNode; the top
/// `guard_bits` of the remaining window must equal the stored guard
/// masked to that width; the next `radix_bits` index into the slot
/// array.  When all bits are consumed the reached slot is returned; when
/// the walk reaches a non-CNode early, the slot is returned together
/// with the bits that remain.  A CNode that would consume no bits fails
/// the lookup.
pub open spec fn spec_resolve(s: Seq<CapRaw>, cap: CapRaw, cptr: u64, n_bits: u64) -> Result<
    (int, u64),
    SysError,
>
    decreases n_bits,
{
    if cap.cap_type != ObjType::CNode {
        Err(SysError::CSpaceNotFound)
    } else {
        let radix = crate::cnode::cnode_radix_bits(cap);
        let gbits = crate::cnode::cnode_guard_bits(cap);
        let level = radix + gbits;
        if gbits > n_bits {
            Err(SysError::LookupError)
        } else if (if gbits == 0 {
            0u64
        } else {
            (cptr >> ((n_bits - gbits) as u64)) & spec_mask64(gbits)
        }) != crate::cnode::cnode_guard(cap) & spec_mask64(gbits) {
            Err(SysError::LookupError)
        } else if level > n_bits {
            Err(SysError::LookupError)
        } else if level == 0 {
            Err(SysError::LookupError)
        } else {
            let index = if radix == 0 {
                0u64
            } else {
                (cptr >> ((n_bits - level) as u64)) & spec_mask64(radix)
            };
            let slot = cap.paddr + index;
            if !(slot < s.len()) {
                Err(SysError::SlotEmpty)
            } else {
                let rem = (n_bits - level) as u64;
                if rem == 0 {
                    Ok((slot as int, 0u64))
                } else if s[slot as int].cap_type != ObjType::CNode {
                    Ok((slot as int, rem))
                } else {
                    spec_resolve(s, s[slot as int], cptr, rem)
                }
            }
        }
    }
}

/// Full-depth lookup: resolve all `depth` bits and demand that none
/// remain; a `depth` outside `1..=32` is rejected outright.
pub open spec fn spec_lookup(s: Seq<CapRaw>, root: CapRaw, cptr: u64, depth: u64) -> Result<
    int,
    SysError,
> {
    if depth < 1 || depth > CNODE_DEPTH {
        Err(SysError::InvalidValue)
    } else {
        match spec_resolve(s, root, cptr, depth) {
            Ok((slot, rem)) => if rem == 0 {
                Ok(slot)
            } else {
                Err(SysError::LookupError)
            },
            Err(e) => Err(e),
        }
    }
}

/// CSpace lookup is deterministic: the looked-up slot is a function of
/// the slot arena, the root, the pointer and the depth alone, so any two
/// lookups of the same pointer in the same tree return the same slot
/// identity.
pub proof fn lemma_lookup_deterministic(
    s: Seq<CapRaw>,
    root: CapRaw,
    cptr: u64,
    depth: u64,
    r1: Result<int, SysError>,
    r2: Result<int, SysError>,
)
    requires
        r1 == spec_lookup(s, root, cptr, depth),
        r2 == spec_lookup(s, root, cptr, depth),
    ensures
        r1 == r2,
{
}

/// A thread's capability space: the root CNode capability of its
/// lookup tree.
#[derive(Debug, Clone, Copy)]
pub struct CSpace {
    pub root: CapRaw,
}

impl CSpace {
    /// Create a new [`CSpace`] from a root slot, which must hold a CNode.
    pub fn new(root_entry: &CNodeEntry) -> (r: Result<Self, SysError>)
        ensures
            match r {
                Ok(c) => c.root == root_entry@ && root_entry@.cap_type == ObjType::CNode,
                Err(e) => e == SysError::CSpaceNotFound && root_entry@.cap_type != ObjType::CNode,
            },
    {
        let cap = root_entry.get();
        if !matches!(cap.cap_type, ObjType::CNode) {
            return Err(SysError::CSpaceNotFound);
        }
        Ok(Self { root: cap })
    }

    /// Create a [`CSpace`] from a [`crate::tcb::Tcb`]'s cspace root.
    pub fn from_tcb(tcb: &crate::tcb::Tcb) -> (r: Result<Self, SysError>)
        ensures
            match r {
                Ok(c) => c.root == tcb.cspace_root@ && tcb.cspace_root@.cap_type == ObjType::CNode,
                Err(e) => e == SysError::CSpaceNotFound && tcb.cspace_root@.cap_type
                    != ObjType::CNode,
            },
    {
        Self::new(&tcb.cspace_root)
    }

    /// Resolve address bits, returning the slot and remaining bits.
    pub fn resolve(&self, arena: &SlotArena, cptr: u64, n_bits: u64) -> (r: Result<
        ResolveResult,
        SysError,
    >)
        requires
            1 <= n_bits <= CNODE_DEPTH,
        ensures
            match r {
                Ok(rr) => spec_resolve(arena@, self.root, cptr, n_bits) == Ok::<
                    (int, u64),
                    SysError,
                >((rr.slot as int, rr.bits_remaining)) && rr.slot < arena@.len()
                    && rr.bits_remaining < n_bits,
                Err(e) => spec_resolve(arena@, self.root, cptr, n_bits) == Err::<
                    (int, u64),
                    SysError,
                >(e),
            },
    {
        let ghost s = arena@;
        let mut cap: CapRaw = self.root;
        let mut bits: u64 = n_bits;

        loop
            invariant
                1 <= bits <= n_bits <= CNODE_DEPTH,
                arena@ == s,
                spec_resolve(s, self.root, cptr, n_bits) == spec_resolve(s, cap, cptr, bits),
            decreases bits,
        {
            if !matches!(cap.cap_type, ObjType::CNode) {
                return Err(SysError::CSpaceNotFound);
            }
            let cnode = crate::cnode::CNodeCap { cap };
            let radix = cnode.radix_bits();
            let gbits = cnode.guard_bits();
            let level = radix + gbits;

            if gbits > bits {
                return Err(SysError::LookupError);
            }
            proof {
                lemma_shl1_at_least_one(gbits);
                lemma_shl1_at_least_one(radix);
            }
            let gmask = (1u64 << gbits) - 1;
            let extracted = if gbits == 0 {
                0u64
            } else {
                (cptr >> (bits - gbits)) & gmask
            };
            if extracted != cnode.guard() & gmask {
                return Err(SysError::LookupError);
            }
            if level > bits {
                return Err(SysError::LookupError);
            }
            if level == 0 {
                return Err(SysError::LookupError);
            }

            let rmask = (1u64 << radix) - 1;
            let index = if radix == 0 {
                0u64
            } else {
                (cptr >> (bits - level)) & rmask
            };
            let alen = arena.len();
            if index > u64::MAX - cap.paddr {
                return Err(SysError::SlotEmpty);
            }
            let slot64 = cap.paddr + index;
            if slot64 >= alen as u64 {
                return Err(SysError::SlotEmpty);
            }
            let slot = slot64 as usize;
            let rem = bits - level;
            if rem == 0 {
                return Ok(ResolveResult { slot, bits_remaining: 0 });
            }
            let next_cap = arena.get_slot(slot);
            if !matches!(next_cap.cap_type, ObjType::CNode) {
                return Ok(ResolveResult { slot, bits_remaining: rem });
            }
            cap = next_cap;
            bits = rem;
        }
    }

    /// Lookup a capability with a specific bit depth; every bit must be
    /// consumed.
    pub fn lookup_with_depth(&self, arena: &SlotArena, cptr: u64, depth: u64) -> (r: Result<
        usize,
        SysError,
    >)
        ensures
            match r {
                Ok(slot) => spec_lookup(arena@, self.root, cptr, depth) == Ok::<int, SysError>(
                    slot as int,
                ) && slot < arena@.len(),
                Err(e) => spec_lookup(arena@, self.root, cptr, depth) == Err::<int, SysError>(e),
            },
    {
        if depth < 1 || depth > CNODE_DEPTH {
            return Err(SysError::InvalidValue);
        }
        match self.resolve(arena, cptr, depth) {
            Ok(rr) => {
                if rr.bits_remaining != 0 {
                    Err(SysError::LookupError)
                } else {
                    Ok(rr.slot)
                }
            },
            Err(e) => Err(e),
        }
    }

    /// Lookup a capability by its pointer, resolving all 32 bits.
    pub fn lookup(&self, arena: &SlotArena, cptr: u64) -> (r: Result<usize, SysError>)
        ensures
            match r {
                Ok(slot) => spec_lookup(arena@, self.root, cptr, CNODE_DEPTH) == Ok::<
                    int,
                    SysError,
                >(slot as int) && slot < arena@.len(),
                Err(e) => spec_lookup(arena@, self.root, cptr, CNODE_DEPTH) == Err::<
                    int,
                    SysError,
                >(e),
            },
    {
        self.lookup_with_depth(arena, cptr, CNODE_DEPTH)
    }
}

} // verus!
