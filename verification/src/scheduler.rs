//! Per-core earliest-deadline-first scheduler.
//!
//! The ready set is a bounded min-heap of `(deadline, task id)` pairs
//! ordered lexicographically, held in a `heapless` binary heap behind
//! trusted wrappers; the scheduler itself tracks the currently running
//! entry and a designated idle task.  At every decision point the ready
//! entry with the smallest absolute deadline runs.

use vstd::multiset::Multiset;
use vstd::prelude::*;

use heapless::binary_heap::{BinaryHeap, Min};

use crate::error::SysError;
use crate::tcb::{Tcb, ThreadState};

verus! {

broadcast use vstd::multiset::group_multiset_axioms;

/// Maximum number of ready entries on one core's scheduler.
pub const MAX_TCB_PER_CORE: usize = 64;

#[verifier::external_type_specification]
#[verifier::external_body]
pub struct ExMin(Min);

#[verifier::external_type_specification]
#[verifier::external_body]
#[verifier::reject_recursive_types(T)]
#[verifier::reject_recursive_types(K)]
pub struct ExBinaryHeap<T, K, const N: usize>(BinaryHeap<T, K, N>);

/// What the bounded min-heap holds, as a multiset of
/// `(deadline, task id)` pairs: the heap itself keeps no further order
/// that its callers could observe.
pub uninterp spec fn heap_entries(h: &BinaryHeap<(u64, u64), Min, 64>) -> Multiset<(u64, u64)>;

/// Lexicographic order on `(deadline, task id)` pairs, as the derived
/// tuple ordering the heap uses compares them.
pub open spec fn lex_le(a: (u64, u64), b: (u64, u64)) -> bool {
    a.0 < b.0 || (a.0 == b.0 && a.1 <= b.1)
}

/// The states a wake accepts: every flavour of being blocked.
pub open spec fn spec_wakeable(st: ThreadState) -> bool {
    st == ThreadState::BlockedOnSend || st == ThreadState::BlockedOnReceive || st
        == ThreadState::BlockedOnReply || st == ThreadState::BlockedOnNotification
}

/// Relies on heapless `BinaryHeap::new`: a fresh heap is empty.
#[verifier::external_body]
fn heap_new() -> (r: BinaryHeap<(u64, u64), Min, 64>)
    ensures
        heap_entries(&r) == Multiset::<(u64, u64)>::empty(),
{
    BinaryHeap::new()
}

/// Relies on heapless `BinaryHeap::push`: the item is added unless the
/// heap already holds its full capacity, in which case it is handed
/// back and nothing changes.  A heap never holds more than its
/// capacity of 64 entries.
#[verifier::external_body]
fn heap_push(h: &mut BinaryHeap<(u64, u64), Min, 64>, item: (u64, u64)) -> (r: Result<
    (),
    (u64, u64),
>)
    ensures
        heap_entries(old(h)).len() <= 64,
        heap_entries(final(h)).len() <= 64,
        match r {
            Ok(()) => heap_entries(old(h)).len() < 64 && heap_entries(final(h)) == heap_entries(
                old(h),
            ).insert(item),
            Err(it) => it == item && heap_entries(old(h)).len() >= 64 && heap_entries(final(h))
                == heap_entries(old(h)),
        },
{
    h.push(item)
}

/// Relies on heapless `BinaryHeap::pop` on a min-heap: it removes and
/// returns a smallest element in the lexicographic tuple order.
#[verifier::external_body]
fn heap_pop(h: &mut BinaryHeap<(u64, u64), Min, 64>) -> (r: Option<(u64, u64)>)
    ensures
        heap_entries(old(h)).len() <= 64,
        heap_entries(final(h)).len() <= 64,
        match r {
            Some(x) => heap_entries(old(h)).count(x) > 0 && heap_entries(final(h)) == heap_entries(
                old(h),
            ).remove(x) && forall|y: (u64, u64)|
                (#[trigger] heap_entries(old(h)).count(y)) > 0 ==> lex_le(x, y),
            None => heap_entries(old(h)).len() == 0 && heap_entries(final(h)) == heap_entries(
                old(h),
            ),
        },
{
    h.pop()
}

/// Relies on heapless `BinaryHeap::peek` on a min-heap: it shows a
/// smallest element without removing it.
#[verifier::external_body]
fn heap_peek(h: &BinaryHeap<(u64, u64), Min, 64>) -> (r: Option<(u64, u64)>)
    ensures
        match r {
            Some(x) => heap_entries(h).count(x) > 0 && forall|y: (u64, u64)|
                (#[trigger] heap_entries(h).count(y)) > 0 ==> lex_le(x, y),
            None => heap_entries(h).len() == 0,
        },
{
    h.peek().copied()
}

/// Relies on heapless `BinaryHeap::len`.
#[verifier::external_body]
fn heap_len(h: &BinaryHeap<(u64, u64), Min, 64>) -> (r: usize)
    ensures
        r == heap_entries(h).len(),
        r <= 64,
{
    h.len()
}

/// A unique identifier for a task.
#[derive(Debug, Clone, Copy, PartialEq, Eq, Structural)]
pub struct TaskId(pub u64);

/// One ready entry: a task and its absolute deadline.
#[derive(Debug, Clone, Copy, PartialEq, Eq, Structural)]
pub struct DeadlineEntry {
    pub deadline: u64,
    pub task_id: TaskId,
}

impl DeadlineEntry {
    /// The pair stored in the heap for this entry.
    pub open spec fn spec_pair(self) -> (u64, u64) {
        (self.deadline, self.task_id.0)
    }

    /// The pair stored in the heap for this entry.
    pub fn pair(self) -> (r: (u64, u64))
        ensures
            r == self.spec_pair(),
    {
        (self.deadline, self.task_id.0)
    }
}

/// The per-core EDF scheduler: the bounded ready heap, the currently
/// running entry and the designated idle task.
pub struct Scheduler {
    /// The bounded ready heap.
    pub heap: BinaryHeap<(u64, u64), Min, 64>,
    /// The entry currently running, if any.
    pub current: Option<DeadlineEntry>,
    /// The idle task, switched to when the heap is empty.
    pub idle: Option<TaskId>,
}

impl Scheduler {
    /// The multiset of ready `(deadline, task id)` pairs.
    pub open spec fn ready_set(&self) -> Multiset<(u64, u64)> {
        heap_entries(&self.heap)
    }

    /// A fresh scheduler with an empty ready set and nothing running.
    pub fn new() -> (r: Scheduler)
        ensures
            r.ready_set() == Multiset::<(u64, u64)>::empty(),
            r.current is None,
            r.idle is None,
    {
        Scheduler { heap: heap_new(), current: None, idle: None }
    }

    /// Number of ready entries.
    pub fn len(&self) -> (r: usize)
        ensures
            r == self.ready_set().len(),
    {
        heap_len(&self.heap)
    }

    /// Insert a ready entry; fails when the bounded heap is full.
    pub fn enqueue(&mut self, e: DeadlineEntry) -> (r: Result<(), SysError>)
        ensures
            final(self).current == old(self).current,
            final(self).idle == old(self).idle,
            match r {
                Ok(()) => old(self).ready_set().len() < 64 && final(self).ready_set() == old(self).ready_set().insert(e.spec_pair()),
                Err(err) => err == SysError::RangeError && old(self).ready_set().len() >= 64
                    && final(self).ready_set() == old(self).ready_set(),
            },
    {
        match heap_push(&mut self.heap, e.pair()) {
            Ok(()) => Ok(()),
            Err(_) => Err(SysError::RangeError),
        }
    }

    /// Transition a blocked thread to Ready and enqueue it under the
    /// deadline of its scheduling context (or none at all, treated as
    /// the farthest deadline).  Success is owed whenever the thread is
    /// blocked and the bounded ready set has room.
    pub fn wake(&mut self, tcbs: &mut Vec<Tcb>, t: usize) -> (r: Result<DeadlineEntry, SysError>)
        requires
            t < old(tcbs)@.len(),
        ensures
            final(self).current == old(self).current,
            final(self).idle == old(self).idle,
            final(tcbs)@.len() == old(tcbs)@.len(),
            match r {
                Ok(e) => {
                    &&& spec_wakeable(old(tcbs)@[t as int].state)
                    &&& old(self).ready_set().len() < 64
                    &&& e.task_id.0 == t as u64
                    &&& e.deadline == (match old(tcbs)@[t as int].sched_context {
                        Some(sc) => sc.deadline,
                        None => u64::MAX,
                    })
                    &&& final(tcbs)@ == old(tcbs)@.update(
                        t as int,
                        Tcb { state: ThreadState::Ready, ..old(tcbs)@[t as int] },
                    )
                    &&& final(self).ready_set() == old(self).ready_set().insert(e.spec_pair())
                },
                Err(err) => {
                    &&& final(self).ready_set() == old(self).ready_set()
                    &&& final(tcbs)@ == old(tcbs)@
                    &&& ((err == SysError::InvalidOperation && !spec_wakeable(
                        old(tcbs)@[t as int].state,
                    )) || (err == SysError::RangeError && spec_wakeable(
                        old(tcbs)@[t as int].state,
                    ) && old(self).ready_set().len() >= 64))
                },
            },
    {
        let st = tcbs[t].state;
        let is_blocked = matches!(
            st,
            ThreadState::BlockedOnSend
                | ThreadState::BlockedOnReceive
                | ThreadState::BlockedOnReply
                | ThreadState::BlockedOnNotification
        );
        if !is_blocked {
            return Err(SysError::InvalidOperation);
        }
        let deadline = match tcbs[t].sched_context {
            Some(sc) => sc.deadline,
            None => u64::MAX,
        };
        let e = DeadlineEntry { deadline, task_id: TaskId(t as u64) };
        let ghost h0 = self.ready_set();
        match heap_push(&mut self.heap, e.pair()) {
            Ok(()) => {
                let mut tb = tcbs.remove(t);
                tb.state = ThreadState::Ready;
                tcbs.insert(t, tb);
                proof {
                    assert(tcbs@ =~= old(tcbs)@.update(
                        t as int,
                        Tcb { state: ThreadState::Ready, ..old(tcbs)@[t as int] },
                    ));
                }
                Ok(e)
            },
            Err(_) => Err(SysError::RangeError),
        }
    }

    /// Timer-tick path: if a ready entry has an earlier deadline than
    /// the current one, switch to it and put the outgoing entry back in
    /// the ready set; with nothing running, pick the earliest ready
    /// entry.  Returns the entry that starts running, if a switch
    /// happened.
    pub fn preempt(&mut self) -> (r: Option<DeadlineEntry>)
        ensures
            final(self).idle == old(self).idle,
            match old(self).current {
                None => match r {
                    Some(e) => {
                        &&& old(self).ready_set().count(e.spec_pair()) > 0
                        &&& (forall|y: (u64, u64)|
                            (#[trigger] old(self).ready_set().count(y)) > 0 ==> lex_le(
                                e.spec_pair(),
                                y,
                            ))
                        &&& final(self).ready_set() == old(self).ready_set().remove(e.spec_pair())
                        &&& final(self).current == Some(e)
                    },
                    None => {
                        &&& old(self).ready_set().len() == 0
                        &&& final(self).ready_set() == old(self).ready_set()
                        &&& final(self).current is None
                    },
                },
                Some(cur) => match r {
                    Some(e) => {
                        &&& e.deadline < cur.deadline
                        &&& old(self).ready_set().count(e.spec_pair()) > 0
                        &&& (forall|y: (u64, u64)|
                            (#[trigger] old(self).ready_set().count(y)) > 0 ==> lex_le(
                                e.spec_pair(),
                                y,
                            ))
                        &&& final(self).ready_set() == old(self).ready_set().remove(
                            e.spec_pair(),
                        ).insert(cur.spec_pair())
                        &&& final(self).current == Some(e)
                    },
                    None => {
                        &&& final(self).ready_set() == old(self).ready_set()
                        &&& final(self).current == old(self).current
                        &&& (forall|y: (u64, u64)|
                            (#[trigger] old(self).ready_set().count(y)) > 0 ==> cur.deadline
                                <= y.0)
                    },
                },
            },
    {
        let cur = match self.current {
            None => {
                // Nothing running: take the earliest ready entry.
                match heap_pop(&mut self.heap) {
                    None => {
                        return None;
                    },
                    Some(p) => {
                        let e = DeadlineEntry { deadline: p.0, task_id: TaskId(p.1) };
                        self.current = Some(e);
                        return Some(e);
                    },
                }
            },
            Some(c) => c,
        };
        let next = match heap_peek(&self.heap) {
            None => {
                return None;
            },
            Some(p) => p,
        };
        if next.0 < cur.deadline {
            let popped = match heap_pop(&mut self.heap) {
                Some(p) => p,
                None => {
                    proof {
                        assert(false);
                    }
                    return None;
                },
            };
            proof {
                // The popped pair is the one peeked: both are minimal, and
                // minimality in the lexicographic order is unique.
                assert(lex_le(popped, next) && lex_le(next, popped));
                assert(popped == next);
            }
            let pushed = heap_push(&mut self.heap, cur.pair());
            proof {
                assert(pushed is Ok);
            }
            let e = DeadlineEntry { deadline: popped.0, task_id: TaskId(popped.1) };
            self.current = Some(e);
            Some(e)
        } else {
            None
        }
    }

    /// Give up the processor: the current entry rejoins the ready set
    /// and the earliest ready entry (or nothing) runs instead.
    pub fn yield_current(&mut self) -> (r: Option<DeadlineEntry>)
        ensures
            final(self).idle == old(self).idle,
            old(self).current is None ==> final(self).ready_set() == old(self).ready_set()
                && final(self).current is None && r is None,
            old(self).current matches Some(cur) ==> {
                ||| (old(self).ready_set().len() >= 64 && r is None && final(self).current
                    == old(self).current && final(self).ready_set() == old(self).ready_set())
                ||| (old(self).ready_set().len() < 64 && (match r {
                    Some(e) => {
                        &&& old(self).ready_set().insert(cur.spec_pair()).count(e.spec_pair())
                            > 0
                        &&& (forall|y: (u64, u64)|
                            (#[trigger] old(self).ready_set().insert(cur.spec_pair()).count(y))
                                > 0 ==> lex_le(e.spec_pair(), y))
                        &&& final(self).ready_set() == old(self).ready_set().insert(
                            cur.spec_pair(),
                        ).remove(e.spec_pair())
                        &&& final(self).current == Some(e)
                    },
                    None => false,
                }))
            },
    {
        let cur = match self.current {
            None => {
                return None;
            },
            Some(c) => c,
        };
        match heap_push(&mut self.heap, cur.pair()) {
            Err(_) => None,
            Ok(()) => {
                match heap_pop(&mut self.heap) {
                    None => {
                        proof {
                            assert(false);
                        }
                        None
                    },
                    Some(p) => {
                        let e = DeadlineEntry { deadline: p.0, task_id: TaskId(p.1) };
                        self.current = Some(e);
                        Some(e)
                    },
                }
            },
        }
    }

    /// Block the current thread in the given state and schedule the
    /// earliest ready entry (or the idle task).
    pub fn block_current(&mut self, tcbs: &mut Vec<Tcb>, st: ThreadState) -> (r: Option<
        DeadlineEntry,
    >)
        requires
            st == ThreadState::BlockedOnSend || st == ThreadState::BlockedOnReceive || st
                == ThreadState::BlockedOnReply || st == ThreadState::BlockedOnNotification,
            old(self).current matches Some(cur) ==> (cur.task_id.0 as int) < old(tcbs)@.len(),
        ensures
            final(self).idle == old(self).idle,
            old(self).current is None ==> final(tcbs)@ == old(tcbs)@ && r is None && final(self).ready_set() == old(self).ready_set(),
            old(self).current matches Some(cur) ==> {
                &&& final(tcbs)@ == old(tcbs)@.update(
                    cur.task_id.0 as int,
                    Tcb { state: st, ..old(tcbs)@[cur.task_id.0 as int] },
                )
                &&& (match r {
                    Some(e) => old(self).ready_set().count(e.spec_pair()) > 0 && final(self).ready_set() == old(self).ready_set().remove(e.spec_pair()) && final(self).current == Some(e),
                    None => old(self).ready_set().len() == 0 && final(self).current is None
                        && final(self).ready_set() == old(self).ready_set(),
                })
            },
    {
        let cur = match self.current {
            None => {
                return None;
            },
            Some(c) => c,
        };
        let ti = cur.task_id.0 as usize;
        let mut tb = tcbs.remove(ti);
        tb.state = st;
        tcbs.insert(ti, tb);
        proof {
            assert(tcbs@ =~= old(tcbs)@.update(
                cur.task_id.0 as int,
                Tcb { state: st, ..old(tcbs)@[cur.task_id.0 as int] },
            ));
        }
        match heap_pop(&mut self.heap) {
            None => {
                self.current = None;
                None
            },
            Some(p) => {
                let e = DeadlineEntry { deadline: p.0, task_id: TaskId(p.1) };
                self.current = Some(e);
                Some(e)
            },
        }
    }
}

impl Scheduler {
    /// Pick the next thread to run: the earliest ready entry if there
    /// is one, else the idle task; with neither, the caller halts the
    /// processor until an interrupt arrives.
    pub fn run(&mut self) -> (r: Option<TaskId>)
        ensures
            final(self).idle == old(self).idle,
            match r {
                Some(t) => {
                    ||| (final(self).current matches Some(e) && e.task_id == t && old(self).ready_set().count(e.spec_pair()) > 0 && final(self).ready_set() == old(self).ready_set().remove(e.spec_pair()))
                    ||| (old(self).ready_set().len() == 0 && old(self).idle == Some(t) && final(self).ready_set() == old(self).ready_set() && final(self).current is None)
                },
                None => old(self).ready_set().len() == 0 && old(self).idle is None && final(self).ready_set() == old(self).ready_set() && final(self).current is None,
            },
    {
        match heap_pop(&mut self.heap) {
            Some(p) => {
                let e = DeadlineEntry { deadline: p.0, task_id: TaskId(p.1) };
                self.current = Some(e);
                Some(e.task_id)
            },
            None => {
                self.current = None;
                self.idle
            },
        }
    }
}

/// Scheduler heap order: popping twice yields entries in non-decreasing
/// deadline order.  The first entry popped is minimal in the whole set;
/// the second is drawn from what remains, so its deadline can only be
/// larger or equal.
pub proof fn lemma_pop_order(m: Multiset<(u64, u64)>, x1: (u64, u64), x2: (u64, u64))
    requires
        m.count(x1) > 0,
        forall|y: (u64, u64)| (#[trigger] m.count(y)) > 0 ==> lex_le(x1, y),
        m.remove(x1).count(x2) > 0,
    ensures
        x1.0 <= x2.0,
{
    broadcast use vstd::multiset::group_multiset_axioms;

    assert(m.count(x2) > 0);
}

} // verus!
