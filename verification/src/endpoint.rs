//! Endpoint objects for synchronous IPC.
//!
//! An endpoint is a rendezvous point: a single FIFO queue of TCB
//! indices that is either accumulating senders (`Send`), accumulating
//! receivers (`Recv`) or empty (`Idle`); it never holds both kinds at
//! once.  Every queued thread is blocked in the matching state with its
//! `blocking_object` pointing back at this endpoint.  Message transfer
//! places the badge in MR1 and copies the payload registers MR2..MR4.

use vstd::prelude::*;

use crate::capability::{CapRaw, CapRights, ObjType};
use crate::error::SysError;
use crate::tcb::{IpcState, Tcb, ThreadState, TrapFrame, MR1, MR2, MR3, MR4};

verus! {

/// A FIFO queue of TCB indices; the head is at position 0.
#[derive(Debug)]
pub struct TcbQueue {
    pub items: Vec<usize>,
}

impl View for TcbQueue {
    type V = Seq<usize>;

    open spec fn view(&self) -> Seq<usize> {
        self.items@
    }
}

impl TcbQueue {
    /// An empty queue.
    pub fn new() -> (r: Self)
        ensures
            r@ == Seq::<usize>::empty(),
    {
        let r = Self { items: Vec::new() };
        proof {
            assert(r@ =~= Seq::<usize>::empty());
        }
        r
    }

    /// Append a thread at the tail.
    pub fn append(&mut self, t: usize)
        ensures
            final(self)@ == old(self)@.push(t),
    {
        self.items.push(t);
    }

    /// Dequeue the head, if any.
    pub fn dequeue_head(&mut self) -> (r: Option<usize>)
        ensures
            match r {
                Some(t) => old(self)@.len() > 0 && t == old(self)@[0] && final(self)@ == old(self)@.subrange(1, old(self)@.len() as int),
                None => old(self)@.len() == 0 && final(self)@ == old(self)@,
            },
    {
        if self.items.len() == 0 {
            return None;
        }
        let t = self.items.remove(0);
        proof {
            assert(self@ =~= old(self)@.subrange(1, old(self)@.len() as int));
        }
        Some(t)
    }

    /// Remove a thread from the queue; only its first occurrence is
    /// taken out, which is the only one a coherent queue can hold.
    pub fn remove(&mut self, t: usize)
        ensures
            !old(self)@.contains(t) ==> final(self)@ == old(self)@,
            old(self)@.contains(t) ==> (exists|j: int|
                0 <= j < old(self)@.len() && old(self)@[j] == t && final(self)@ == old(self)@.remove(j)),
    {
        let ghost q0 = self@;
        let n = self.items.len();
        let mut i: usize = 0;
        while i < n
            invariant
                q0 == old(self)@,
                n == q0.len(),
                self@ == q0,
                i <= n,
                forall|k: int| 0 <= k < i ==> q0[k] != t,
            decreases n - i,
        {
            if self.items[i] == t {
                let _ = self.items.remove(i);
                proof {
                    assert(q0[i as int] == t && self@ == q0.remove(i as int));
                }
                return ;
            }
            i = i + 1;
        }
    }

    /// Whether the queue is empty.
    pub fn is_empty(&self) -> (r: bool)
        ensures
            r == (self@.len() == 0),
    {
        self.items.len() == 0
    }

    /// Number of queued threads.
    pub fn len(&self) -> (r: usize)
        ensures
            r == self@.len(),
    {
        self.items.len()
    }
}

/// The rendezvous state of an endpoint.
#[derive(Debug, Clone, Copy, PartialEq, Eq, Structural)]
pub enum EndpointState {
    Idle,
    Send,
    Recv,
}

impl Default for EndpointState {
    fn default() -> (r: Self)
        ensures
            r == EndpointState::Idle,
    {
        EndpointState::Idle
    }
}

/// An endpoint object: its rendezvous state and its FIFO queue.
#[derive(Debug)]
pub struct EndpointObj {
    pub state: EndpointState,
    pub queue: TcbQueue,
}

impl EndpointObj {
    /// Create a new idle endpoint.
    pub fn new() -> (r: Self)
        ensures
            r.state == EndpointState::Idle,
            r.queue@ == Seq::<usize>::empty(),
    {
        Self { state: EndpointState::Idle, queue: TcbQueue::new() }
    }

    /// The rendezvous state.
    pub fn state(&self) -> (r: EndpointState)
        ensures
            r == self.state,
    {
        self.state
    }

    /// The queued threads, head first.
    pub fn queue(&self) -> (r: &TcbQueue)
        ensures
            r@ == self.queue@,
    {
        &self.queue
    }
}

/// Endpoint coherence: the state is `Idle` iff the queue is empty, all
/// queued threads exist, are distinct, are blocked in the state that
/// matches the endpoint's, and point back at this endpoint.
pub open spec fn ep_coherent(ep: EndpointObj, ep_idx: usize, tcbs: Seq<Tcb>) -> bool {
    &&& (ep.state == EndpointState::Idle <==> ep.queue@.len() == 0)
    &&& forall|i: int, j: int| 0 <= i < j < ep.queue@.len() ==> ep.queue@[i] != ep.queue@[j]
    &&& forall|i: int|
        0 <= i < ep.queue@.len() ==> {
            let t = #[trigger] ep.queue@[i] as int;
            &&& t < tcbs.len()
            &&& tcbs[t].blocking_object == Some(ep_idx)
            &&& tcbs[t].wf()
            &&& (ep.state == EndpointState::Send ==> tcbs[t].state == ThreadState::BlockedOnSend)
            &&& (ep.state == EndpointState::Recv ==> tcbs[t].state
                == ThreadState::BlockedOnReceive)
        }
}

/// Overwrite the TCB at index `i`.
fn tcb_put(tcbs: &mut Vec<Tcb>, i: usize, t: Tcb)
    requires
        i < old(tcbs)@.len(),
    ensures
        final(tcbs)@ == old(tcbs)@.update(i as int, t),
{
    let _ = tcbs.remove(i);
    tcbs.insert(i, t);
    proof {
        assert(tcbs@ =~= old(tcbs)@.update(i as int, t));
    }
}

/// Take the TCB at index `i` out of the pool, leaving a placeholder.
fn tcb_take(tcbs: &mut Vec<Tcb>, i: usize) -> (r: Tcb)
    requires
        i < old(tcbs)@.len(),
    ensures
        r == old(tcbs)@[i as int],
        final(tcbs)@ == old(tcbs)@.update(i as int, final(tcbs)@[i as int]),
        final(tcbs)@.len() == old(tcbs)@.len(),
{
    let t = tcbs.remove(i);
    tcbs.insert(i, Tcb::new());
    proof {
        assert(tcbs@ =~= old(tcbs)@.update(i as int, tcbs@[i as int]));
    }
    t
}

/// Copy the message registers from a sender to a receiver: the badge
/// lands in MR1 and the payload registers MR2..MR4 are copied by index.
fn do_ipc_transfer(tcbs: &mut Vec<Tcb>, sender: usize, receiver: usize, badge: u64)
    requires
        sender < old(tcbs)@.len(),
        receiver < old(tcbs)@.len(),
        sender != receiver,
        old(tcbs)@[sender as int].wf(),
        old(tcbs)@[receiver as int].wf(),
    ensures
        final(tcbs)@.len() == old(tcbs)@.len(),
        forall|k: int|
            0 <= k < old(tcbs)@.len() && k != receiver ==> final(tcbs)@[k] == old(tcbs)@[k],
        final(tcbs)@[receiver as int] == (Tcb {
            context: final(tcbs)@[receiver as int].context,
            ..old(tcbs)@[receiver as int]
        }),
        final(tcbs)@[receiver as int].wf(),
        final(tcbs)@[receiver as int].context == (crate::tcb::TrapFrame {
            registers: final(tcbs)@[receiver as int].context.registers,
            ..old(tcbs)@[receiver as int].context
        }),
        final(tcbs)@[receiver as int].context.registers@ == old(tcbs)@[receiver as int].context.registers@.update(MR1 as int, badge).update(
            MR2 as int,
            old(tcbs)@[sender as int].context.registers@[MR2 as int],
        ).update(MR3 as int, old(tcbs)@[sender as int].context.registers@[MR3 as int]).update(
            MR4 as int,
            old(tcbs)@[sender as int].context.registers@[MR4 as int],
        ),
{
    let m2 = tcbs[sender].get_mr(MR2);
    let m3 = tcbs[sender].get_mr(MR3);
    let m4 = tcbs[sender].get_mr(MR4);
    let mut r = tcb_take(tcbs, receiver);
    r.set_mr(MR1, badge);
    r.set_mr(MR2, m2);
    r.set_mr(MR3, m3);
    r.set_mr(MR4, m4);
    tcb_put(tcbs, receiver, r);
    proof {
        assert(final(tcbs)@ =~= old(tcbs)@.update(receiver as int, final(tcbs)@[receiver as int]));
    }
}

/// A sender blocked on an endpoint: staged fields stashed, state and
/// back-pointer set.
pub open spec fn tcb_blocked_send(t: Tcb, ep_idx: usize, st: IpcState) -> Tcb {
    Tcb {
        state: ThreadState::BlockedOnSend,
        blocking_object: Some(ep_idx),
        ipc_state: st,
        ..t
    }
}

/// A receiver blocked on an endpoint.
pub open spec fn tcb_blocked_recv(t: Tcb, ep_idx: usize) -> Tcb {
    Tcb { state: ThreadState::BlockedOnReceive, blocking_object: Some(ep_idx), ..t }
}

/// The receiver's register file after a message transfer: the badge in
/// MR1 and the payload registers MR2..MR4 copied from the sender by
/// index; no other register is transferred.
pub open spec fn transferred_regs(rcv: Seq<u64>, snd: Seq<u64>, badge: u64) -> Seq<u64> {
    rcv.update(MR1 as int, badge).update(MR2 as int, snd[MR2 as int]).update(
        MR3 as int,
        snd[MR3 as int],
    ).update(MR4 as int, snd[MR4 as int])
}

/// Send on an endpoint.
///
/// With no receiver waiting, a non-blocking send silently succeeds
/// without effect and a blocking send enqueues the sender; with a
/// receiver queued, the head receiver is dequeued, the message is
/// transferred, call semantics install the reply relationship, and the
/// woken receiver is handed back for scheduling.  Endpoint coherence is
/// preserved.
pub fn send_ipc(
    blocking: bool,
    do_call: bool,
    badge: u64,
    can_grant: bool,
    can_grant_reply: bool,
    sender: usize,
    ep: &mut EndpointObj,
    ep_idx: usize,
    tcbs: &mut Vec<Tcb>,
) -> (r: Result<Option<usize>, SysError>)
    requires
        sender < old(tcbs)@.len(),
        old(tcbs)@[sender as int].wf(),
        old(tcbs)@[sender as int].blocking_object is None,
        ep_coherent(*old(ep), ep_idx, old(tcbs)@),
    ensures
        r is Ok,
        final(tcbs)@.len() == old(tcbs)@.len(),
        ep_coherent(*final(ep), ep_idx, final(tcbs)@),
        old(ep).state != EndpointState::Recv ==> {
            &&& r == Ok::<Option<usize>, SysError>(None)
            &&& (blocking ==> final(ep).state == EndpointState::Send && final(ep).queue@ == old(ep).queue@.push(sender) && final(tcbs)@ == old(tcbs)@.update(
                sender as int,
                tcb_blocked_send(
                    old(tcbs)@[sender as int],
                    ep_idx,
                    IpcState { badge, can_grant, can_grant_reply, is_call: do_call },
                ),
            ))
            &&& (!blocking ==> final(ep).state == old(ep).state && final(ep).queue@ == old(ep).queue@ && final(tcbs)@ == old(tcbs)@)
        },
        old(ep).state == EndpointState::Recv ==> ({
            let rcv = old(ep).queue@[0];
            &&& old(ep).queue@.len() > 0
            &&& r == Ok::<Option<usize>, SysError>(Some(rcv))
            &&& final(ep).queue@ == old(ep).queue@.subrange(1, old(ep).queue@.len() as int)
            &&& final(ep).state == (if old(ep).queue@.len() == 1 {
                EndpointState::Idle
            } else {
                EndpointState::Recv
            })
            &&& forall|k: int|
                0 <= k < old(tcbs)@.len() && k != rcv && k != sender ==> final(tcbs)@[k] == old(tcbs)@[k]
            &&& final(tcbs)@[rcv as int] == (Tcb {
                context: final(tcbs)@[rcv as int].context,
                state: ThreadState::Running,
                blocking_object: None,
                caller: if do_call && (can_grant || can_grant_reply) {
                    Some(sender)
                } else {
                    old(tcbs)@[rcv as int].caller
                },
                ..old(tcbs)@[rcv as int]
            })
            &&& final(tcbs)@[rcv as int].context == (TrapFrame {
                registers: final(tcbs)@[rcv as int].context.registers,
                ..old(tcbs)@[rcv as int].context
            })
            &&& final(tcbs)@[rcv as int].context.registers@ == transferred_regs(
                old(tcbs)@[rcv as int].context.registers@,
                old(tcbs)@[sender as int].context.registers@,
                badge,
            )
            &&& final(tcbs)@[rcv as int].wf()
            &&& (do_call && (can_grant || can_grant_reply) ==> final(tcbs)@[sender as int] == (
            Tcb {
                state: ThreadState::BlockedOnReply,
                reply_to: Some(rcv),
                ..old(tcbs)@[sender as int]
            }))
            &&& (do_call && !(can_grant || can_grant_reply) ==> final(tcbs)@[sender as int] == (
            Tcb { state: ThreadState::Inactive, ..old(tcbs)@[sender as int] }))
            &&& (!do_call ==> final(tcbs)@[sender as int] == old(tcbs)@[sender as int])
        }),
{
    let ghost t0 = tcbs@;
    match ep.state {
        EndpointState::Idle | EndpointState::Send => {
            if blocking {
                // Stash the staged fields and block the sender.
                let mut st = tcb_take(tcbs, sender);
                st.ipc_state = IpcState { badge, can_grant, can_grant_reply, is_call: do_call };
                st.state = ThreadState::BlockedOnSend;
                st.blocking_object = Some(ep_idx);
                tcb_put(tcbs, sender, st);
                ep.queue.append(sender);
                ep.state = EndpointState::Send;
                proof {
                    assert(tcbs@ =~= t0.update(
                        sender as int,
                        tcb_blocked_send(
                            t0[sender as int],
                            ep_idx,
                            IpcState { badge, can_grant, can_grant_reply, is_call: do_call },
                        ),
                    ));
                    assert forall|i: int|
                        0 <= i < final(ep).queue@.len() implies {
                        let t = #[trigger] final(ep).queue@[i] as int;
                        &&& t < tcbs@.len()
                        &&& tcbs@[t].blocking_object == Some(ep_idx)
                        &&& tcbs@[t].wf()
                        &&& (final(ep).state == EndpointState::Send ==> tcbs@[t].state
                            == ThreadState::BlockedOnSend)
                        &&& (final(ep).state == EndpointState::Recv ==> tcbs@[t].state
                            == ThreadState::BlockedOnReceive)
                    } by {
                        if i < old(ep).queue@.len() {
                            assert(old(ep).queue@[i] as int != sender);
                        }
                    }
                    assert forall|i: int, j: int|
                        0 <= i < j < final(ep).queue@.len() implies final(ep).queue@[i] != final(ep).queue@[j] by {
                        if j == final(ep).queue@.len() - 1 {
                            assert(old(ep).queue@[i] as int != sender);
                        }
                    }
                }
            }
            Ok(None)
        },
        EndpointState::Recv => {
            let receiver = match ep.queue.dequeue_head() {
                Some(t) => t,
                None => {
                    proof {
                        assert(false);
                    }
                    return Err(SysError::InvalidOperation);
                },
            };
            proof {
                assert(old(ep).queue@[0] as int != sender);
            }
            if ep.queue.is_empty() {
                ep.state = EndpointState::Idle;
            }
            do_ipc_transfer(tcbs, sender, receiver, badge);
            if do_call {
                if can_grant || can_grant_reply {
                    // Install the reply relationship.
                    let mut sd = tcb_take(tcbs, sender);
                    sd.state = ThreadState::BlockedOnReply;
                    sd.reply_to = Some(receiver);
                    tcb_put(tcbs, sender, sd);
                    let mut rc = tcb_take(tcbs, receiver);
                    rc.caller = Some(sender);
                    rc.state = ThreadState::Running;
                    rc.blocking_object = None;
                    tcb_put(tcbs, receiver, rc);
                } else {
                    // No reply possible, make the sender inactive.
                    let mut sd = tcb_take(tcbs, sender);
                    sd.state = ThreadState::Inactive;
                    tcb_put(tcbs, sender, sd);
                    let mut rc = tcb_take(tcbs, receiver);
                    rc.state = ThreadState::Running;
                    rc.blocking_object = None;
                    tcb_put(tcbs, receiver, rc);
                }
            } else {
                let mut rc = tcb_take(tcbs, receiver);
                rc.state = ThreadState::Running;
                rc.blocking_object = None;
                tcb_put(tcbs, receiver, rc);
            }
            proof {
                let q1 = final(ep).queue@;
                assert forall|i: int|
                    0 <= i < q1.len() implies {
                    let t = #[trigger] q1[i] as int;
                    &&& t < tcbs@.len()
                    &&& tcbs@[t].blocking_object == Some(ep_idx)
                    &&& tcbs@[t].wf()
                    &&& (final(ep).state == EndpointState::Send ==> tcbs@[t].state
                        == ThreadState::BlockedOnSend)
                    &&& (final(ep).state == EndpointState::Recv ==> tcbs@[t].state
                        == ThreadState::BlockedOnReceive)
                } by {
                    assert(q1[i] == old(ep).queue@[i + 1]);
                    assert(old(ep).queue@[i + 1] != old(ep).queue@[0]);
                    assert(old(ep).queue@[i + 1] as int != sender);
                }
            }
            Ok(Some(receiver))
        },
    }
}

/// Receive on an endpoint.
///
/// With no sender queued, a blocking receiver enqueues itself and a
/// non-blocking receiver observes badge 0 in MR1; with a sender queued,
/// the head sender is dequeued, its staged message transferred, call
/// semantics install the reply relationship, and a completed non-call
/// sender is made Ready and handed back for scheduling.  Endpoint
/// coherence is preserved.
pub fn receive_ipc(receiver: usize, ep: &mut EndpointObj, ep_idx: usize, tcbs: &mut Vec<
    Tcb,
>, is_blocking: bool) -> (r: Result<Option<usize>, SysError>)
    requires
        receiver < old(tcbs)@.len(),
        old(tcbs)@[receiver as int].wf(),
        old(tcbs)@[receiver as int].blocking_object is None,
        ep_coherent(*old(ep), ep_idx, old(tcbs)@),
    ensures
        r is Ok,
        final(tcbs)@.len() == old(tcbs)@.len(),
        ep_coherent(*final(ep), ep_idx, final(tcbs)@),
        old(ep).state != EndpointState::Send ==> {
            &&& r == Ok::<Option<usize>, SysError>(None)
            &&& (is_blocking ==> final(ep).state == EndpointState::Recv && final(ep).queue@
                == old(ep).queue@.push(receiver) && final(tcbs)@ == old(tcbs)@.update(
                receiver as int,
                tcb_blocked_recv(old(tcbs)@[receiver as int], ep_idx),
            ))
            &&& (!is_blocking ==> final(ep).state == old(ep).state && final(ep).queue@ == old(ep).queue@ && final(tcbs)@[receiver as int] == (Tcb {
                context: final(tcbs)@[receiver as int].context,
                ..old(tcbs)@[receiver as int]
            }) && final(tcbs)@[receiver as int].context == (TrapFrame {
                registers: final(tcbs)@[receiver as int].context.registers,
                ..old(tcbs)@[receiver as int].context
            }) && final(tcbs)@[receiver as int].context.registers@ == old(
                tcbs,
            )@[receiver as int].context.registers@.update(MR1 as int, 0u64) && forall|k: int|
                0 <= k < old(tcbs)@.len() && k != receiver ==> final(tcbs)@[k] == old(tcbs)@[k])
        },
        old(ep).state == EndpointState::Send ==> ({
            let snd = old(ep).queue@[0];
            let st = old(tcbs)@[snd as int].ipc_state;
            &&& old(ep).queue@.len() > 0
            &&& final(ep).queue@ == old(ep).queue@.subrange(1, old(ep).queue@.len() as int)
            &&& final(ep).state == (if old(ep).queue@.len() == 1 {
                EndpointState::Idle
            } else {
                EndpointState::Send
            })
            &&& forall|k: int|
                0 <= k < old(tcbs)@.len() && k != snd && k != receiver ==> final(tcbs)@[k] == old(tcbs)@[k]
            &&& final(tcbs)@[receiver as int] == (Tcb {
                context: final(tcbs)@[receiver as int].context,
                caller: if st.is_call && (st.can_grant || st.can_grant_reply) {
                    Some(snd)
                } else {
                    old(tcbs)@[receiver as int].caller
                },
                ..old(tcbs)@[receiver as int]
            })
            &&& final(tcbs)@[receiver as int].context == (TrapFrame {
                registers: final(tcbs)@[receiver as int].context.registers,
                ..old(tcbs)@[receiver as int].context
            })
            &&& final(tcbs)@[receiver as int].context.registers@ == transferred_regs(
                old(tcbs)@[receiver as int].context.registers@,
                old(tcbs)@[snd as int].context.registers@,
                st.badge,
            )
            &&& final(tcbs)@[receiver as int].wf()
            &&& (st.is_call && (st.can_grant || st.can_grant_reply) ==> r == Ok::<
                Option<usize>,
                SysError,
            >(None) && final(tcbs)@[snd as int] == (Tcb {
                state: ThreadState::BlockedOnReply,
                reply_to: Some(receiver),
                blocking_object: None,
                ..old(tcbs)@[snd as int]
            }))
            &&& (st.is_call && !(st.can_grant || st.can_grant_reply) ==> r == Ok::<
                Option<usize>,
                SysError,
            >(None) && final(tcbs)@[snd as int] == (Tcb {
                state: ThreadState::Inactive,
                blocking_object: None,
                ..old(tcbs)@[snd as int]
            }))
            &&& (!st.is_call ==> r == Ok::<Option<usize>, SysError>(Some(snd)) && final(tcbs)@[snd as int] == (Tcb {
                state: ThreadState::Ready,
                blocking_object: None,
                ..old(tcbs)@[snd as int]
            }))
        }),
{
    let ghost t0 = tcbs@;
    match ep.state {
        EndpointState::Idle | EndpointState::Recv => {
            if is_blocking {
                // Block the receiver on the endpoint.
                let mut rc = tcb_take(tcbs, receiver);
                rc.state = ThreadState::BlockedOnReceive;
                rc.blocking_object = Some(ep_idx);
                tcb_put(tcbs, receiver, rc);
                ep.queue.append(receiver);
                ep.state = EndpointState::Recv;
                proof {
                    assert(tcbs@ =~= t0.update(
                        receiver as int,
                        tcb_blocked_recv(t0[receiver as int], ep_idx),
                    ));
                    assert forall|i: int|
                        0 <= i < final(ep).queue@.len() implies {
                        let t = #[trigger] final(ep).queue@[i] as int;
                        &&& t < tcbs@.len()
                        &&& tcbs@[t].blocking_object == Some(ep_idx)
                        &&& tcbs@[t].wf()
                        &&& (final(ep).state == EndpointState::Send ==> tcbs@[t].state
                            == ThreadState::BlockedOnSend)
                        &&& (final(ep).state == EndpointState::Recv ==> tcbs@[t].state
                            == ThreadState::BlockedOnReceive)
                    } by {
                        if i < old(ep).queue@.len() {
                            assert(old(ep).queue@[i] as int != receiver);
                        }
                    }
                    assert forall|i: int, j: int|
                        0 <= i < j < final(ep).queue@.len() implies final(ep).queue@[i] != final(ep).queue@[j] by {
                        if j == final(ep).queue@.len() - 1 {
                            assert(old(ep).queue@[i] as int != receiver);
                        }
                    }
                }
            } else {
                // Non-blocking receive with no sender: badge 0 in MR1.
                let mut rc = tcb_take(tcbs, receiver);
                rc.set_mr(MR1, 0);
                tcb_put(tcbs, receiver, rc);
            }
            Ok(None)
        },
        EndpointState::Send => {
            let sender = match ep.queue.dequeue_head() {
                Some(t) => t,
                None => {
                    proof {
                        assert(false);
                    }
                    return Err(SysError::InvalidOperation);
                },
            };
            proof {
                assert(old(ep).queue@[0] as int != receiver);
            }
            if ep.queue.is_empty() {
                ep.state = EndpointState::Idle;
            }
            let st = tcbs[sender].ipc_state;
            do_ipc_transfer(tcbs, sender, receiver, st.badge);
            let r: Option<usize>;
            if st.is_call {
                if st.can_grant || st.can_grant_reply {
                    let mut sd = tcb_take(tcbs, sender);
                    sd.state = ThreadState::BlockedOnReply;
                    sd.reply_to = Some(receiver);
                    sd.blocking_object = None;
                    tcb_put(tcbs, sender, sd);
                    let mut rc = tcb_take(tcbs, receiver);
                    rc.caller = Some(sender);
                    tcb_put(tcbs, receiver, rc);
                } else {
                    let mut sd = tcb_take(tcbs, sender);
                    sd.state = ThreadState::Inactive;
                    sd.blocking_object = None;
                    tcb_put(tcbs, sender, sd);
                }
                r = None;
            } else {
                let mut sd = tcb_take(tcbs, sender);
                sd.state = ThreadState::Ready;
                sd.blocking_object = None;
                tcb_put(tcbs, sender, sd);
                r = Some(sender);
            }
            proof {
                let q1 = final(ep).queue@;
                assert forall|i: int|
                    0 <= i < q1.len() implies {
                    let t = #[trigger] q1[i] as int;
                    &&& t < tcbs@.len()
                    &&& tcbs@[t].blocking_object == Some(ep_idx)
                    &&& tcbs@[t].wf()
                    &&& (final(ep).state == EndpointState::Send ==> tcbs@[t].state
                        == ThreadState::BlockedOnSend)
                    &&& (final(ep).state == EndpointState::Recv ==> tcbs@[t].state
                        == ThreadState::BlockedOnReceive)
                } by {
                    assert(q1[i] == old(ep).queue@[i + 1]);
                    assert(old(ep).queue@[i + 1] != old(ep).queue@[0]);
                    assert(old(ep).queue@[i + 1] as int != receiver);
                }
            }
            Ok(r)
        },
    }
}

/// Reply on the one-shot reply capability held in the callee's TCB:
/// wake the caller and clear both links.
pub fn reply_ipc(callee: usize, tcbs: &mut Vec<Tcb>) -> (r: Result<usize, SysError>)
    requires
        callee < old(tcbs)@.len(),
        old(tcbs)@[callee as int].caller matches Some(c) ==> (c as int) < old(tcbs)@.len() && c
            != callee,
    ensures
        final(tcbs)@.len() == old(tcbs)@.len(),
        match r {
            Ok(caller) => {
                &&& old(tcbs)@[callee as int].caller == Some(caller)
                &&& final(tcbs)@[caller as int] == (Tcb {
                    state: ThreadState::Running,
                    reply_to: None,
                    ..old(tcbs)@[caller as int]
                })
                &&& final(tcbs)@[callee as int] == (Tcb {
                    caller: None,
                    ..old(tcbs)@[callee as int]
                })
                &&& forall|k: int|
                    0 <= k < old(tcbs)@.len() && k != caller && k != callee ==> final(tcbs)@[k]
                        == old(tcbs)@[k]
            },
            Err(e) => e == SysError::InvalidOperation && old(tcbs)@[callee as int].caller is None
                && final(tcbs)@ == old(tcbs)@,
        },
{
    let caller = match tcbs[callee].caller {
        None => {
            return Err(SysError::InvalidOperation);
        },
        Some(c) => c,
    };
    let mut ca = tcb_take(tcbs, caller);
    ca.state = ThreadState::Running;
    ca.reply_to = None;
    tcb_put(tcbs, caller, ca);
    let mut ce = tcb_take(tcbs, callee);
    ce.caller = None;
    tcb_put(tcbs, callee, ce);
    Ok(caller)
}

/// Reply from kernel with error.
pub fn reply_from_kernel_error(thread: &mut Tcb, error_type: u64)
    requires
        old(thread).wf(),
    ensures
        final(thread).wf(),
        final(thread).context.registers@[MR1 as int] == 0,
        final(thread).context.registers@[MR2 as int] == error_type,
{
    thread.set_mr(MR1, 0);
    thread.set_mr(MR2, error_type);
}

/// Reply from kernel with success (empty message).
pub fn reply_from_kernel_success_empty(thread: &mut Tcb)
    requires
        old(thread).wf(),
    ensures
        final(thread).wf(),
        final(thread).context.registers@[MR1 as int] == 0,
{
    thread.set_mr(MR1, 0);
}


/// A typed view of an endpoint capability record; `arg1` carries the
/// badge in bits 0..28.
#[derive(Debug, Clone, Copy)]
pub struct EndpointCap {
    pub cap: CapRaw,
}

/// Badge field of an endpoint capability record.
pub open spec fn endpoint_badge(c: CapRaw) -> u64 {
    c.arg1 & 0xfffffff
}

impl EndpointCap {
    /// The capability record is well-formed for this type.
    pub open spec fn wf(self) -> bool {
        self.cap.cap_type == ObjType::Endpoint
    }

    /// Create a new endpoint capability.
    pub fn mint(paddr: u64, badge: u64, rights: CapRights) -> (r: CapRaw)
        ensures
            r.cap_type == ObjType::Endpoint,
            r.paddr == paddr,
            endpoint_badge(r) == badge & 0xfffffff,
            r.rights == rights,
            r.mdb_prev is None,
            r.mdb_next is None,
    {
        proof {
            assert((badge & 0xfffffff) & 0xfffffff == badge & 0xfffffff) by (bit_vector);
        }
        let mut capraw = CapRaw::default_with_type(ObjType::Endpoint);
        capraw.paddr = paddr;
        capraw.arg1 = badge & 0xfffffff;
        capraw.rights = rights;
        capraw
    }

    /// The badge stamped on messages sent through this capability.
    pub fn badge(&self) -> (r: u64)
        ensures
            r == endpoint_badge(self.cap),
    {
        self.cap.arg1 & 0xfffffff
    }

    /// Whether this capability permits sending.
    pub fn can_send(&self) -> (r: bool)
        ensures
            r == self.cap.rights.spec_contains(
                CapRights { bits: crate::capability::RIGHT_SEND },
            ),
    {
        self.cap.rights.contains(CapRights { bits: crate::capability::RIGHT_SEND })
    }

    /// Whether this capability permits receiving.
    pub fn can_receive(&self) -> (r: bool)
        ensures
            r == self.cap.rights.spec_contains(
                CapRights { bits: crate::capability::RIGHT_RECEIVE },
            ),
    {
        self.cap.rights.contains(CapRights { bits: crate::capability::RIGHT_RECEIVE })
    }

    /// Whether this capability permits granting.
    pub fn can_grant(&self) -> (r: bool)
        ensures
            r == self.cap.rights.spec_contains(
                CapRights { bits: crate::capability::RIGHT_GRANT },
            ),
    {
        self.cap.rights.contains(CapRights { bits: crate::capability::RIGHT_GRANT })
    }

    /// Describe this capability in the caller's message registers.
    pub fn identify(&self, tcb: &mut Tcb) -> (r: u64)
        requires
            old(tcb).wf(),
        ensures
            r == 4,
            final(tcb).wf(),
            final(tcb).context.registers@ == old(tcb).context.registers@.update(
                MR1 as int,
                ObjType::Endpoint.spec_code(),
            ).update(MR2 as int, self.cap.paddr).update(
                MR3 as int,
                endpoint_badge(self.cap),
            ).update(MR4 as int, self.cap.rights.bits as u64),
    {
        tcb.set_mr(MR1, ObjType::Endpoint.code());
        tcb.set_mr(MR2, self.cap.paddr);
        tcb.set_mr(MR3, self.badge());
        tcb.set_mr(MR4, self.cap.rights.bits as u64);
        4
    }
}

/// Cancel a thread's pending IPC, whatever state it is in: a thread
/// queued on the endpoint is removed from it (the endpoint returning
/// to Idle if its queue empties) and made Inactive; a thread blocked
/// on a reply has both one-shot links torn down and becomes Inactive;
/// a thread blocked on a notification becomes Inactive; any other
/// thread is left alone.  Used when a thread is destroyed.
pub fn cancel_ipc(t: usize, ep: &mut EndpointObj, ep_idx: usize, tcbs: &mut Vec<Tcb>)
    requires
        t < old(tcbs)@.len(),
        ep_coherent(*old(ep), ep_idx, old(tcbs)@),
        old(tcbs)@[t as int].blocking_object matches Some(i) ==> i == ep_idx,
        old(tcbs)@[t as int].reply_to matches Some(c) ==> (c as int) < old(tcbs)@.len() && c != t,
    ensures
        final(tcbs)@.len() == old(tcbs)@.len(),
        ep_coherent(*final(ep), ep_idx, final(tcbs)@),
        ({
            let st = old(tcbs)@[t as int].state;
            if st == ThreadState::BlockedOnSend || st == ThreadState::BlockedOnReceive {
                &&& (old(ep).queue@.contains(t) ==> exists|j: int|
                    0 <= j < old(ep).queue@.len() && old(ep).queue@[j] == t && final(ep).queue@
                        == old(ep).queue@.remove(j))
                &&& (!old(ep).queue@.contains(t) ==> final(ep).queue@ == old(ep).queue@)
                &&& !final(ep).queue@.contains(t)
                &&& final(ep).state == (if final(ep).queue@.len() == 0 {
                    EndpointState::Idle
                } else {
                    old(ep).state
                })
                &&& final(tcbs)@ == old(tcbs)@.update(
                    t as int,
                    Tcb {
                        state: ThreadState::Inactive,
                        blocking_object: None,
                        ..old(tcbs)@[t as int]
                    },
                )
            } else if st == ThreadState::BlockedOnReply {
                &&& *final(ep) == *old(ep)
                &&& final(tcbs)@[t as int] == (Tcb {
                    state: ThreadState::Inactive,
                    reply_to: None,
                    ..old(tcbs)@[t as int]
                })
                &&& (old(tcbs)@[t as int].reply_to matches Some(c) ==> final(tcbs)@[c as int]
                    == (Tcb { caller: None, ..old(tcbs)@[c as int] }))
                &&& forall|k: int|
                    0 <= k < old(tcbs)@.len() && k != t && k != crate::cspace::link_target(
                        old(tcbs)@[t as int].reply_to,
                    ) ==> final(tcbs)@[k] == old(tcbs)@[k]
            } else if st == ThreadState::BlockedOnNotification {
                &&& *final(ep) == *old(ep)
                &&& final(tcbs)@ == old(tcbs)@.update(
                    t as int,
                    Tcb { state: ThreadState::Inactive, ..old(tcbs)@[t as int] },
                )
            } else {
                &&& *final(ep) == *old(ep)
                &&& final(tcbs)@ == old(tcbs)@
            }
        }),
{
    let st = tcbs[t].state;
    match st {
        ThreadState::BlockedOnSend | ThreadState::BlockedOnReceive => {
            ep.queue.remove(t);
            proof {
                if old(ep).queue@.contains(t) {
                    let j = choose|j: int|
                        0 <= j < old(ep).queue@.len() && old(ep).queue@[j] == t && ep.queue@
                            == old(ep).queue@.remove(j);
                    assert forall|i: int, k: int|
                        0 <= i < k < old(ep).queue@.len() implies old(ep).queue@[i] != old(
                        ep,
                    ).queue@[k] by {}
                    if ep.queue@.contains(t) {
                        let i = choose|i: int| 0 <= i < ep.queue@.len() && ep.queue@[i] == t;
                    }
                }
            }
            if ep.queue.is_empty() {
                ep.state = EndpointState::Idle;
            }
            let mut tb = tcb_take(tcbs, t);
            tb.state = ThreadState::Inactive;
            tb.blocking_object = None;
            tcb_put(tcbs, t, tb);
            proof {
                assert(tcbs@ =~= old(tcbs)@.update(
                    t as int,
                    Tcb {
                        state: ThreadState::Inactive,
                        blocking_object: None,
                        ..old(tcbs)@[t as int]
                    },
                ));
                let q0 = old(ep).queue@;
                let q1 = final(ep).queue@;
                assert forall|i: int|
                    0 <= i < q1.len() implies {
                    let tt = #[trigger] q1[i] as int;
                    &&& tt < tcbs@.len()
                    &&& tcbs@[tt].blocking_object == Some(ep_idx)
                    &&& tcbs@[tt].wf()
                    &&& (final(ep).state == EndpointState::Send ==> tcbs@[tt].state
                        == ThreadState::BlockedOnSend)
                    &&& (final(ep).state == EndpointState::Recv ==> tcbs@[tt].state
                        == ThreadState::BlockedOnReceive)
                } by {
                    if q0.contains(t) {
                        let j = choose|j: int|
                            0 <= j < q0.len() && q0[j] == t && q1 == q0.remove(j);
                        if i < j {
                            assert(q1[i] == q0[i]);
                            assert(q0[i] != q0[j]);
                        } else {
                            assert(q1[i] == q0[i + 1]);
                            assert(q0[i + 1] != q0[j]);
                        }
                    } else {
                        assert(q1[i] != t);
                    }
                }
                assert forall|i: int, k: int| 0 <= i < k < q1.len() implies q1[i] != q1[k] by {
                    if q0.contains(t) {
                        let j = choose|j: int|
                            0 <= j < q0.len() && q0[j] == t && q1 == q0.remove(j);
                        assert(q1[i] == (if i < j {
                            q0[i]
                        } else {
                            q0[i + 1]
                        }));
                        assert(q1[k] == (if k < j {
                            q0[k]
                        } else {
                            q0[k + 1]
                        }));
                    }
                }
            }
        },
        ThreadState::BlockedOnReply => {
            if let Some(callee) = tcbs[t].reply_to {
                let mut ce = tcb_take(tcbs, callee);
                ce.caller = None;
                tcb_put(tcbs, callee, ce);
            }
            let mut tb = tcb_take(tcbs, t);
            tb.state = ThreadState::Inactive;
            tb.reply_to = None;
            tcb_put(tcbs, t, tb);
            proof {
                lemma_cancel_nonqueued_coherent(*ep, ep_idx, old(tcbs)@, tcbs@, t as int);
            }
        },
        ThreadState::BlockedOnNotification => {
            let mut tb = tcb_take(tcbs, t);
            tb.state = ThreadState::Inactive;
            tcb_put(tcbs, t, tb);
            proof {
                assert(tcbs@ =~= old(tcbs)@.update(
                    t as int,
                    Tcb { state: ThreadState::Inactive, ..old(tcbs)@[t as int] },
                ));
                lemma_cancel_nonqueued_coherent(*ep, ep_idx, old(tcbs)@, tcbs@, t as int);
            }
        },
        _ => {},
    }
}

/// A thread that is not blocked on a send or a receive cannot sit in a
/// coherent endpoint's queue, so changing only fields coherence does
/// not read (or only that thread and fields outside coherence) keeps
/// the endpoint coherent.
proof fn lemma_cancel_nonqueued_coherent(
    ep: EndpointObj,
    ep_idx: usize,
    t0: Seq<Tcb>,
    t1: Seq<Tcb>,
    t: int,
)
    requires
        ep_coherent(ep, ep_idx, t0),
        t1.len() == t0.len(),
        0 <= t < t0.len(),
        t0[t].state != ThreadState::BlockedOnSend && t0[t].state
            != ThreadState::BlockedOnReceive,
        forall|k: int|
            0 <= k < t0.len() && k != t ==> (#[trigger] t1[k]).state == t0[k].state
                && t1[k].blocking_object == t0[k].blocking_object && t1[k].context
                == t0[k].context,
    ensures
        ep_coherent(ep, ep_idx, t1),
{
    assert forall|i: int|
        0 <= i < ep.queue@.len() implies {
        let tt = #[trigger] ep.queue@[i] as int;
        &&& tt < t1.len()
        &&& t1[tt].blocking_object == Some(ep_idx)
        &&& t1[tt].wf()
        &&& (ep.state == EndpointState::Send ==> t1[tt].state == ThreadState::BlockedOnSend)
        &&& (ep.state == EndpointState::Recv ==> t1[tt].state == ThreadState::BlockedOnReceive)
    } by {
        if ep.queue@[i] as int == t {
            assert(ep.state != EndpointState::Idle);
        }
    }
}

/// Cancel all IPC on an endpoint: every queued thread is restarted and
/// unblocked; the endpoint returns to Idle.  The previously queued
/// threads are returned so the scheduler can requeue them.
pub fn cancel_all_ipc(ep: &mut EndpointObj, ep_idx: usize, tcbs: &mut Vec<Tcb>) -> (r: Vec<usize>)
    requires
        ep_coherent(*old(ep), ep_idx, old(tcbs)@),
    ensures
        r@ == old(ep).queue@,
        final(ep).state == EndpointState::Idle,
        final(ep).queue@.len() == 0,
        final(tcbs)@.len() == old(tcbs)@.len(),
        ep_coherent(*final(ep), ep_idx, final(tcbs)@),
        forall|i: int|
            0 <= i < old(ep).queue@.len() ==> final(tcbs)@[#[trigger] old(ep).queue@[i] as int] == (Tcb {
                state: ThreadState::Restart,
                blocking_object: None,
                ..old(tcbs)@[old(ep).queue@[i] as int]
            }),
        forall|k: int|
            0 <= k < old(tcbs)@.len() && !old(ep).queue@.contains(k as usize) ==> final(tcbs)@[k] == old(tcbs)@[k],
{
    let ghost q0 = ep.queue@;
    let mut out: Vec<usize> = Vec::new();
    loop
        invariant
            q0 == old(ep).queue@,
            ep.state == old(ep).state,
            tcbs@.len() == old(tcbs)@.len(),
            out@ + ep.queue@ == q0,
            forall|i: int, j: int| 0 <= i < j < ep.queue@.len() ==> ep.queue@[i] != ep.queue@[j],
            forall|i: int|
                0 <= i < ep.queue@.len() ==> {
                    let tt = #[trigger] ep.queue@[i] as int;
                    &&& tt < tcbs@.len()
                    &&& tcbs@[tt].blocking_object == Some(ep_idx)
                    &&& tcbs@[tt].wf()
                    &&& (ep.state == EndpointState::Send ==> tcbs@[tt].state
                        == ThreadState::BlockedOnSend)
                    &&& (ep.state == EndpointState::Recv ==> tcbs@[tt].state
                        == ThreadState::BlockedOnReceive)
                    &&& (tcbs@[tt].state == ThreadState::BlockedOnSend || tcbs@[tt].state
                        == ThreadState::BlockedOnReceive)
                },
            forall|i: int|
                0 <= i < out@.len() ==> tcbs@[#[trigger] out@[i] as int] == (Tcb {
                    state: ThreadState::Restart,
                    blocking_object: None,
                    ..old(tcbs)@[out@[i] as int]
                }),
            forall|k: int|
                0 <= k < old(tcbs)@.len() && !out@.contains(k as usize) ==> tcbs@[k] == old(tcbs)@[k],
            forall|i: int| 0 <= i < out@.len() ==> (#[trigger] out@[i] as int) < tcbs@.len(),
        ensures
            ep.queue@.len() == 0,
            out@ == q0,
        decreases ep.queue@.len(),
    {
        let ghost q_pre = ep.queue@;
        let tcb = match ep.queue.dequeue_head() {
            Some(t) => t,
            None => {
                proof {
                    assert(out@ =~= q0);
                }
                break ;
            },
        };
        proof {
            assert(q_pre[0] == tcb);
            assert(!out@.contains(tcb)) by {
                if out@.contains(tcb) {
                    let i = choose|i: int| 0 <= i < out@.len() && out@[i] == tcb;
                    assert(tcbs@[tcb as int].state == ThreadState::Restart);
                }
            }
        }
        let mut tb = tcb_take(tcbs, tcb);
        tb.state = ThreadState::Restart;
        tb.blocking_object = None;
        tcb_put(tcbs, tcb, tb);
        let ghost out_pre = out@;
        out.push(tcb);
        proof {
            assert(out@ + ep.queue@ =~= q0);
            assert forall|i: int|
                0 <= i < ep.queue@.len() implies {
                let tt = #[trigger] ep.queue@[i] as int;
                &&& tt < tcbs@.len()
                &&& tcbs@[tt].blocking_object == Some(ep_idx)
                &&& tcbs@[tt].wf()
                &&& (ep.state == EndpointState::Send ==> tcbs@[tt].state
                    == ThreadState::BlockedOnSend)
                &&& (ep.state == EndpointState::Recv ==> tcbs@[tt].state
                    == ThreadState::BlockedOnReceive)
            } by {
                assert(ep.queue@[i] == q_pre[i + 1]);
                assert(q_pre[i + 1] != q_pre[0]);
            }
            assert forall|k: int|
                0 <= k < old(tcbs)@.len() && !out@.contains(k as usize) implies tcbs@[k] == old(tcbs)@[k] by {
                assert(out@ == out_pre.push(tcb));
                if out_pre.contains(k as usize) {
                    let i = choose|i: int| 0 <= i < out_pre.len() && out_pre[i] == k as usize;
                    assert(out@[i] == k as usize);
                    assert(out@.contains(k as usize));
                }
                if k == tcb as int {
                    assert(out@[out@.len() - 1] == tcb);
                    assert(out@.contains(k as usize));
                }
            }
            assert forall|i: int|
                0 <= i < out@.len() implies tcbs@[#[trigger] out@[i] as int] == (Tcb {
                    state: ThreadState::Restart,
                    blocking_object: None,
                    ..old(tcbs)@[out@[i] as int]
                }) by {
                if i < out_pre.len() {
                    assert(out@[i] == out_pre[i]);
                    assert(out_pre[i] != tcb);
                }
            }
        }
    }
    ep.state = EndpointState::Idle;
    out
}


/// Cancel the sends with a specific badge: every queued sender whose
/// staged badge equals `badge` is restarted and removed; the others
/// keep their order.  Endpoints not accumulating senders are left
/// alone.  The restarted threads are returned so the scheduler can
/// requeue them.
pub fn cancel_badged_sends(ep: &mut EndpointObj, ep_idx: usize, badge: u64, tcbs: &mut Vec<
    Tcb,
>) -> (r: Vec<usize>)
    requires
        ep_coherent(*old(ep), ep_idx, old(tcbs)@),
    ensures
        final(tcbs)@.len() == old(tcbs)@.len(),
        ep_coherent(*final(ep), ep_idx, final(tcbs)@),
        old(ep).state != EndpointState::Send ==> *final(ep) == *old(ep) && final(tcbs)@ == old(tcbs)@ && r@.len() == 0,
        old(ep).state == EndpointState::Send ==> ({
            let keep = |x: usize| old(tcbs)@[x as int].ipc_state.badge != badge;
            &&& final(ep).queue@ == old(ep).queue@.filter(keep)
            &&& final(ep).state == (if old(ep).queue@.filter(keep).len() == 0 {
                EndpointState::Idle
            } else {
                EndpointState::Send
            })
            &&& forall|i: int|
                0 <= i < old(ep).queue@.len() && old(tcbs)@[#[trigger] old(ep).queue@[i] as int].ipc_state.badge == badge ==> final(tcbs)@[old(ep).queue@[i] as int] == (Tcb {
                    state: ThreadState::Restart,
                    blocking_object: None,
                    ..old(tcbs)@[old(ep).queue@[i] as int]
                })
            &&& forall|k: int|
                0 <= k < old(tcbs)@.len() && (forall|i: int|
                    0 <= i < old(ep).queue@.len() ==> (#[trigger] old(ep).queue@[i]) as int != k)
                    ==> final(tcbs)@[k] == old(tcbs)@[k]
            &&& forall|k: int|
                0 <= k < old(tcbs)@.len() && old(tcbs)@[k].ipc_state.badge != badge ==> final(tcbs)@[k] == old(tcbs)@[k]
        }),
{
    let ghost keep = |x: usize| old(tcbs)@[x as int].ipc_state.badge != badge;
    if !matches!(ep.state, EndpointState::Send) {
        return Vec::new();
    }
    let ghost q0 = ep.queue@;
    let n = ep.queue.len();
    let mut kept: Vec<usize> = Vec::new();
    let mut restarted: Vec<usize> = Vec::new();
    let mut i: usize = 0;
    while i < n
        invariant
            q0 == old(ep).queue@,
            ep == old(ep),
            keep == (|x: usize| old(tcbs)@[x as int].ipc_state.badge != badge),
            ep_coherent(*old(ep), ep_idx, old(tcbs)@),
            old(ep).state == EndpointState::Send,
            n == q0.len(),
            i <= n,
            tcbs@.len() == old(tcbs)@.len(),
            kept@ == q0.subrange(0, i as int).filter(keep),
            forall|j: int|
                0 <= j < i ==> (old(tcbs)@[#[trigger] q0[j] as int].ipc_state.badge == badge
                    ==> tcbs@[q0[j] as int] == (Tcb {
                    state: ThreadState::Restart,
                    blocking_object: None,
                    ..old(tcbs)@[q0[j] as int]
                })),
            forall|k: int|
                0 <= k < old(tcbs)@.len() && (forall|j: int|
                    0 <= j < i ==> (#[trigger] q0[j]) as int != k) ==> tcbs@[k] == old(tcbs)@[k],
            forall|j: int|
                0 <= j < i && old(tcbs)@[#[trigger] q0[j] as int].ipc_state.badge != badge
                    ==> tcbs@[q0[j] as int] == old(tcbs)@[q0[j] as int],
            forall|a: int|
                0 <= a < kept@.len() ==> (exists|j: int| 0 <= j < i && q0[j] == #[trigger] kept@[a]),
            forall|a: int, b: int| 0 <= a < b < kept@.len() ==> kept@[a] != kept@[b],
        decreases n - i,
    {
        let t = ep.queue.items[i];
        let ghost kept_pre = kept@;
        proof {
            // Unprocessed queue entries are untouched so far: they are
            // distinct from every processed one.
            assert forall|j: int| 0 <= j < i implies (#[trigger] q0[j]) as int != t as int by {}
            assert(tcbs@[t as int] == old(tcbs)@[t as int]);
        }
        if tcbs[t].ipc_state.badge == badge {
            let mut tb = tcb_take(tcbs, t);
            tb.state = ThreadState::Restart;
            tb.blocking_object = None;
            tcb_put(tcbs, t, tb);
            restarted.push(t);
        } else {
            proof {
                assert forall|a: int| 0 <= a < kept@.len() implies kept@[a] != t by {
                    let j = choose|j: int| 0 <= j < i && q0[j] == kept@[a];
                    assert(q0[j] != q0[i as int]);
                }
            }
            kept.push(t);
        }
        proof {
            reveal(Seq::filter);
            let sub0 = q0.subrange(0, i as int);
            let sub1 = sub0.push(t);
            assert(q0.subrange(0, i + 1 as int) =~= sub1);
            assert(sub1.drop_last() =~= sub0);
            assert(sub1.last() == t);
            assert(sub1.filter(keep) == (if keep(t) {
                kept_pre.push(t)
            } else {
                kept_pre
            }));
        }
        i = i + 1;
    }
    proof {
        assert(q0.subrange(0, n as int) =~= q0);
    }
    ep.queue = TcbQueue { items: kept };
    if ep.queue.is_empty() {
        ep.state = EndpointState::Idle;
    }
    proof {
        let q1 = final(ep).queue@;
        assert forall|a: int|
            0 <= a < q1.len() implies {
            let tt = #[trigger] q1[a] as int;
            &&& tt < tcbs@.len()
            &&& tcbs@[tt].blocking_object == Some(ep_idx)
            &&& tcbs@[tt].wf()
            &&& (final(ep).state == EndpointState::Send ==> tcbs@[tt].state
                == ThreadState::BlockedOnSend)
            &&& (final(ep).state == EndpointState::Recv ==> tcbs@[tt].state
                == ThreadState::BlockedOnReceive)
        } by {
            let j = choose|j: int| 0 <= j < n && q0[j] == q1[a];
            assert(old(tcbs)@[q0[j] as int].ipc_state.badge != badge || tcbs@[q1[a] as int]
                == old(tcbs)@[q1[a] as int]);
            assert(tcbs@[q1[a] as int] == old(tcbs)@[q1[a] as int]);
        }
    }
    restarted
}


/// Tear down the reply relationship of a thread blocked on a reply:
/// the callee's one-shot reply link is cleared and the thread becomes
/// Inactive.  Used when such a thread is destroyed.
pub fn cancel_reply(t: usize, tcbs: &mut Vec<Tcb>)
    requires
        t < old(tcbs)@.len(),
        old(tcbs)@[t as int].reply_to matches Some(c) ==> (c as int) < old(tcbs)@.len() && c != t,
    ensures
        final(tcbs)@.len() == old(tcbs)@.len(),
        final(tcbs)@[t as int] == (Tcb {
            state: ThreadState::Inactive,
            reply_to: None,
            ..old(tcbs)@[t as int]
        }),
        old(tcbs)@[t as int].reply_to matches Some(c) ==> final(tcbs)@[c as int] == (Tcb {
            caller: None,
            ..old(tcbs)@[c as int]
        }),
        forall|k: int|
            0 <= k < old(tcbs)@.len() && k != t && k != crate::cspace::link_target(
                old(tcbs)@[t as int].reply_to,
            ) ==> final(tcbs)@[k] == old(tcbs)@[k],
{
    if let Some(callee) = tcbs[t].reply_to {
        let mut ce = tcb_take(tcbs, callee);
        ce.caller = None;
        tcb_put(tcbs, callee, ce);
    }
    let mut tb = tcb_take(tcbs, t);
    tb.state = ThreadState::Inactive;
    tb.reply_to = None;
    tcb_put(tcbs, t, tb);
}


} // verus!
