//! End-to-end tests of the kernel core: capability encodings, CSpace
//! lookup, retype and revoke, the page-table walker, IPC rendezvous and
//! the EDF scheduler.

use capkern::capability::{CapRaw, CapRights, ObjType, RIGHT_CONTROL, RIGHT_READ, RIGHT_WRITE};
use capkern::cnode::{CNodeCap, CNodeEntry};
use capkern::cspace::{CSpace, SlotArena};
use capkern::endpoint::{
    cancel_all_ipc, cancel_badged_sends, cancel_ipc, cancel_reply, receive_ipc, reply_ipc,
    send_ipc, EndpointCap, EndpointObj, EndpointState,
};
use capkern::error::{SysError, VSpaceError, WalkResult};
use capkern::frame::{FrameCap, FrameSize};
use capkern::ptable::VSpaceObj;
use capkern::scheduler::{DeadlineEntry, Scheduler, TaskId};
use capkern::syscall::{handler, Syscall};
use capkern::nullcap::NullCap;
use capkern::tcb::{SchedContext, Tcb, ThreadState, MR1, MR2, MR3, MR4, MR5};
use capkern::untyped::UntypedCap;
use capkern::vspace::{VMAttributes, VSpaceCap};

fn rights(bits: u8) -> CapRights {
    CapRights::from_bits(bits)
}

#[test]
fn error_codes_are_stable() {
    assert_eq!(SysError::NoError.as_code(), 0);
    assert_eq!(SysError::CSpaceNotFound.as_code(), 1);
    assert_eq!(SysError::LookupError.as_code(), 3);
    assert_eq!(SysError::SlotNotEmpty.as_code(), 5);
    assert_eq!(SysError::InvalidValue.as_code(), 13);
    assert_eq!(SysError::OutOfMemory.as_code(), 15);
    assert_eq!(SysError::FrameAlreadyMapped.as_code(), 16);
    assert_eq!(SysError::DeleteFailed.as_code(), 22);
    assert!(SysError::NoError.is_ok());
    assert!(!SysError::LookupError.is_ok());
}

#[test]
fn cnode_cap_round_trip() {
    let cap = CNodeCap::mint(7, 8, 4, 0b1010, rights(RIGHT_CONTROL));
    let cnode = CNodeCap { cap };
    assert_eq!(cnode.radix_bits(), 8);
    assert_eq!(cnode.guard_bits(), 4);
    assert_eq!(cnode.guard(), 0b1010);
    assert_eq!(cnode.size(), 256);
    assert_eq!(cnode.base(), 7);
    assert_eq!(cap.cap_type, ObjType::CNode);
}

#[test]
fn frame_cap_round_trip_and_mapping_record() {
    let raw = FrameCap::mint(0x20_0000, FrameSize::Large, false, rights(RIGHT_READ | RIGHT_WRITE));
    let mut frame = FrameCap { cap: raw };
    assert_eq!(frame.size_bits(), 21);
    assert!(!frame.is_device());
    assert!(!frame.is_mapped());
    assert_eq!(frame.mapped_vaddr(), 0);

    frame.set_mapped(3, 0x40_0000).unwrap();
    assert!(frame.is_mapped());
    assert_eq!(frame.mapped_asid(), 3);
    assert_eq!(frame.mapped_vaddr(), 0x40_0000);
    // A frame has at most one mapping at any time.
    assert_eq!(frame.set_mapped(4, 0x80_0000), Err(SysError::FrameAlreadyMapped));
    frame.clear_mapped();
    assert!(!frame.is_mapped());
    assert_eq!(frame.mapped_vaddr(), 0);
    assert_eq!(frame.size_bits(), 21);
}

#[test]
fn untyped_cap_offset_field() {
    let raw = UntypedCap::mint(0x1_0000, 16, true);
    let mut ut = UntypedCap { cap: raw };
    assert_eq!(ut.bit_size(), 16);
    assert_eq!(ut.size(), 65536);
    assert_eq!(ut.free_offset(), 0);
    assert!(ut.is_device());
    ut.set_free_offset(4096);
    assert_eq!(ut.free_offset(), 4096);
    assert_eq!(ut.bit_size(), 16);
}

/// Guarded lookup through a two-level CSpace tree.
#[test]
fn cspace_guarded_lookup() {
    // Root CNode: radix 4, no guard, slots 0..16 of the arena.
    // Slot 5 holds a child CNode: radix 8, guard 0b1010 of length 4,
    // slots 16..272 of the arena.
    let mut arena = SlotArena::new(272);
    arena.write_slot(5, CNodeCap::mint(16, 8, 4, 0b1010, rights(RIGHT_CONTROL)));
    let mut root_entry = CNodeEntry::new();
    root_entry.set(CNodeCap::mint(0, 4, 0, 0, rights(RIGHT_CONTROL)));
    let cspace = CSpace::new(&root_entry).unwrap();

    let cptr: u64 = (0x5 << 28) | (0xA << 24) | (0x17 << 16);
    let res = cspace.resolve(&arena, cptr, 32).unwrap();
    assert_eq!(res.slot, 16 + 0x17);
    assert_eq!(res.bits_remaining, 16);

    // Lookup is deterministic: the same pointer resolves to the same
    // slot identity, as often as it is tried.
    let res2 = cspace.resolve(&arena, cptr, 32).unwrap();
    assert_eq!(res.slot, res2.slot);
    assert_eq!(res.bits_remaining, res2.bits_remaining);

    // A mismatched guard fails the lookup.
    let bad: u64 = (0x5 << 28) | (0xB << 24) | (0x17 << 16);
    assert_eq!(cspace.resolve(&arena, bad, 32), Err(SysError::LookupError));

    // Depth outside 1..=32 is rejected outright.
    assert_eq!(cspace.lookup_with_depth(&arena, cptr, 0), Err(SysError::InvalidValue));
    assert_eq!(cspace.lookup_with_depth(&arena, cptr, 33), Err(SysError::InvalidValue));
}

#[test]
fn cspace_new_rejects_non_cnode() {
    let entry = CNodeEntry::new();
    assert!(CSpace::new(&entry).is_err());
}

/// Retype bounds: sixteen 4 KiB frames exactly fill a 2^16 untyped.
#[test]
fn retype_bounds() {
    let mut arena = SlotArena::new(32);
    arena.write_slot(0, UntypedCap::mint(0x1_0000, 16, false));
    let dests: Vec<usize> = (1..=16).collect();
    arena.retype(0, ObjType::Frame, 12, &dests).unwrap();

    let ut = UntypedCap { cap: arena.get_slot(0) };
    assert_eq!(ut.free_offset(), 16 * 4096);

    for i in 1..=16usize {
        let c = arena.get_slot(i);
        assert_eq!(c.cap_type, ObjType::Frame);
        assert_eq!(c.paddr, 0x1_0000 + 4096 * (i as u64 - 1));
    }

    // The span is exhausted: one more frame must fail.
    let more: Vec<usize> = vec![17];
    assert_eq!(arena.retype(0, ObjType::Frame, 12, &more), Err(SysError::OutOfMemory));
}

#[test]
fn retype_rejects_wrong_targets() {
    let mut arena = SlotArena::new(8);
    arena.write_slot(0, UntypedCap::mint(0x1_0000, 16, true));
    let dests: Vec<usize> = vec![1];
    // A device untyped may only produce Frame or Untyped objects.
    assert_eq!(arena.retype(0, ObjType::Tcb, 10, &dests), Err(SysError::InvalidValue));
    // An unknown frame size is rejected.
    arena.write_slot(2, UntypedCap::mint(0x10_0000, 16, false));
    assert_eq!(arena.retype(2, ObjType::Frame, 13, &dests), Err(SysError::InvalidValue));
    // A non-empty destination slot is rejected.
    arena.write_slot(1, UntypedCap::mint(0x20_0000, 4, false));
    assert_eq!(arena.retype(2, ObjType::Frame, 12, &dests), Err(SysError::SlotNotEmpty));
}

/// Retype then revoke on the ancestor: the derived capabilities are
/// nullified, the chain from the untyped is gone, and the untyped's
/// free offset returns to its pre-retype value, so the region is
/// reusable by a subsequent retype at the same alignment.
#[test]
fn retype_then_revoke_on_ancestor() {
    let mut arena = SlotArena::new(16);
    arena.write_slot(0, UntypedCap::mint(0x1_0000, 16, false));
    let dests: Vec<usize> = vec![1, 2, 3, 4];
    arena.retype(0, ObjType::Frame, 12, &dests).unwrap();
    assert_eq!(UntypedCap { cap: arena.get_slot(0) }.free_offset(), 4 * 4096);

    // The minted capabilities sit on the derivation chain after the
    // untyped's slot.
    assert_eq!(arena.get_slot(0).mdb_next, Some(4));
    assert_eq!(arena.get_slot(4).mdb_prev, Some(0));

    arena.revoke(0);

    for i in 1..=4usize {
        let c = arena.get_slot(i);
        assert_eq!(c.cap_type, ObjType::NullObj);
        assert_eq!(c.paddr, 0);
        assert_eq!(c.mdb_prev, None);
        assert_eq!(c.mdb_next, None);
    }
    let ut = UntypedCap { cap: arena.get_slot(0) };
    assert_eq!(ut.free_offset(), 0);
    assert_eq!(ut.bit_size(), 16);
    assert_eq!(arena.get_slot(0).mdb_next, None);

    // The reclaimed span takes the same retype again, at the same
    // addresses and alignment.
    arena.retype(0, ObjType::Frame, 12, &dests).unwrap();
    assert_eq!(UntypedCap { cap: arena.get_slot(0) }.free_offset(), 4 * 4096);
    assert_eq!(arena.get_slot(1).paddr, 0x1_0000);
    assert_eq!(arena.get_slot(1).cap_type, ObjType::Frame);
}

/// Revoke is idempotent: the second revoke finds no successor and
/// leaves every slot exactly as the first left it.
#[test]
fn revoke_idempotent() {
    let mut arena = SlotArena::new(8);
    arena.write_slot(0, UntypedCap::mint(0x1_0000, 16, false));
    let dests: Vec<usize> = vec![1, 2];
    arena.retype(0, ObjType::Frame, 12, &dests).unwrap();

    arena.revoke(0);
    let snapshot: Vec<CapRaw> = (0..8).map(|i| arena.get_slot(i)).collect();
    arena.revoke(0);
    for i in 0..8usize {
        let a = arena.get_slot(i);
        let b = snapshot[i];
        assert_eq!(a.cap_type, b.cap_type);
        assert_eq!(a.arg1, b.arg1);
        assert_eq!(a.arg2, b.arg2);
        assert_eq!(a.paddr, b.paddr);
        assert_eq!(a.mdb_prev, b.mdb_prev);
        assert_eq!(a.mdb_next, b.mdb_next);
    }
}

/// The MDB stays acyclic and consistent across splices and removals.
#[test]
fn mdb_insert_and_remove() {
    let mut arena = SlotArena::new(8);
    for i in 0..3usize {
        arena.write_slot(i, UntypedCap::mint(0x1000 * (i as u64 + 1), 12, false));
    }
    arena.mdb_insert_after(0, 1);
    arena.mdb_insert_after(0, 2);
    // Chain: 0 -> 2 -> 1.
    assert_eq!(arena.get_slot(0).mdb_next, Some(2));
    assert_eq!(arena.get_slot(2).mdb_prev, Some(0));
    assert_eq!(arena.get_slot(2).mdb_next, Some(1));
    assert_eq!(arena.get_slot(1).mdb_prev, Some(2));
    assert_eq!(arena.get_slot(1).mdb_next, None);

    arena.mdb_remove(2);
    assert_eq!(arena.get_slot(0).mdb_next, Some(1));
    assert_eq!(arena.get_slot(1).mdb_prev, Some(0));
    assert_eq!(arena.get_slot(2).mdb_prev, None);
    assert_eq!(arena.get_slot(2).mdb_next, None);
}

/// Map, walk and unmap a 4 KiB page through a pre-installed chain.
#[test]
fn map_walk_unmap_4k() {
    let mut vs = VSpaceObj::new(0x1000);
    vs.install_table(0x40_0000, 3, 0x2000).unwrap();
    vs.install_table(0x40_0000, 2, 0x3000).unwrap();
    vs.install_table(0x40_0000, 1, 0x4000).unwrap();

    let attr = VMAttributes::default();
    vs.map_4k(0x40_0000, 0x20_0000, attr).unwrap();

    match vs.walk(0x40_0000).unwrap() {
        WalkResult::MappedPage { paddr, size, level } => {
            assert_eq!(paddr, 0x20_0000);
            assert_eq!(size, FrameSize::Small);
            assert_eq!(level, 1);
        },
        other => panic!("unexpected walk result: {:?}", other),
    }

    // Mapping the same page again is refused.
    assert_eq!(vs.map_4k(0x40_0000, 0x30_0000, attr), Err(VSpaceError::AlreadyMapped));

    let (paddr, size) = vs.unmap(0x40_0000).unwrap();
    assert_eq!(paddr, 0x20_0000);
    assert_eq!(size, FrameSize::Small);

    match vs.walk(0x40_0000).unwrap() {
        WalkResult::NotMapped { level } => assert_eq!(level, 1),
        other => panic!("unexpected walk result: {:?}", other),
    }
    assert_eq!(vs.unmap(0x40_0000), Err(VSpaceError::NotMapped));
}

/// A frame capability and the page tables stay coherent through the
/// combined map and unmap operations.
#[test]
fn frame_map_unmap_coherence() {
    let mut vs = VSpaceObj::new(0x1000);
    vs.install_table(0x40_0000, 3, 0x2000).unwrap();
    vs.install_table(0x40_0000, 2, 0x3000).unwrap();
    vs.install_table(0x40_0000, 1, 0x4000).unwrap();

    let raw = FrameCap::mint(0x20_0000, FrameSize::Small, false, rights(RIGHT_READ | RIGHT_WRITE));
    let mut frame = FrameCap { cap: raw };
    vs.map_frame(0x40_0000, &mut frame, 7, true).unwrap();
    assert!(frame.is_mapped());
    assert_eq!(frame.mapped_asid(), 7);
    assert_eq!(frame.mapped_vaddr(), 0x40_0000);

    // Mapping a mapped frame again is refused: at most one mapping.
    assert_eq!(vs.map_frame(0x80_0000, &mut frame, 7, true), Err(SysError::FrameAlreadyMapped));

    let (paddr, size) = vs.unmap_frame(&mut frame).unwrap();
    assert_eq!(paddr, 0x20_0000);
    assert_eq!(size, FrameSize::Small);
    assert!(!frame.is_mapped());
    assert_eq!(vs.unmap_frame(&mut frame), Err(SysError::FrameNotMapped));
}

#[test]
fn map_2m_requires_alignment() {
    let mut vs = VSpaceObj::new(0x1000);
    vs.install_table(0x4000_0000, 3, 0x2000).unwrap();
    vs.install_table(0x4020_0000, 2, 0x3000).unwrap();
    let attr = VMAttributes::default();
    assert_eq!(vs.map_2m(0x4000_1000, 0x20_0000, attr), Err(VSpaceError::MisalignedVAddr));
    assert_eq!(vs.map_2m(0x4020_0000, 0x20_1000, attr), Err(VSpaceError::MisalignedPAddr));
    vs.map_2m(0x4020_0000, 0x20_0000, attr).unwrap();
    match vs.walk(0x4020_0000).unwrap() {
        WalkResult::MappedPage { paddr, size, level } => {
            assert_eq!(paddr, 0x20_0000);
            assert_eq!(size, FrameSize::Large);
            assert_eq!(level, 2);
        },
        other => panic!("unexpected walk result: {:?}", other),
    }
}

#[test]
fn non_canonical_vaddr_rejected() {
    let vs = VSpaceObj::new(0x1000);
    assert_eq!(vs.walk(0x0000_9000_0000_0000), Err(VSpaceError::InvalidVAddr));
}

/// IPC rendezvous: a blocking receiver is woken by a send and observes
/// the badge in MR1.
#[test]
fn ipc_rendezvous() {
    let mut tcbs = vec![Tcb::new(), Tcb::new()];
    let mut ep = EndpointObj::new();

    // B receives, blocking: B blocks and the endpoint goes to Recv.
    let r = receive_ipc(1, &mut ep, 0, &mut tcbs, true).unwrap();
    assert_eq!(r, None);
    assert_eq!(tcbs[1].state, ThreadState::BlockedOnReceive);
    assert_eq!(tcbs[1].blocking_object, Some(0));
    assert_eq!(ep.state, EndpointState::Recv);

    // A sends with badge 0x42: registers transfer, B becomes Running,
    // the endpoint returns to Idle.
    tcbs[0].set_mr(MR2, 1234);
    let woken = send_ipc(true, false, 0x42, false, false, 0, &mut ep, 0, &mut tcbs).unwrap();
    assert_eq!(woken, Some(1));
    assert_eq!(tcbs[1].state, ThreadState::Running);
    assert_eq!(tcbs[1].get_mr(MR1), 0x42);
    assert_eq!(tcbs[1].get_mr(MR2), 1234);
    assert_eq!(ep.state, EndpointState::Idle);
    assert_eq!(tcbs[1].blocking_object, None);
}

/// A non-blocking send with no receiver has no effect; a non-blocking
/// receive with no sender observes badge 0.
#[test]
fn ipc_non_blocking() {
    let mut tcbs = vec![Tcb::new(), Tcb::new()];
    let mut ep = EndpointObj::new();

    let r = send_ipc(false, false, 0x42, false, false, 0, &mut ep, 0, &mut tcbs).unwrap();
    assert_eq!(r, None);
    assert_eq!(ep.state, EndpointState::Idle);
    assert_eq!(tcbs[0].state, ThreadState::Running);

    tcbs[1].set_mr(MR1, 77);
    let r = receive_ipc(1, &mut ep, 0, &mut tcbs, false).unwrap();
    assert_eq!(r, None);
    assert_eq!(tcbs[1].get_mr(MR1), 0);
    assert_eq!(ep.state, EndpointState::Idle);
}

/// IPC call and reply: the callee observes the caller, the caller
/// blocks on the reply, and the reply wakes it and clears both links.
#[test]
fn ipc_call_and_reply() {
    let mut tcbs = vec![Tcb::new(), Tcb::new()];
    let mut ep = EndpointObj::new();

    // B is queued receiving.
    receive_ipc(1, &mut ep, 0, &mut tcbs, true).unwrap();

    // A calls with grant-reply rights.
    let woken = send_ipc(true, true, 9, false, true, 0, &mut ep, 0, &mut tcbs).unwrap();
    assert_eq!(woken, Some(1));
    assert_eq!(tcbs[1].state, ThreadState::Running);
    assert_eq!(tcbs[1].get_mr(MR1), 9);
    assert_eq!(tcbs[1].caller, Some(0));
    assert_eq!(tcbs[0].state, ThreadState::BlockedOnReply);
    assert_eq!(tcbs[0].reply_to, Some(1));

    // B replies: A runs again and both links are cleared.
    let caller = reply_ipc(1, &mut tcbs).unwrap();
    assert_eq!(caller, 0);
    assert_eq!(tcbs[0].state, ThreadState::Running);
    assert_eq!(tcbs[0].reply_to, None);
    assert_eq!(tcbs[1].caller, None);
}

/// Endpoint coherence: the state is Idle exactly when the queue is
/// empty, and every queued thread points back at the endpoint.
#[test]
fn endpoint_cancellation() {
    let mut tcbs = vec![Tcb::new(), Tcb::new(), Tcb::new()];
    let mut ep = EndpointObj::new();
    receive_ipc(0, &mut ep, 5, &mut tcbs, true).unwrap();
    receive_ipc(1, &mut ep, 5, &mut tcbs, true).unwrap();
    receive_ipc(2, &mut ep, 5, &mut tcbs, true).unwrap();
    assert_eq!(ep.state, EndpointState::Recv);
    assert_eq!(ep.queue().len(), 3);

    cancel_ipc(1, &mut ep, 5, &mut tcbs);
    assert_eq!(ep.queue().len(), 2);
    assert_eq!(tcbs[1].state, ThreadState::Inactive);
    assert_eq!(tcbs[1].blocking_object, None);
    assert_eq!(ep.state, EndpointState::Recv);

    let restarted = cancel_all_ipc(&mut ep, 5, &mut tcbs);
    assert_eq!(restarted, vec![0, 2]);
    assert_eq!(ep.state, EndpointState::Idle);
    assert!(ep.queue().is_empty());
    assert_eq!(tcbs[0].state, ThreadState::Restart);
    assert_eq!(tcbs[2].state, ThreadState::Restart);
}

/// Cancelling IPC dispatches on the thread's state: threads that are
/// not blocked are left alone, and a thread blocked on a reply has
/// both one-shot links torn down.
#[test]
fn cancel_ipc_dispatch() {
    let mut tcbs = vec![Tcb::new(), Tcb::new()];
    let mut ep = EndpointObj::new();

    // A running thread: nothing changes.
    cancel_ipc(0, &mut ep, 0, &mut tcbs);
    assert_eq!(tcbs[0].state, ThreadState::Running);
    assert_eq!(ep.state, EndpointState::Idle);

    // A thread blocked on a reply: both links cleared, thread Inactive.
    receive_ipc(1, &mut ep, 0, &mut tcbs, true).unwrap();
    send_ipc(true, true, 5, false, true, 0, &mut ep, 0, &mut tcbs).unwrap();
    assert_eq!(tcbs[0].state, ThreadState::BlockedOnReply);
    cancel_ipc(0, &mut ep, 0, &mut tcbs);
    assert_eq!(tcbs[0].state, ThreadState::Inactive);
    assert_eq!(tcbs[0].reply_to, None);
    assert_eq!(tcbs[1].caller, None);
}

/// Scheduler heap order: entries come off the ready set in
/// non-decreasing deadline order.
#[test]
fn scheduler_pop_order() {
    let mut sched = Scheduler::new();
    for (d, t) in [(30u64, 1u64), (10, 2), (20, 3), (10, 4)] {
        sched.enqueue(DeadlineEntry { deadline: d, task_id: TaskId(t) }).unwrap();
    }
    let mut last = 0u64;
    for _ in 0..4 {
        let e = sched.preempt().expect("entry expected");
        assert!(e.deadline >= last);
        last = e.deadline;
        sched.current = None;
    }
    assert!(sched.preempt().is_none());
}

/// EDF preemption: a woken thread with an earlier deadline preempts the
/// current one; the outgoing thread rejoins the ready set.
#[test]
fn edf_preemption() {
    let mut sched = Scheduler::new();
    sched.current = Some(DeadlineEntry { deadline: 100, task_id: TaskId(1) });

    let mut tcbs = vec![Tcb::new(), Tcb::new(), Tcb::new()];
    tcbs[2].sched_context = Some(SchedContext { ticks: 0, ticks_consumed: 0, deadline: 50 });
    tcbs[2].state = ThreadState::BlockedOnReceive;

    let e = sched.wake(&mut tcbs, 2).unwrap();
    assert_eq!(e.deadline, 50);
    assert_eq!(tcbs[2].state, ThreadState::Ready);

    // The tick path switches to the earlier deadline and re-enqueues
    // the outgoing entry.
    let switched = sched.preempt().expect("preemption expected");
    assert_eq!(switched.deadline, 50);
    assert_eq!(switched.task_id, TaskId(2));
    assert_eq!(sched.current, Some(switched));

    // No preemption while the current deadline is the earliest.
    assert!(sched.preempt().is_none());

    // Once the current entry's deadline passes the queued one, the next
    // tick preempts back.
    sched.current = Some(DeadlineEntry { deadline: 200, task_id: TaskId(2) });
    let back = sched.preempt().expect("preemption expected");
    assert_eq!(back.deadline, 100);
    assert_eq!(back.task_id, TaskId(1));
}

#[test]
fn scheduler_queue_full() {
    let mut sched = Scheduler::new();
    for i in 0..64u64 {
        sched.enqueue(DeadlineEntry { deadline: i, task_id: TaskId(i) }).unwrap();
    }
    assert_eq!(
        sched.enqueue(DeadlineEntry { deadline: 99, task_id: TaskId(99) }),
        Err(SysError::RangeError)
    );
    assert_eq!(sched.len(), 64);
}

#[test]
fn syscall_decode_and_validation() {
    assert_eq!(handler(20, &vec![1, 2, 3]), Ok(Syscall::Send));
    assert_eq!(handler(22, &vec![1, 2, 3]), Ok(Syscall::IpcCall));
    assert_eq!(handler(1, &vec![1, 2]), Err(capkern::syscall::SysError::InvalidValue));
    assert_eq!(handler(99, &vec![]), Err(capkern::syscall::SysError::UnknownSyscall(99)));
    assert_eq!(handler(3, &vec![]), Ok(Syscall::TaskSleep));
}

#[test]
fn vspace_cap_active_flag() {
    let raw = VSpaceCap::mint(0x5000, 12, rights(RIGHT_CONTROL));
    let mut vc = VSpaceCap { cap: raw };
    assert_eq!(vc.asid(), 12);
    assert!(!vc.is_active());
    assert_eq!(vc.root_paddr(), 0x5000);
    vc.set_active(true);
    assert!(vc.is_active());
    assert_eq!(vc.asid(), 12);
    vc.set_active(false);
    assert!(!vc.is_active());
}

#[test]
fn tcb_message_registers() {
    let mut t = Tcb::new();
    t.set_mr(MR1, 0xdead);
    t.set_mr(MR2, 0xbeef);
    assert_eq!(t.get_mr(MR1), 0xdead);
    assert_eq!(t.get_mr(MR2), 0xbeef);
    assert_eq!(t.state, ThreadState::Running);
    // MR1 is RDI (register index 5), MR2 is RSI (index 4).
    assert_eq!(MR1, 5);
    assert_eq!(MR2, 4);
}

/// Retyping a CNode claims a fresh zeroed slot array in the arena and
/// encodes its geometry in the capability.
#[test]
fn retype_cnode_geometry() {
    let mut arena = SlotArena::new(8);
    arena.write_slot(0, UntypedCap::mint(0x1_0000, 16, false));
    let dests: Vec<usize> = vec![1];
    // user_bits 9: 2^4 = 16 slots of 32 bytes.
    arena.retype(0, ObjType::CNode, 9, &dests).unwrap();
    let c = arena.get_slot(1);
    assert_eq!(c.cap_type, ObjType::CNode);
    let cnode = CNodeCap { cap: c };
    assert_eq!(cnode.radix_bits(), 4);
    assert_eq!(cnode.guard_bits(), 28);
    assert_eq!(cnode.guard(), 0);
    assert_eq!(cnode.base(), 8);
    assert_eq!(arena.len(), 8 + 16);
    for i in 8..24usize {
        assert_eq!(arena.get_slot(i).cap_type, ObjType::NullObj);
    }
}

/// Cancelling by badge restarts only the matching senders and keeps
/// the queue order of the others.
#[test]
fn badged_send_cancellation() {
    let mut tcbs = vec![Tcb::new(), Tcb::new(), Tcb::new()];
    let mut ep = EndpointObj::new();
    send_ipc(true, false, 7, false, false, 0, &mut ep, 3, &mut tcbs).unwrap();
    send_ipc(true, false, 9, false, false, 1, &mut ep, 3, &mut tcbs).unwrap();
    send_ipc(true, false, 7, false, false, 2, &mut ep, 3, &mut tcbs).unwrap();
    assert_eq!(ep.state, EndpointState::Send);

    let restarted = cancel_badged_sends(&mut ep, 3, 7, &mut tcbs);
    assert_eq!(restarted, vec![0, 2]);
    assert_eq!(ep.queue().len(), 1);
    assert_eq!(ep.state, EndpointState::Send);
    assert_eq!(tcbs[0].state, ThreadState::Restart);
    assert_eq!(tcbs[2].state, ThreadState::Restart);
    assert_eq!(tcbs[1].state, ThreadState::BlockedOnSend);

    let rest = cancel_badged_sends(&mut ep, 3, 9, &mut tcbs);
    assert_eq!(rest, vec![1]);
    assert_eq!(ep.state, EndpointState::Idle);
}

#[test]
fn endpoint_cap_badge_and_rights() {
    let raw = EndpointCap::mint(0x9000, 0x1234_5678, rights(0x20 | 0x40));
    let cap = EndpointCap { cap: raw };
    assert_eq!(cap.badge(), 0x1234_5678 & 0xfffffff);
    assert!(cap.can_send());
    assert!(cap.can_receive());
    assert!(!cap.can_grant());
}

/// The identify operations describe a capability through the message
/// registers, with the badge or offsets where the ABI puts them.
#[test]
fn identify_reports_fields() {
    let mut t = Tcb::new();
    let ut = UntypedCap { cap: UntypedCap::mint(0x1_0000, 16, true) };
    assert_eq!(ut.identify(&mut t), 5);
    assert_eq!(t.get_mr(MR1), 1);
    assert_eq!(t.get_mr(MR2), 0x1_0000);
    assert_eq!(t.get_mr(MR3), 16);
    assert_eq!(t.get_mr(MR4), 1);
    assert_eq!(t.get_mr(MR5), 0);

    let f = FrameCap { cap: FrameCap::mint(0x20_0000, FrameSize::Small, false, rights(0x03)) };
    assert_eq!(f.identify(&mut t), 6);
    assert_eq!(t.get_mr(MR1), 4);
    assert_eq!(t.get_mr(MR3), 12);
}

#[test]
fn scheduler_yield_and_block() {
    let mut sched = Scheduler::new();
    sched.current = Some(DeadlineEntry { deadline: 10, task_id: TaskId(1) });
    sched.enqueue(DeadlineEntry { deadline: 20, task_id: TaskId(2) }).unwrap();

    // Yield puts the current entry back; the earliest deadline runs.
    let next = sched.yield_current().unwrap();
    assert_eq!(next.task_id, TaskId(1));
    assert_eq!(sched.len(), 1);

    // Blocking the current entry schedules the remaining one.
    let mut tcbs = vec![Tcb::new(), Tcb::new(), Tcb::new()];
    let next = sched.block_current(&mut tcbs, ThreadState::BlockedOnReceive).unwrap();
    assert_eq!(next.task_id, TaskId(2));
    assert_eq!(tcbs[1].state, ThreadState::BlockedOnReceive);

    // With the ready set drained, blocking leaves nothing to run.
    let none = sched.block_current(&mut tcbs, ThreadState::BlockedOnSend);
    assert!(none.is_none());
    assert_eq!(sched.current, None);
}

#[test]
fn null_slot_insert() {
    let mut slot = CNodeEntry::new();
    assert!(slot.is_null());
    let nc = NullCap::try_from_slot(&slot).unwrap();
    let mut t = Tcb::new();
    assert_eq!(nc.identify(&mut t), 1);
    assert_eq!(t.get_mr(MR1), 0);
    NullCap::insert_raw(&mut slot, UntypedCap::mint(0x4000, 12, false));
    assert!(!slot.is_null());
    assert_eq!(slot.get().cap_type, ObjType::Untyped);
    assert!(NullCap::try_from_slot(&slot).is_none());
}

/// Deriving a capability copies the record with reduced rights and
/// splices it after the parent, so revoking the parent reclaims it.
#[test]
fn derive_reduced_rights() {
    let mut arena = SlotArena::new(8);
    arena.write_slot(
        0,
        FrameCap::mint(0x20_0000, FrameSize::Small, false, rights(RIGHT_READ | RIGHT_WRITE)),
    );
    arena.derive_cap(0, 1, rights(RIGHT_READ)).unwrap();
    let child = arena.get_slot(1);
    assert_eq!(child.cap_type, ObjType::Frame);
    assert_eq!(child.paddr, 0x20_0000);
    assert_eq!(child.rights.bits, RIGHT_READ);
    assert_eq!(child.mdb_prev, Some(0));
    assert_eq!(arena.get_slot(0).mdb_next, Some(1));

    // A second derivation into an occupied slot is refused.
    assert_eq!(arena.derive_cap(0, 1, rights(RIGHT_READ)), Err(SysError::SlotNotEmpty));
    // Untyped capabilities cannot be derived this way.
    arena.write_slot(2, UntypedCap::mint(0x1_0000, 12, false));
    assert_eq!(arena.derive_cap(2, 3, rights(0xff)), Err(SysError::UnableToDerive));

    // Revoking the parent nullifies the derived copy.
    arena.revoke(0);
    assert_eq!(arena.get_slot(1).cap_type, ObjType::NullObj);
}

/// Tearing down a reply relationship clears both one-shot links.
#[test]
fn reply_link_cancellation() {
    let mut tcbs = vec![Tcb::new(), Tcb::new()];
    let mut ep = EndpointObj::new();
    receive_ipc(1, &mut ep, 0, &mut tcbs, true).unwrap();
    send_ipc(true, true, 1, false, true, 0, &mut ep, 0, &mut tcbs).unwrap();
    assert_eq!(tcbs[0].reply_to, Some(1));
    assert_eq!(tcbs[1].caller, Some(0));

    cancel_reply(0, &mut tcbs);
    assert_eq!(tcbs[0].state, ThreadState::Inactive);
    assert_eq!(tcbs[0].reply_to, None);
    assert_eq!(tcbs[1].caller, None);
}

/// The run path picks the earliest ready entry, falls back to the idle
/// task with an empty ready set, and reports nothing to run without one.
#[test]
fn scheduler_run_and_idle() {
    let mut sched = Scheduler::new();
    assert_eq!(sched.run(), None);

    sched.idle = Some(TaskId(9));
    assert_eq!(sched.run(), Some(TaskId(9)));
    assert_eq!(sched.current, None);

    sched.enqueue(DeadlineEntry { deadline: 5, task_id: TaskId(1) }).unwrap();
    sched.enqueue(DeadlineEntry { deadline: 3, task_id: TaskId(2) }).unwrap();
    assert_eq!(sched.run(), Some(TaskId(2)));
    assert_eq!(sched.current, Some(DeadlineEntry { deadline: 3, task_id: TaskId(2) }));
}

/// Each reachable error path reports its own variant.
#[test]
fn error_paths() {
    // Replying without an installed reply capability.
    let mut tcbs = vec![Tcb::new()];
    assert_eq!(reply_ipc(0, &mut tcbs), Err(SysError::InvalidOperation));

    // Mapping through a missing intermediate table.
    let mut vs = VSpaceObj::new(0x1000);
    let attr = VMAttributes::default();
    assert_eq!(vs.map_4k(0x40_0000, 0x20_0000, attr), Err(VSpaceError::MissingTable));

    // Claiming a table page that is already a table.
    assert_eq!(vs.install_table(0x40_0000, 3, 0x1000), Err(VSpaceError::AllocationFailed));
    assert_eq!(vs.install_table(0x40_0000, 3, 0x1001), Err(VSpaceError::MisalignedPAddr));
    assert_eq!(vs.install_table(0x40_0000, 4, 0x2000), Err(VSpaceError::InvalidVAddr));

    // Mapping an unaligned 4 KiB frame.
    assert_eq!(vs.map_4k(0x40_0100, 0x20_0000, attr), Err(VSpaceError::MisalignedVAddr));
    assert_eq!(vs.map_4k(0x40_0000, 0x20_0100, attr), Err(VSpaceError::MisalignedPAddr));

    // A VSpace error folds into the system-wide taxonomy.
    assert_eq!(SysError::from(VSpaceError::AlreadyMapped), SysError::FrameAlreadyMapped);
    assert_eq!(SysError::from(VSpaceError::NotMapped), SysError::LookupError);
    assert_eq!(SysError::from(VSpaceError::AllocationFailed), SysError::OutOfMemory);
}
