//! Thread control blocks.
//!
//! A TCB holds the saved user register image (trap frame), the thread
//! state, the scheduling context, the capability roots, the IPC staging
//! fields used by a blocked sender, the endpoint a blocked thread waits
//! on, and the one-shot reply relationship installed by a call.  TCBs
//! live in an index-addressed pool; a TCB's index stands in for its
//! memory address.

use vstd::prelude::*;

use crate::capability::{CapRaw, ObjType};
use crate::cnode::CNodeEntry;
use crate::cspace::CSpace;
use crate::error::SysError;

verus! {

/// Number of general registers saved in a trap frame.
pub const REGISTERS_SIZE: usize = 15;

/// Message register 1: RDI.
pub const MR1: usize = 5;

/// Message register 2: RSI.
pub const MR2: usize = 4;

/// Message register 3: R10.
pub const MR3: usize = 9;

/// Message register 4: R8.
pub const MR4: usize = 7;

/// Message register 5: R9.
pub const MR5: usize = 8;

/// Message register 6: R15.
pub const MR6: usize = 14;

/// Saved user register image, restored on return from kernel to user.
#[derive(Debug, Clone)]
pub struct TrapFrame {
    /// Registers in order: rax, rbx, rcx, rdx, rsi, rdi, rbp, r8-r15.
    pub registers: Vec<u64>,
    /// Error code (pushed by CPU or by stub).
    pub error_code: u64,
    /// Saved instruction pointer.
    pub rip: u64,
    /// Saved code segment.
    pub cs: u64,
    /// Saved CPU flags.
    pub rflags: u64,
    /// Saved stack pointer.
    pub rsp: u64,
    /// Saved stack segment.
    pub ss: u64,
}

impl TrapFrame {
    /// The register file has its fixed size.
    pub open spec fn wf(self) -> bool {
        self.registers@.len() == REGISTERS_SIZE
    }

    /// Create an empty [`TrapFrame`].
    pub fn new() -> (r: Self)
        ensures
            r.wf(),
            forall|i: int| 0 <= i < REGISTERS_SIZE ==> r.registers@[i] == 0,
            r.error_code == 0 && r.rip == 0 && r.cs == 0 && r.rflags == 0 && r.rsp == 0 && r.ss
                == 0,
    {
        let mut registers: Vec<u64> = Vec::new();
        let mut k: usize = 0;
        while k < REGISTERS_SIZE
            invariant
                k <= REGISTERS_SIZE,
                registers@.len() == k,
                forall|i: int| 0 <= i < k ==> registers@[i] == 0,
            decreases REGISTERS_SIZE - k,
        {
            registers.push(0);
            k = k + 1;
        }
        Self { registers, error_code: 0, rip: 0, cs: 0, rflags: 0, rsp: 0, ss: 0 }
    }

    /// Read a saved register by index.
    pub fn get_mr(&self, idx: usize) -> (r: u64)
        requires
            self.wf(),
            idx < REGISTERS_SIZE,
        ensures
            r == self.registers@[idx as int],
    {
        self.registers[idx]
    }

    /// Set a saved register by index; index 0 (RAX) carries the syscall
    /// return value and is written by the syscall path itself.
    pub fn set_mr(&mut self, idx: usize, mr: u64)
        requires
            old(self).wf(),
            0 < idx < REGISTERS_SIZE,
        ensures
            final(self).wf(),
            final(self).registers@ == old(self).registers@.update(idx as int, mr),
            final(self).error_code == old(self).error_code,
            final(self).rip == old(self).rip,
            final(self).cs == old(self).cs,
            final(self).rflags == old(self).rflags,
            final(self).rsp == old(self).rsp,
            final(self).ss == old(self).ss,
    {
        self.registers.set(idx, mr);
    }
}

/// Thread state.
#[derive(Debug, Clone, Copy, PartialEq, Eq, Structural)]
pub enum ThreadState {
    Inactive,
    Ready,
    Running,
    Restart,
    BlockedOnReceive,
    BlockedOnSend,
    BlockedOnReply,
    BlockedOnNotification,
    Idle,
}

impl Default for ThreadState {
    fn default() -> (r: Self)
        ensures
            r == ThreadState::Inactive,
    {
        ThreadState::Inactive
    }
}

/// A fault a thread may be blocked on.
#[derive(Debug, Clone, Copy, PartialEq, Eq, Structural)]
pub enum Fault {
    Cap { address: u64, in_receive_phase: bool },
    UnknownSyscall { syscall_number: u64 },
    UserException { number: u64, code: u64 },
    Timeout { badge: u64 },
    DebugException { exception_reason: u64, breakpoint_address: u64, breakpoint_number: u64 },
    Unknown { fault_type_raw: u64 },
}

/// Fault information reflected to a fault handler.
#[derive(Debug, Clone, Copy, PartialEq, Eq, Structural)]
pub enum FaultInfo {
    PageFault { addr: u64 },
    SyscallFault { syscall: u64 },
}

/// Scheduling context: the deadline drives the EDF queue.
#[derive(Debug, Clone, Copy, PartialEq, Eq, Structural)]
pub struct SchedContext {
    /// Controls rate at which budget is replenished.
    pub ticks: u64,
    /// Ticks consumed since the last replenishment or timeout.
    pub ticks_consumed: u64,
    /// Absolute deadline for EDF.
    pub deadline: u64,
}

/// IPC staging fields stashed in a blocked sender's TCB.
#[derive(Debug, Clone, Copy, PartialEq, Eq, Structural)]
pub struct IpcState {
    pub badge: u64,
    pub can_grant: bool,
    pub can_grant_reply: bool,
    pub is_call: bool,
}

impl IpcState {
    /// Staging fields of a thread that is not sending.
    pub fn empty() -> (r: Self)
        ensures
            r == (IpcState { badge: 0, can_grant: false, can_grant_reply: false, is_call: false }),
    {
        Self { badge: 0, can_grant: false, can_grant_reply: false, is_call: false }
    }
}

/// Thread control block.
#[derive(Debug, Clone)]
pub struct Tcb {
    /// Arch specific state, including the saved user context.
    pub context: TrapFrame,
    /// Notification object this TCB is bound to, if any.
    pub notification: u64,
    /// Current fault.
    pub fault: Option<Fault>,
    /// Slot holding the fault-handler endpoint capability.
    pub fault_ep: CNodeEntry,
    /// Scheduling context; a TCB without one cannot be enqueued.
    pub sched_context: Option<SchedContext>,
    /// Slot holding the IPC buffer frame capability.
    pub ipc_buffer: CNodeEntry,
    /// Arena index of the slot holding the root CNode capability.
    pub cspace_root: CNodeEntry,
    /// Slot holding the VSpace root capability.
    pub vspace_root: CNodeEntry,
    /// Thread state.
    pub state: ThreadState,
    /// IPC staging fields of a blocked send.
    pub ipc_state: IpcState,
    /// Index of the endpoint this thread is blocked on, if any.
    pub blocking_object: Option<usize>,
    /// Callee this thread waits on for a reply (set while BlockedOnReply).
    pub reply_to: Option<usize>,
    /// Caller to reply to, installed by a call (one-shot).
    pub caller: Option<usize>,
}

impl Tcb {
    /// The embedded register file is well-formed.
    pub open spec fn wf(self) -> bool {
        self.context.wf()
    }

    /// Create a new [`Tcb`].
    pub fn new() -> (r: Self)
        ensures
            r.wf(),
            r.state == ThreadState::Running,
            r.sched_context is None,
            r.blocking_object is None,
            r.reply_to is None,
            r.caller is None,
            r.ipc_state == (IpcState {
                badge: 0,
                can_grant: false,
                can_grant_reply: false,
                is_call: false,
            }),
            r.fault is None,
    {
        Self {
            context: TrapFrame::new(),
            notification: 0,
            fault: None,
            fault_ep: CNodeEntry::new(),
            sched_context: None,
            ipc_buffer: CNodeEntry::new(),
            cspace_root: CNodeEntry::new(),
            vspace_root: CNodeEntry::new(),
            state: ThreadState::Running,
            ipc_state: IpcState::empty(),
            blocking_object: None,
            reply_to: None,
            caller: None,
        }
    }

    /// Extract the [`CSpace`] rooted at this thread's CNode capability.
    pub fn cspace(&self) -> (r: Result<CSpace, SysError>)
        ensures
            match r {
                Ok(c) => self.cspace_root@.cap_type == ObjType::CNode && c.root == self.cspace_root@,
                Err(e) => e == SysError::CSpaceNotFound && self.cspace_root@.cap_type
                    != ObjType::CNode,
            },
    {
        CSpace::new(&self.cspace_root)
    }

    /// Read a message register.
    pub fn get_mr(&self, idx: usize) -> (r: u64)
        requires
            self.wf(),
            idx < REGISTERS_SIZE,
        ensures
            r == self.context.registers@[idx as int],
    {
        self.context.get_mr(idx)
    }

    /// Write a message register.
    pub fn set_mr(&mut self, idx: usize, mr: u64)
        requires
            old(self).wf(),
            0 < idx < REGISTERS_SIZE,
        ensures
            final(self).wf(),
            final(self).context.registers@ == old(self).context.registers@.update(idx as int, mr),
            *final(self) == (Tcb { context: final(self).context, ..*old(self) }),
            final(self).context == (TrapFrame {
                registers: final(self).context.registers,
                ..old(self).context
            }),
    {
        self.context.set_mr(idx, mr)
    }
}

/// A typed view of a TCB capability record.
#[derive(Debug, Clone, Copy)]
pub struct TcbCap {
    pub cap: CapRaw,
}

impl TcbCap {
    /// The capability record is well-formed for this type.
    pub open spec fn wf(self) -> bool {
        self.cap.cap_type == ObjType::Tcb
    }

    /// Create a TCB capability for the object at `paddr`.
    pub fn mint(paddr: u64) -> (r: CapRaw)
        ensures
            r.cap_type == ObjType::Tcb,
            r.paddr == paddr,
            r.arg1 == 0 && r.arg2 == 0,
            r.mdb_prev is None,
            r.mdb_next is None,
    {
        let mut capraw = CapRaw::default_with_type(ObjType::Tcb);
        capraw.paddr = paddr;
        capraw
    }

    /// Describe this capability in the caller's message registers.
    pub fn identify(&self, tcb: &mut Tcb) -> (r: u64)
        requires
            old(tcb).wf(),
        ensures
            r == 1,
            final(tcb).wf(),
            final(tcb).context.registers@ == old(tcb).context.registers@.update(
                MR1 as int,
                ObjType::Tcb.spec_code(),
            ),
    {
        tcb.set_mr(MR1, ObjType::Tcb.code());
        1
    }
}

} // verus!
