//! Syscall numbering and entry validation.
//!
//! The syscall number arrives in RAX and six argument registers follow
//! (RDI, RSI, RDX, R10, R8, R9); the return travels back in RAX with 0
//! for success.  This module decodes the number and validates the
//! argument count; the operations themselves live with the objects they
//! act on.

use vstd::prelude::*;

verus! {

/// The syscall numbers of the kernel's ABI.
#[derive(Debug, Clone, Copy, PartialEq, Eq, Structural)]
pub enum Syscall {
    AttachIrq,
    CreateTask,
    RemoveTask,
    TaskSleep,
    MapMemory,
    UnmapMemory,
    GrantMemory,
    Send,
    Receive,
    IpcCall,
    Invalid(u8),
}

impl Syscall {
    /// The syscall selected by a raw RAX value; unknown numbers decode
    /// to `Invalid` with their low byte.
    pub open spec fn spec_decode(value: u64) -> Syscall {
        if value == 0 {
            Syscall::AttachIrq
        } else if value == 1 {
            Syscall::CreateTask
        } else if value == 2 {
            Syscall::RemoveTask
        } else if value == 3 {
            Syscall::TaskSleep
        } else if value == 10 {
            Syscall::MapMemory
        } else if value == 11 {
            Syscall::UnmapMemory
        } else if value == 12 {
            Syscall::GrantMemory
        } else if value == 20 {
            Syscall::Send
        } else if value == 21 {
            Syscall::Receive
        } else if value == 22 {
            Syscall::IpcCall
        } else {
            Syscall::Invalid(value as u8)
        }
    }
}

impl From<u64> for Syscall {
    fn from(value: u64) -> (r: Syscall) {
        if value == 0 {
            Syscall::AttachIrq
        } else if value == 1 {
            Syscall::CreateTask
        } else if value == 2 {
            Syscall::RemoveTask
        } else if value == 3 {
            Syscall::TaskSleep
        } else if value == 10 {
            Syscall::MapMemory
        } else if value == 11 {
            Syscall::UnmapMemory
        } else if value == 12 {
            Syscall::GrantMemory
        } else if value == 20 {
            Syscall::Send
        } else if value == 21 {
            Syscall::Receive
        } else if value == 22 {
            Syscall::IpcCall
        } else {
            Syscall::Invalid(value as u8)
        }
    }
}

impl vstd::std_specs::convert::FromSpecImpl<u64> for Syscall {
    open spec fn obeys_from_spec() -> bool {
        true
    }

    open spec fn from_spec(value: u64) -> Syscall {
        Syscall::spec_decode(value)
    }
}

/// Validation error of the syscall entry path.
#[derive(Debug, Clone, Copy, PartialEq, Eq, Structural)]
pub enum SysError {
    InvalidValue,
    UnknownSyscall(u8),
}

/// Number of argument registers each syscall consumes.
pub open spec fn spec_args_needed(id: Syscall) -> int {
    match id {
        Syscall::AttachIrq => 2,
        Syscall::CreateTask => 3,
        Syscall::RemoveTask => 1,
        Syscall::TaskSleep => 0,
        Syscall::MapMemory => 2,
        Syscall::UnmapMemory => 1,
        Syscall::GrantMemory => 3,
        Syscall::Send => 3,
        Syscall::Receive => 2,
        Syscall::IpcCall => 3,
        Syscall::Invalid(_) => 0,
    }
}

/// What entry validation decides for a raw syscall number and its
/// argument registers.
pub open spec fn spec_handler(value: u64, n_args: int) -> Result<Syscall, SysError> {
    let id = Syscall::spec_decode(value);
    match id {
        Syscall::Invalid(b) => Err(SysError::UnknownSyscall(b)),
        _ => if n_args < spec_args_needed(id) {
            Err(SysError::InvalidValue)
        } else {
            Ok(id)
        },
    }
}

/// Handle an inbound syscall: decode the number and check that enough
/// argument registers were supplied, returning the operation to
/// dispatch.  Unknown numbers are rejected with their low byte.
pub fn handler(value: u64, args: &Vec<u64>) -> (r: Result<Syscall, SysError>)
    ensures
        r == spec_handler(value, args@.len() as int),
{
    let id = Syscall::from(value);
    let needed: usize = match id {
        Syscall::AttachIrq => 2,
        Syscall::CreateTask => 3,
        Syscall::RemoveTask => 1,
        Syscall::TaskSleep => 0,
        Syscall::MapMemory => 2,
        Syscall::UnmapMemory => 1,
        Syscall::GrantMemory => 3,
        Syscall::Send => 3,
        Syscall::Receive => 2,
        Syscall::IpcCall => 3,
        Syscall::Invalid(b) => {
            return Err(SysError::UnknownSyscall(b));
        },
    };
    if args.len() < needed {
        return Err(SysError::InvalidValue);
    }
    Ok(id)
}

} // verus!
