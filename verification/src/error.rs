//! Kernel error taxonomy.
//!
//! Every operation of the kernel core returns a result in this taxonomy;
//! the numeric codes are stable and are what a syscall returns in RAX.

use vstd::prelude::*;

verus! {

/// System-wide error code.  The numeric value of each variant (see
/// [`SysError::as_code`]) is part of the syscall ABI and never changes.
#[derive(Debug, Clone, Copy, PartialEq, Eq, Structural)]
pub enum SysError {
    NoError,
    CSpaceNotFound,
    CapabilityTypeError,
    LookupError,
    UnableToDerive,
    SlotNotEmpty,
    SlotEmpty,
    UnsupportedSyscallOp,
    VSpaceCapMapped,
    VSpaceCapNotMapped,
    VSpaceTableMiss,
    VSpaceSlotOccupied,
    VSpacePermissionError,
    InvalidValue,
    SizeTooSmall,
    OutOfMemory,
    FrameAlreadyMapped,
    FrameNotMapped,
    InvalidOperation,
    AlignmentError,
    RangeError,
    RevokeFailed,
    DeleteFailed,
}

impl SysError {
    /// The stable numeric code of this error.
    pub open spec fn spec_code(self) -> usize {
        match self {
            SysError::NoError => 0,
            SysError::CSpaceNotFound => 1,
            SysError::CapabilityTypeError => 2,
            SysError::LookupError => 3,
            SysError::UnableToDerive => 4,
            SysError::SlotNotEmpty => 5,
            SysError::SlotEmpty => 6,
            SysError::UnsupportedSyscallOp => 7,
            SysError::VSpaceCapMapped => 8,
            SysError::VSpaceCapNotMapped => 9,
            SysError::VSpaceTableMiss => 10,
            SysError::VSpaceSlotOccupied => 11,
            SysError::VSpacePermissionError => 12,
            SysError::InvalidValue => 13,
            SysError::SizeTooSmall => 14,
            SysError::OutOfMemory => 15,
            SysError::FrameAlreadyMapped => 16,
            SysError::FrameNotMapped => 17,
            SysError::InvalidOperation => 18,
            SysError::AlignmentError => 19,
            SysError::RangeError => 20,
            SysError::RevokeFailed => 21,
            SysError::DeleteFailed => 22,
        }
    }

    /// Convert error to numeric code for syscall return.
    pub fn as_code(self) -> (r: usize)
        ensures
            r == self.spec_code(),
    {
        match self {
            SysError::NoError => 0,
            SysError::CSpaceNotFound => 1,
            SysError::CapabilityTypeError => 2,
            SysError::LookupError => 3,
            SysError::UnableToDerive => 4,
            SysError::SlotNotEmpty => 5,
            SysError::SlotEmpty => 6,
            SysError::UnsupportedSyscallOp => 7,
            SysError::VSpaceCapMapped => 8,
            SysError::VSpaceCapNotMapped => 9,
            SysError::VSpaceTableMiss => 10,
            SysError::VSpaceSlotOccupied => 11,
            SysError::VSpacePermissionError => 12,
            SysError::InvalidValue => 13,
            SysError::SizeTooSmall => 14,
            SysError::OutOfMemory => 15,
            SysError::FrameAlreadyMapped => 16,
            SysError::FrameNotMapped => 17,
            SysError::InvalidOperation => 18,
            SysError::AlignmentError => 19,
            SysError::RangeError => 20,
            SysError::RevokeFailed => 21,
            SysError::DeleteFailed => 22,
        }
    }

    /// Check if this represents success.
    pub fn is_ok(self) -> (r: bool)
        ensures
            r == (self == SysError::NoError),
    {
        matches!(self, SysError::NoError)
    }
}

/// Result of walking the page tables for one virtual address.
#[derive(Debug, Clone, Copy, PartialEq, Eq, Structural)]
pub enum WalkResult {
    /// Found a mapped page at the given level.
    MappedPage { paddr: u64, size: crate::frame::FrameSize, level: u64 },
    /// Found an unmapped (not present) entry.
    NotMapped { level: u64 },
    /// Found a table entry pointing to next level.
    Table { paddr: u64, level: u64 },
}

/// Error during page table operations.
#[derive(Debug, Clone, Copy, PartialEq, Eq, Structural)]
pub enum VSpaceError {
    /// Virtual address is not canonical.
    InvalidVAddr,
    /// Physical address is not properly aligned.
    MisalignedPAddr,
    /// Virtual address is not aligned to page size.
    MisalignedVAddr,
    /// Entry already exists at this location.
    AlreadyMapped,
    /// No mapping exists at this location.
    NotMapped,
    /// Missing intermediate page table.
    MissingTable,
    /// Frame size not supported at this level.
    UnsupportedPageSize,
    /// Invalid ASID.
    InvalidAsid,
    /// Failed to allocate page table.
    AllocationFailed,
}

/// How a [`VSpaceError`] is reported through the system-wide taxonomy.
pub open spec fn sys_error_of_vspace_error(e: VSpaceError) -> SysError {
    match e {
        VSpaceError::InvalidVAddr => SysError::InvalidValue,
        VSpaceError::MisalignedPAddr => SysError::InvalidValue,
        VSpaceError::MisalignedVAddr => SysError::InvalidValue,
        VSpaceError::AlreadyMapped => SysError::FrameAlreadyMapped,
        VSpaceError::NotMapped => SysError::LookupError,
        VSpaceError::MissingTable => SysError::LookupError,
        VSpaceError::UnsupportedPageSize => SysError::InvalidValue,
        VSpaceError::InvalidAsid => SysError::InvalidValue,
        VSpaceError::AllocationFailed => SysError::OutOfMemory,
    }
}

impl From<VSpaceError> for SysError {
    fn from(e: VSpaceError) -> (r: SysError) {
        match e {
            VSpaceError::InvalidVAddr => SysError::InvalidValue,
            VSpaceError::MisalignedPAddr => SysError::InvalidValue,
            VSpaceError::MisalignedVAddr => SysError::InvalidValue,
            VSpaceError::AlreadyMapped => SysError::FrameAlreadyMapped,
            VSpaceError::NotMapped => SysError::LookupError,
            VSpaceError::MissingTable => SysError::LookupError,
            VSpaceError::UnsupportedPageSize => SysError::InvalidValue,
            VSpaceError::InvalidAsid => SysError::InvalidValue,
            VSpaceError::AllocationFailed => SysError::OutOfMemory,
        }
    }
}

impl vstd::std_specs::convert::FromSpecImpl<VSpaceError> for SysError {
    open spec fn obeys_from_spec() -> bool {
        true
    }

    open spec fn from_spec(e: VSpaceError) -> SysError {
        sys_error_of_vspace_error(e)
    }
}

} // verus!
