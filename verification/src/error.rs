//! Why a syscall was refused.

use vstd::prelude::*;

verus! {

/// Classification of every failure a handler can report. User space only ever
/// sees the negative return word; the variant records which validation rule
/// fired.
#[derive(Clone, Copy, Debug, PartialEq, Eq, Structural)]
pub enum SysError {
    /// A user pointer was unmapped, mapped without the needed permission,
    /// presented under the wrong address-space token, or the access would
    /// cross a page boundary.
    AddressFault,
    /// A request was malformed in shape: unaligned start address, unknown
    /// permission bits, or a byte range that wraps the address space.
    InvalidArgument,
    /// The syscall is a deliberate stub in this configuration.
    Unimplemented,
    /// The requested region overlaps an existing mapping, is not fully
    /// mapped, or no physical frames are left to back it.
    ResourceConflict,
}

impl SysError {
    /// The signed word written back to the faulting task: every failure
    /// surfaces uniformly as `-1`; the variants are kernel-side bookkeeping.
    pub fn code(&self) -> (r: isize)
        ensures
            r == -1,
    {
        -1
    }
}

} // verus!
