//! Fixed parameters of the kernel configuration.

use vstd::prelude::*;

verus! {

/// Bytes in one page of virtual or physical memory.
pub const PAGE_SIZE: usize = 4096;

/// Highest physical page number the frame allocator may ever hand out;
/// keeps every in-frame byte address representable in a machine word.
pub const MAX_PPN: usize = usize::MAX / PAGE_SIZE;

/// Size of the per-task syscall counter table: counters exist for syscall
/// numbers `0 .. MAX_SYSCALL_NUM`.
pub const MAX_SYSCALL_NUM: usize = 500;

/// Permission bit a mapping needs before the kernel reads through it.
pub const PORT_READ: usize = 0x1;

/// Permission bit a mapping needs before the kernel writes through it.
pub const PORT_WRITE: usize = 0x2;

/// Permission bit marking a mapping executable.
pub const PORT_EXEC: usize = 0x4;

/// All recognized permission bits; a request carrying any other bit is malformed.
pub const PORT_MASK: usize = 0x7;

/// Bytes a `TimeVal` record occupies in user memory: two machine words.
pub const TIME_VAL_BYTES: usize = 16;

/// Bytes a `TaskInfo` record occupies in user memory: a status word, one
/// 32-bit counter per possible syscall number, and a word for the elapsed time.
pub const TASK_INFO_BYTES: usize = 8 + 4 * MAX_SYSCALL_NUM + 8;

/// Syscall number of `exit`.
pub const SYSCALL_EXIT: usize = 93;

/// Syscall number of `yield`.
pub const SYSCALL_YIELD: usize = 124;

/// Syscall number of `set_priority`.
pub const SYSCALL_SET_PRIORITY: usize = 140;

/// Syscall number of `get_time`.
pub const SYSCALL_GET_TIME: usize = 169;

/// Syscall number of `munmap`.
pub const SYSCALL_MUNMAP: usize = 215;

/// Syscall number of `mmap`.
pub const SYSCALL_MMAP: usize = 222;

/// Syscall number of `task_info`.
pub const SYSCALL_TASK_INFO: usize = 410;

} // verus!
