//! Process-control syscall layer of a small teaching kernel.
//!
//! This crate models the boundary between untrusted user-mode tasks and the
//! kernel: raw syscall arguments arrive here, user-supplied virtual addresses
//! are validated and translated against the calling task's page tables, and
//! requests are either answered directly (yield, set-priority) or turned into
//! a validated effect for the surrounding runtime to carry out (a write into
//! user memory, a directive to the scheduler).
//!
//! The page-table bookkeeping, the task registry and the handlers themselves
//! are verified; the clock and the scheduler stay outside: handlers take the
//! current clock reading as an argument and hand scheduling decisions back as
//! values.

pub mod config;
pub mod error;
pub mod mem;
pub mod process;
pub mod task;
pub mod time;
