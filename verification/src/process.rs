//! Process-control syscall handlers.
//!
//! Each handler validates its raw arguments, translates any user pointer
//! through the current task's address-space token as the last step before
//! the write would happen, and returns the signed result word of the syscall
//! ABI: `0` or positive on success, negative on failure. Effects the kernel
//! proper must carry out — the actual store into user memory, the transfer
//! of control to the scheduler — are returned as values, so the control flow
//! of the dispatcher stays total even for `exit`.
//!
//! The clock is an external collaborator: handlers that need the time take
//! the current microsecond reading as an argument.

use crate::config::{MAX_SYSCALL_NUM, TASK_INFO_BYTES, TIME_VAL_BYTES};
use crate::error::SysError;
use crate::mem::{
    mmap_check_s, munmap_check_s, next_after_mmap_s, pages_after_mmap_s, pages_after_munmap_s,
    spec_kaddr, translate_ok, MemorySet,
};
use crate::task::{TaskControl, TaskInfo, TaskStatus};
use crate::time::TimeVal;
use vstd::prelude::*;

verus! {

/// What the dispatcher asks of the scheduler after a handler ran: hand the
/// CPU on with the task kept runnable, or retire the task for good with its
/// exit code. Modelling the non-returning `exit` as a value keeps every
/// handler a total function.
#[derive(Clone, Copy, Debug, PartialEq, Eq, Structural)]
pub enum SchedulerRequest {
    SuspendAndRunNext,
    ExitAndRunNext(i32),
}

/// A pending store of a `TimeVal` into user memory, at an already translated
/// kernel-usable address. The kernel proper performs the store.
#[derive(Clone, Copy, Debug, PartialEq, Eq, Structural)]
pub struct TimeWrite {
    pub kaddr: usize,
    pub value: TimeVal,
}

/// A pending store of a `TaskInfo` record into user memory, at an already
/// translated kernel-usable address.
#[derive(Clone, Debug)]
pub struct InfoWrite {
    pub kaddr: usize,
    pub value: TaskInfo,
}

/// The kernel state the syscall layer acts on: the current task's address
/// space and its registry record. The layer is entered with exclusive access
/// to both for the duration of one syscall.
pub struct Kernel {
    pub mem: MemorySet,
    pub task: TaskControl,
}

impl Kernel {
    /// Well-formed kernel state for a syscall: sound page tables, a full
    /// counter table, and a current task that is actually running.
    pub open spec fn wf(self) -> bool {
        &&& self.mem.wf()
        &&& self.task.wf()
        &&& self.task.status == TaskStatus::Running
    }

    /// Kernel state at the first syscall of a fresh task: empty address
    /// space under `token`, zeroed counters, first scheduled at
    /// `first_sched`.
    pub fn new(token: usize, first_sched: TimeVal) -> (r: Kernel)
        requires
            first_sched.total_us() <= usize::MAX,
        ensures
            r.wf(),
            r.mem.token == token,
            r.mem.pages@.len() == 0,
            r.mem.next_ppn == 0,
            r.task.first_sched == first_sched,
            forall|i: int| 0 <= i < MAX_SYSCALL_NUM ==> r.task.syscall_times@[i] == 0u32,
    {
        Kernel { mem: MemorySet::new(token), task: TaskControl::new(first_sched) }
    }

    /// The address-space token of the current task, captured at syscall
    /// entry and used for every translation within the handler.
    pub fn current_user_token(&self) -> (r: usize)
        ensures
            r == self.mem.token,
    {
        self.mem.token
    }
}

/// An element-wise copy of a counter table.
fn copy_counts(counts: &Vec<u32>) -> (r: Vec<u32>)
    ensures
        r@ == counts@,
{
    let mut r: Vec<u32> = Vec::new();
    let mut i: usize = 0;
    while i < counts.len()
        invariant
            i <= counts@.len(),
            r@ == counts@.take(i as int),
        decreases counts@.len() - i,
    {
        r.push(counts[i]);
        proof {
            assert(r@ =~= counts@.take(i as int + 1));
        }
        i += 1;
    }
    proof {
        assert(counts@.take(counts@.len() as int) =~= counts@);
    }
    r
}

/// Terminates the current task: its status becomes `Exited`, its resources
/// are left for the scheduler to release, and the returned request tells the
/// scheduler to run the next task with the given exit code on record.
/// Control never returns to the calling task.
pub fn sys_exit(k: &mut Kernel, exit_code: i32) -> (r: SchedulerRequest)
    requires
        old(k).wf(),
    ensures
        r == SchedulerRequest::ExitAndRunNext(exit_code),
        final(k).task.status == TaskStatus::Exited,
        final(k).mem == old(k).mem,
        final(k).task.syscall_times == old(k).task.syscall_times,
        final(k).task.first_sched == old(k).task.first_sched,
{
    k.task.status = TaskStatus::Exited;
    SchedulerRequest::ExitAndRunNext(exit_code)
}

/// Cooperatively gives up the remaining time slice: the current task goes
/// back into the ready set and the scheduler picks the next runnable task.
/// The result word is always `0`, the task's state is untouched, and in
/// particular the task is never terminated by yielding.
pub fn sys_yield(k: &mut Kernel) -> (r: (isize, SchedulerRequest))
    requires
        old(k).wf(),
    ensures
        r.0 == 0,
        r.1 == SchedulerRequest::SuspendAndRunNext,
        *final(k) == *old(k),
        final(k).wf(),
{
    (0, SchedulerRequest::SuspendAndRunNext)
}

/// Reads the clock and prepares the `TimeVal` store into user memory at
/// `ts`, the user pointer. The timezone argument is reserved: any value is
/// accepted and ignored. The pointer is translated — bound to the current
/// task's token, for a write of the record's full size — as the last step
/// before the store; an unmapped, read-only or page-crossing pointer fails
/// the syscall with no store at all.
pub fn sys_get_time(k: &Kernel, ts: usize, tz: usize, now_us: usize) -> (r: (
    isize,
    Option<TimeWrite>,
))
    requires
        k.wf(),
    ensures
        translate_ok(k.mem.pages@, k.mem.token, k.mem.token, ts, TIME_VAL_BYTES, true) ==> r.0 == 0
            && r.1 == Some(
            TimeWrite {
                kaddr: spec_kaddr(k.mem.pages@, ts) as usize,
                value: TimeVal { sec: now_us / 1_000_000, usec: now_us % 1_000_000 },
            },
        ),
        !translate_ok(k.mem.pages@, k.mem.token, k.mem.token, ts, TIME_VAL_BYTES, true) ==> r.0
            == -1 && r.1 is None,
{
    let token = k.current_user_token();
    match k.mem.translate(token, ts, TIME_VAL_BYTES, true) {
        Ok(kaddr) => (0, Some(TimeWrite { kaddr, value: TimeVal::from_micros(now_us) })),
        Err(e) => (e.code(), None),
    }
}

/// Deliberate stub in this configuration: priorities are not honoured, and
/// every request — negative, zero or large — is answered with `-1`.
pub fn sys_set_priority(prio: isize) -> (r: isize)
    ensures
        r == -1,
{
    let e = SysError::Unimplemented;
    e.code()
}

/// Maps the byte range `[start, start + len)` into the current task's
/// address space with permission bits `port`, after validating the request's
/// shape; the result word is `0` exactly when the request passed every rule,
/// and a failed request leaves the address space unchanged — a mapping is
/// never partially applied.
pub fn sys_mmap(k: &mut Kernel, start: usize, len: usize, port: usize) -> (r: isize)
    requires
        old(k).wf(),
    ensures
        final(k).wf(),
        final(k).task == old(k).task,
        final(k).mem.token == old(k).mem.token,
        final(k).mem.pages@ == pages_after_mmap_s(
            old(k).mem.pages@,
            old(k).mem.next_ppn as int,
            start,
            len,
            port,
        ),
        final(k).mem.next_ppn as int == next_after_mmap_s(
            old(k).mem.pages@,
            old(k).mem.next_ppn as int,
            start,
            len,
            port,
        ),
        r == 0 <==> mmap_check_s(
            old(k).mem.pages@,
            old(k).mem.next_ppn as int,
            start,
            len,
            port,
        ) is None,
        r == 0 || r == -1,
{
    match k.mem.mmap(start, len, port) {
        Ok(()) => 0,
        Err(e) => e.code(),
    }
}

/// Unmaps the byte range `[start, start + len)` from the current task's
/// address space; the result word is `0` exactly when the range was fully
/// mapped (or empty), and a region not fully mapped is refused whole — never
/// partially unmapped.
pub fn sys_munmap(k: &mut Kernel, start: usize, len: usize) -> (r: isize)
    requires
        old(k).wf(),
    ensures
        final(k).wf(),
        final(k).task == old(k).task,
        final(k).mem.token == old(k).mem.token,
        final(k).mem.next_ppn == old(k).mem.next_ppn,
        final(k).mem.pages@ == pages_after_munmap_s(old(k).mem.pages@, start, len),
        r == 0 <==> munmap_check_s(old(k).mem.pages@, start, len) is None,
        r == 0 || r == -1,
{
    match k.mem.munmap(start, len) {
        Ok(()) => 0,
        Err(e) => e.code(),
    }
}

/// Builds the current task's `TaskInfo` snapshot — live status, the full
/// syscall counter table, and milliseconds since the task was first
/// scheduled, recomputed from the live clock — and prepares its store into
/// user memory at `ti`, the user pointer. The pointer is translated, bound
/// to the current task's token for a write of the record's full size, as the
/// last step before the store. The clock never runs behind the first
/// dispatch, which is on record before any syscall can run, so the elapsed
/// time cannot underflow.
pub fn sys_task_info(k: &Kernel, ti: usize, now_us: usize) -> (r: (isize, Option<InfoWrite>))
    requires
        k.wf(),
        now_us >= k.task.first_sched.total_us(),
    ensures
        translate_ok(k.mem.pages@, k.mem.token, k.mem.token, ti, TASK_INFO_BYTES, true) ==> {
            &&& r.0 == 0
            &&& r.1 is Some
            &&& r.1.unwrap().kaddr == spec_kaddr(k.mem.pages@, ti)
            &&& r.1.unwrap().value.status == k.task.status
            &&& r.1.unwrap().value.syscall_times@ == k.task.syscall_times@
            &&& r.1.unwrap().value.time == k.task.spec_elapsed_ms(now_us as int)
        },
        !translate_ok(k.mem.pages@, k.mem.token, k.mem.token, ti, TASK_INFO_BYTES, true) ==> r.0
            == -1 && r.1 is None,
{
    let time = k.task.elapsed_ms(now_us);
    let syscall_times = copy_counts(&k.task.syscall_times);
    let token = k.current_user_token();
    match k.mem.translate(token, ti, TASK_INFO_BYTES, true) {
        Ok(kaddr) => (
            0,
            Some(InfoWrite { kaddr, value: TaskInfo { status: k.task.status, syscall_times, time } }),
        ),
        Err(e) => (e.code(), None),
    }
}

} // verus!
