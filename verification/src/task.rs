//! The per-task record the scheduler's registry keeps, and the snapshot of it
//! that the `task_info` syscall exposes to user space.

use crate::config::MAX_SYSCALL_NUM;
use crate::error::SysError;
use crate::time::TimeVal;
use vstd::arithmetic::div_mod::lemma_div_is_ordered;
use vstd::prelude::*;

verus! {

/// Execution state of a task as the scheduler tracks it.
#[derive(Clone, Copy, Debug, PartialEq, Eq, Structural)]
pub enum TaskStatus {
    UnInit,
    Ready,
    Running,
    Exited,
}

/// The registry-owned record of one task: its status, one invocation counter
/// per syscall number, and the timestamp of its first dispatch onto a CPU.
/// The syscall layer reads this record and bumps counters through
/// [`TaskControl::record_syscall`]; it never rebuilds or caches it.
pub struct TaskControl {
    pub status: TaskStatus,
    pub syscall_times: Vec<u32>,
    pub first_sched: TimeVal,
}

/// The fixed-layout snapshot written into user memory by the `task_info`
/// syscall: status, the full counter table, and milliseconds elapsed since
/// the task was first scheduled.
#[derive(Clone, Debug)]
pub struct TaskInfo {
    pub status: TaskStatus,
    pub syscall_times: Vec<u32>,
    pub time: usize,
}

/// A counter after one more invocation: one higher, held at the top of the
/// counter's range rather than wrapping.
pub open spec fn bumped(c: u32) -> u32 {
    if c < u32::MAX {
        (c + 1) as u32
    } else {
        c
    }
}

impl TaskControl {
    /// Well-formed: a counter exists for every syscall number, and the
    /// first-scheduled timestamp fits in a machine word of microseconds.
    pub open spec fn wf(self) -> bool {
        &&& self.syscall_times@.len() == MAX_SYSCALL_NUM
        &&& self.first_sched.total_us() <= usize::MAX
    }

    /// Milliseconds between the task's first dispatch and the clock reading
    /// `now_us`.
    pub open spec fn spec_elapsed_ms(self, now_us: int) -> int {
        (now_us - self.first_sched.total_us()) / 1000
    }

    /// The counter table after one more invocation of syscall `id`.
    pub open spec fn counts_after(self, id: int) -> Seq<u32> {
        self.syscall_times@.update(id, bumped(self.syscall_times@[id]))
    }

    /// A fresh record for a task first scheduled at `first_sched`, currently
    /// running, with every syscall counter at zero.
    pub fn new(first_sched: TimeVal) -> (r: TaskControl)
        requires
            first_sched.total_us() <= usize::MAX,
        ensures
            r.wf(),
            r.status == TaskStatus::Running,
            r.first_sched == first_sched,
            forall|i: int| 0 <= i < MAX_SYSCALL_NUM ==> r.syscall_times@[i] == 0u32,
    {
        let mut counts: Vec<u32> = Vec::new();
        let mut i: usize = 0;
        while i < MAX_SYSCALL_NUM
            invariant
                i <= MAX_SYSCALL_NUM,
                counts@.len() == i,
                forall|j: int| 0 <= j < i ==> counts@[j] == 0u32,
            decreases MAX_SYSCALL_NUM - i,
        {
            counts.push(0);
            i += 1;
        }
        TaskControl { status: TaskStatus::Running, syscall_times: counts, first_sched }
    }

    /// Registers one invocation of syscall `id`, exactly as the registry does
    /// before dispatching a handler. An out-of-range number is refused and
    /// changes nothing; the table index is checked even though the dispatcher
    /// normally controls the number.
    pub fn record_syscall(&mut self, id: usize) -> (r: Result<(), SysError>)
        requires
            old(self).wf(),
        ensures
            final(self).wf(),
            final(self).status == old(self).status,
            final(self).first_sched == old(self).first_sched,
            id < MAX_SYSCALL_NUM ==> r == Ok::<(), SysError>(()) && final(self).syscall_times@
                == old(self).counts_after(id as int),
            id >= MAX_SYSCALL_NUM ==> r == Err::<(), SysError>(SysError::InvalidArgument)
                && final(self).syscall_times@ == old(self).syscall_times@,
    {
        if id >= MAX_SYSCALL_NUM {
            return Err(SysError::InvalidArgument);
        }
        let c = self.syscall_times[id];
        if c < u32::MAX {
            self.syscall_times.set(id, c + 1);
        } else {
            proof {
                assert(self.syscall_times@ =~= old(self).counts_after(id as int));
            }
        }
        Ok(())
    }

    /// Elapsed milliseconds since first dispatch, computed from a live clock
    /// reading. The clock never runs behind the first dispatch, so the
    /// subtraction cannot underflow.
    pub fn elapsed_ms(&self, now_us: usize) -> (r: usize)
        requires
            self.wf(),
            now_us >= self.first_sched.total_us(),
        ensures
            r == self.spec_elapsed_ms(now_us as int),
    {
        let first_us = self.first_sched.total_micros();
        (now_us - first_us) / 1000
    }
}

/// Law: reading task info twice in succession, with the clock not running
/// backwards, reports non-decreasing elapsed time.
pub proof fn lemma_elapsed_ms_monotonic(t: TaskControl, now1: int, now2: int)
    requires
        t.first_sched.total_us() <= now1 <= now2,
    ensures
        t.spec_elapsed_ms(now1) <= t.spec_elapsed_ms(now2),
{
    lemma_div_is_ordered(now1 - t.first_sched.total_us(), now2 - t.first_sched.total_us(), 1000);
}

/// Law: an intervening syscall changes exactly its own counter, by exactly
/// one; every other counter reads the same on the next `task_info`.
pub proof fn lemma_syscall_count_step(t: TaskControl, id: int)
    requires
        t.wf(),
        0 <= id < MAX_SYSCALL_NUM,
        t.syscall_times@[id] < u32::MAX,
    ensures
        t.counts_after(id).len() == t.syscall_times@.len(),
        t.counts_after(id)[id] == t.syscall_times@[id] + 1,
        forall|j: int|
            0 <= j < MAX_SYSCALL_NUM && j != id ==> t.counts_after(id)[j] == t.syscall_times@[j],
{
}

} // verus!
