//! Wall-clock style timestamps as the kernel reports them to user space.

use vstd::arithmetic::div_mod::lemma_fundamental_div_mod;
use vstd::prelude::*;

verus! {

/// Microseconds in one second.
pub const MICROS_PER_SEC: usize = 1_000_000;

/// A timestamp split into whole seconds and microseconds. Both fields are
/// independently valid; values produced by [`TimeVal::from_micros`] keep
/// `usec` below one million. The record is created fresh from a clock reading
/// and written once into user memory, never mutated afterwards.
#[derive(Clone, Copy, Debug, PartialEq, Eq, Structural)]
pub struct TimeVal {
    pub sec: usize,
    pub usec: usize,
}

impl TimeVal {
    /// The single microsecond count this timestamp stands for:
    /// `sec * 1_000_000 + usec`, exactly.
    pub open spec fn total_us(self) -> int {
        self.sec * (MICROS_PER_SEC as int) + self.usec
    }

    /// Splits a raw microsecond clock reading into whole seconds and the
    /// microsecond remainder, losing nothing.
    pub fn from_micros(us: usize) -> (r: TimeVal)
        ensures
            r.sec == us / MICROS_PER_SEC,
            r.usec == us % MICROS_PER_SEC,
            r.usec < MICROS_PER_SEC,
            r.total_us() == us,
    {
        proof {
            lemma_fundamental_div_mod(us as int, MICROS_PER_SEC as int);
        }
        TimeVal { sec: us / MICROS_PER_SEC, usec: us % MICROS_PER_SEC }
    }

    /// Exact conversion back to a single microsecond count. The bound in the
    /// precondition is the machine limit: the count must fit in one word, as
    /// it does for every reading the clock can produce over a task's lifetime.
    pub fn total_micros(&self) -> (r: usize)
        requires
            self.total_us() <= usize::MAX,
        ensures
            r == self.total_us(),
    {
        self.sec * MICROS_PER_SEC + self.usec
    }
}

} // verus!
