//! The scheduler's bookkeeping: the process identifiers that it hands out
//! to the machines it starts.

use vstd::prelude::*;

verus! {

/// The counter of process identifiers.
#[derive(Debug)]
pub struct Scheduler {
    pub next_pid: u32,
    pub max_pid: u32,
}

/// The identifier that follows `pid` where identifiers wrap at `max_pid`.
pub open spec fn following_pid(pid: u32, max_pid: u32) -> u32 {
    (pid.wrapping_add(1) % max_pid) as u32
}

impl Scheduler {
    /// A scheduler that has handed out no identifier yet and wraps at the
    /// largest 32-bit number.
    pub fn new() -> (s: Scheduler)
        ensures
            s.next_pid == 0,
            s.max_pid == u32::MAX,
    {
        Scheduler { next_pid: 0, max_pid: u32::MAX }
    }

    /// Hands out the next process identifier: one more than the last,
    /// starting again at zero where `max_pid` is reached.
    pub fn allocate_pid(&mut self) -> (pid: u32)
        requires
            old(self).max_pid > 0,
        ensures
            pid == following_pid(old(self).next_pid, old(self).max_pid),
            pid < old(self).max_pid,
            final(self).next_pid == pid,
            final(self).max_pid == old(self).max_pid,
    {
        self.next_pid = self.next_pid.wrapping_add(1) % self.max_pid;
        self.next_pid
    }
}

impl Default for Scheduler {
    /// A scheduler with both numbers at zero: it can hand out no
    /// identifier.
    fn default() -> (s: Scheduler)
        ensures
            s.next_pid == 0,
            s.max_pid == 0,
    {
        Scheduler { next_pid: 0, max_pid: 0 }
    }
}

} // verus!
