//! A backend with a scripted outcome: it fails a fixed number of
//! attempts and satisfies every attempt after that. It exercises the
//! decorator's slow path deterministically and without real memory
//! pressure.

use vstd::prelude::*;

use crate::backend::{AllocBackend, Request};

verus! {

/// An allocator backend that fails its first `failures_left` attempts
/// (whatever the request) and answers every later attempt with the
/// address `addr`. Deallocation and pausing do nothing.
pub struct ScriptedBackend {
    /// How many further attempts will still fail.
    pub failures_left: u32,
    /// The address every successful attempt hands out.
    pub addr: usize,
}

impl ScriptedBackend {
    /// A backend whose first `failures` attempts fail and whose later
    /// attempts all return `addr`.
    pub fn new(failures: u32, addr: usize) -> (r: ScriptedBackend)
        ensures
            r.failures_left == failures,
            r.addr == addr,
    {
        ScriptedBackend { failures_left: failures, addr }
    }
}

impl AllocBackend for ScriptedBackend {
    open spec fn response(&self, req: Request) -> Option<usize> {
        if self.failures_left > 0 {
            None
        } else {
            Some(self.addr)
        }
    }

    open spec fn after_attempt(&self, req: Request) -> Self {
        if self.failures_left > 0 {
            ScriptedBackend { failures_left: (self.failures_left - 1) as u32, addr: self.addr }
        } else {
            ScriptedBackend { failures_left: 0, addr: self.addr }
        }
    }

    fn attempt(&mut self, req: Request) -> (r: Option<usize>) {
        if self.failures_left > 0 {
            self.failures_left = self.failures_left - 1;
            None
        } else {
            Some(self.addr)
        }
    }

    open spec fn after_deallocate(&self, ptr: usize, size: usize, align: usize) -> Self {
        *self
    }

    fn deallocate(&mut self, ptr: usize, size: usize, align: usize) {
    }

    fn pause(&self, millis: u64) {
    }
}

} // verus!
