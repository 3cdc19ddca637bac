//! A compiler process started by a build, known by its process id. Starting,
//! tracking and signalling processes is done by the caller.

use vstd::prelude::*;

verus! {

/// A running compiler process, and the process group it leads.
#[derive(Debug, Clone, Copy, PartialEq, Eq, Structural)]
pub struct RunningProcess {
    pid: u32,
}

impl RunningProcess {
    /// The process id.
    pub closed spec fn id(&self) -> u32 {
        self.pid
    }

    /// Tracks the process with id `pid`.
    pub fn new(pid: u32) -> (r: RunningProcess)
        ensures
            r.id() == pid,
    {
        RunningProcess { pid }
    }

    /// The process id.
    pub fn pid(&self) -> (r: u32)
        ensures
            r == self.id(),
    {
        self.pid
    }

    /// The process group signalled to stop the process and its children: the
    /// negated process id, where it fits an `i32`.
    pub fn group_target(&self) -> (r: Option<i32>)
        ensures
            self.id() <= i32::MAX ==> r == Some(-(self.id() as int) as i32),
            self.id() > i32::MAX ==> r is None,
    {
        if self.pid <= 0x7fff_ffff {
            Some(-(self.pid as i32))
        } else {
            None
        }
    }
}

} // verus!
