//! The cancellation and status token of one running process.
//!
//! A handle is created per execution and discarded when the process ends. The
//! status cell and the cancellation flag are the one piece of state shared
//! across threads; this type is the verified state machine of that cell, and
//! the embedding layer shares it behind a reference-counted lock.

use vstd::prelude::*;
use crate::clock::fresh_id;

verus! {

/// The externally visible state of a spawned process.
#[derive(Debug, Clone, Copy, PartialEq, Eq, Structural)]
pub enum ProcessStatus {
    Running,
    Completed(i32),
    Failed(i32),
    Killed,
}

/// A lightweight token for one execution: identity, the command, the shared
/// status, and the cooperative cancellation flag.
#[derive(Debug)]
pub struct ProcessHandle {
    pub id: u128,
    pub command: String,
    pub status: ProcessStatus,
    pub should_cancel: bool,
}

impl ProcessHandle {
    /// A fresh handle for a process that just started running.
    pub fn new(command: String) -> (h: ProcessHandle)
        ensures
            h.command == command,
            h.status == ProcessStatus::Running,
            !h.should_cancel,
    {
        ProcessHandle { id: fresh_id(), command, status: ProcessStatus::Running, should_cancel: false }
    }

    /// Request cooperative cancellation: raise the flag and mark the status
    /// `Killed`. The process itself is only signalled by the embedding layer.
    pub fn cancel(&mut self)
        ensures
            final(self).should_cancel,
            final(self).status == ProcessStatus::Killed,
            final(self).id == old(self).id,
            final(self).command == old(self).command,
    {
        self.should_cancel = true;
        self.status = ProcessStatus::Killed;
    }

    /// True while the status cell still says `Running`.
    pub fn is_running(&self) -> (r: bool)
        ensures
            r == (self.status == ProcessStatus::Running),
    {
        match self.status {
            ProcessStatus::Running => true,
            _ => false,
        }
    }

    /// The current status.
    pub fn get_status(&self) -> (r: ProcessStatus)
        ensures
            r == self.status,
    {
        self.status
    }

    /// Overwrite the status, leaving identity and flag alone.
    pub fn set_status(&mut self, new_status: ProcessStatus)
        ensures
            final(self).status == new_status,
            final(self).id == old(self).id,
            final(self).command == old(self).command,
            final(self).should_cancel == old(self).should_cancel,
    {
        self.status = new_status;
    }
}

} // verus!
