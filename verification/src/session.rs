//! The live debugging attachment to one traced process.
//!
//! The OS serialises all debugging operations because they are only issued
//! while the target is stopped; this type tracks in which state the target
//! is, so that every memory or register operation is planned in the stopped
//! state only, and every operation after termination fails with
//! `ProcessExited` instead of touching a process that is gone.

use vstd::prelude::*;

use crate::errors::TraceError;

verus! {

/// Where the traced process stands, as far as the controlling context
/// knows.
#[derive(Clone, Copy, Debug, PartialEq, Eq, Structural)]
pub enum SessionStatus {
    /// Suspended by the debugging facility; memory and registers may be
    /// accessed.
    Stopped,
    /// Resumed; the only thing to do is wait for the next stop.
    Running,
    /// Terminated; no operation is possible any more.  Terminal: no
    /// transition leaves it.
    Exited,
}

/// The debugging relationship with exactly one process.  It is a
/// non-shareable handle: one controlling context drives one process.
pub struct TraceSession {
    /// Identifier of the traced process.
    pub pid: i32,
    /// The target's current state.
    pub status: SessionStatus,
}

impl TraceSession {
    /// The session over a freshly attached process.  Attaching stops the
    /// target, so the session starts in the stopped state; the OS attach
    /// call itself is performed by the caller and reports `Attach` on
    /// failure before any session exists.
    pub fn attach(pid: i32) -> (s: TraceSession)
        ensures
            s.pid == pid,
            s.status == SessionStatus::Stopped,
    {
        TraceSession { pid, status: SessionStatus::Stopped }
    }

    /// Succeeds exactly while the target has not terminated; afterwards
    /// every operation fails with `ProcessExited`.
    pub fn check_live(&self) -> (r: Result<(), TraceError>)
        ensures
            r is Ok <==> self.status != SessionStatus::Exited,
            r is Err ==> r == Err::<(), TraceError>(TraceError::ProcessExited),
    {
        if self.status == SessionStatus::Exited {
            Err(TraceError::ProcessExited)
        } else {
            Ok(())
        }
    }

    /// Records that the target was resumed.
    pub fn note_resumed(&mut self)
        requires
            old(self).status == SessionStatus::Stopped,
        ensures
            *final(self) == (TraceSession { status: SessionStatus::Running, ..*old(self) }),
    {
        self.status = SessionStatus::Running;
    }

    /// Records that the wait returned: the target is stopped again.
    pub fn note_stopped(&mut self)
        requires
            old(self).status == SessionStatus::Running,
        ensures
            *final(self) == (TraceSession { status: SessionStatus::Stopped, ..*old(self) }),
    {
        self.status = SessionStatus::Stopped;
    }

    /// Records that the target terminated.  The exited state is terminal.
    pub fn note_exited(&mut self)
        ensures
            *final(self) == (TraceSession { status: SessionStatus::Exited, ..*old(self) }),
    {
        self.status = SessionStatus::Exited;
    }
}

} // verus!
