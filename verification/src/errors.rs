//! Error kinds of the breakpoint engine.
//!
//! A failure of the step protocol is diagnosable only when it reports which
//! address and which half of the protocol failed, because partial completion
//! (program counter rewound but instruction not restored) cannot be told
//! apart otherwise.  The variants carry exactly that detail.

use vstd::prelude::*;

verus! {

/// The half of a memory / register protocol in which an access failed.
#[derive(Clone, Copy, Debug, PartialEq, Eq, Structural)]
pub enum ProtocolPhase {
    /// Reading the original word while creating a breakpoint.
    CaptureRead,
    /// Writing the trap-patched word to enable a breakpoint.
    EnableWrite,
    /// Writing the original word back to disable a breakpoint.
    DisableWrite,
    /// Rewinding the program counter to the breakpoint address.
    RewindPc,
    /// Requesting the single instruction step and waiting for its stop.
    SingleStepRun,
}

/// Everything that can go wrong while driving breakpoints in a traced
/// process.
#[derive(Clone, Copy, Debug, PartialEq, Eq, Structural)]
pub enum TraceError {
    /// The debugging relationship could not be established; fatal to the
    /// session, never retried.
    Attach { pid: i32 },
    /// A memory or register operation failed while the process was expected
    /// to be stopped; reports the address and the protocol half that failed.
    Access { addr: u64, phase: ProtocolPhase },
    /// A trap fired at an address with no table entry; the stop is forwarded
    /// to the process as an ordinary signal, never escalated.
    UnknownTrap { addr: u64 },
    /// An operation was attempted after the traced process terminated;
    /// always fatal to the session.
    ProcessExited,
}

} // verus!
