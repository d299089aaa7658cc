//! Software-breakpoint engine for a process-tracing coverage tool.
//!
//! The crate turns executable addresses into transient software breakpoints,
//! decides how a trap stop must be handled, and plans the exact sequence of
//! memory and register operations that resumes the traced process as if the
//! breakpoint were never there.  The operating-system debugging calls
//! themselves (attach, word peek/poke, continue, single-step, wait) are
//! performed by an unverified shell around this crate; everything that can be
//! stated over plain values — the patched word, the breakpoint table, the
//! step protocol, the stop-event state machine — is verified here.

pub mod actions;
pub mod arch;
pub mod breakpoint;
pub mod errors;
pub mod session;
pub mod table;
pub mod tracer;
