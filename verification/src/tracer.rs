//! The control loop of one trace: classify each stop of the target,
//! decide what must happen, and plan it.
//!
//! The loop is driven from outside: the unverified shell resumes the
//! process, waits for a stop, classifies it into a `StopEvent`, and hands
//! it to `on_stop`, which returns the exact actions to perform before the
//! next wait.  On a resolved trap those actions run the step protocol and
//! re-patch the trap opcode before the process is resumed, so no later
//! pass through the address can go unobserved; a foreign trap or signal is
//! forwarded to the process unmodified; a terminated target makes the
//! state terminal, and every later call fails with `ProcessExited`.

use vstd::prelude::*;

use crate::actions::{lemma_mem_after_plan_push, mem_after_plan, Action};
use crate::arch::TRAP_WIDTH;
use crate::breakpoint::{lemma_step_protocol_reenables, step_plan, Breakpoint};
use crate::errors::TraceError;
use crate::session::{SessionStatus, TraceSession};
use crate::table::{disable_writes, has_addr, BreakpointTable};

verus! {

/// Signal number that a breakpoint trap delivers (`SIGTRAP`).
pub const TRAP_SIGNAL: i32 = 5;

/// Signal number that unconditionally terminates the target (`SIGKILL`).
pub const KILL_SIGNAL: i32 = 9;

/// What the wait for the target reported, decoded into the four stop
/// classes the loop distinguishes.
#[derive(Clone, Copy, Debug, PartialEq, Eq, Structural)]
pub enum StopEvent {
    /// The target stopped on a trap instruction; `pc` is the program
    /// counter at the stop, already advanced past the trap opcode.
    BreakpointTrap { pc: u64 },
    /// The target stopped on an ordinary signal unrelated to tracing.
    SignalStop { signal: i32 },
    /// The target exited with a status code.
    ProcessExit { code: i32 },
    /// The target was terminated by a signal.
    ProcessKilled { signal: i32 },
}

/// The breakpoint address behind a trap stop: the program counter minus
/// the width of the trap opcode, which had already executed.
pub open spec fn spec_hit_address(pc: u64) -> u64 {
    (pc - TRAP_WIDTH) as u64
}

/// The trace of one process: its session, its breakpoints, and the
/// monotonically increasing sequence number of the next hit event.
pub struct TraceLoop {
    /// The debugging attachment being driven.
    pub session: TraceSession,
    /// The breakpoints of the traced process.
    pub table: BreakpointTable,
    /// Sequence number the next hit event will carry; increases by one
    /// with every hit.
    pub next_seq: u64,
}

impl TraceLoop {
    /// Well-formedness: the table is well formed, belongs to the session's
    /// process, and every breakpoint outside a stop handler is enabled.
    pub open spec fn wf(self) -> bool {
        &&& self.table.wf()
        &&& self.table.pid == self.session.pid
        &&& forall|i: int| 0 <= i < self.table.entries_view().len()
            ==> (#[trigger] self.table.entries_view()[i]).enabled
    }

    /// The loop over a freshly attached, stopped process with no
    /// breakpoints yet.
    pub fn new(pid: i32) -> (t: TraceLoop)
        ensures
            t.wf(),
            t.session.pid == pid,
            t.session.status == SessionStatus::Stopped,
            t.table.entries_view() =~= Seq::<crate::breakpoint::Breakpoint>::empty(),
            t.next_seq == 0,
    {
        TraceLoop { session: TraceSession::attach(pid), table: BreakpointTable::new(pid), next_seq: 0 }
    }

    /// Instruments `address`, whose original word `word` the caller has
    /// just read from the stopped target.  Idempotent for an address
    /// already instrumented.  Fails with `ProcessExited` once the target
    /// has terminated, touching nothing.
    pub fn instrument(&mut self, address: u64, word: u64) -> (r: Result<
        Option<Action>,
        TraceError,
    >)
        requires
            old(self).wf(),
            old(self).session.status != SessionStatus::Running,
        ensures
            final(self).wf(),
            final(self).session == old(self).session,
            final(self).next_seq == old(self).next_seq,
            match r {
                Ok(w) => {
                    &&& old(self).session.status == SessionStatus::Stopped
                    &&& has_addr(final(self).table.entries_view(), address)
                    &&& forall|a: u64| has_addr(final(self).table.entries_view(), a)
                        <==> has_addr(old(self).table.entries_view(), a) || a == address
                    &&& match w {
                        Some(act) => !has_addr(old(self).table.entries_view(), address)
                            && final(self).table.entries_view()
                                =~= old(self).table.entries_view().push(
                                (crate::breakpoint::Breakpoint {
                                    pid: old(self).session.pid,
                                    pc: address,
                                    data: word,
                                    enabled: true,
                                }),
                            )
                            && act == (Action::WriteWord {
                                addr: address,
                                value: crate::arch::spec_patched(word),
                            }),
                        None => has_addr(old(self).table.entries_view(), address)
                            && final(self).table.entries_view()
                                =~= old(self).table.entries_view(),
                    }
                },
                Err(e) => {
                    &&& e == TraceError::ProcessExited
                    &&& old(self).session.status == SessionStatus::Exited
                    &&& *final(self) == *old(self)
                },
            },
    {
        if let Err(e) = self.session.check_live() {
            return Err(e);
        }
        let (_, w) = self.table.insert(address, word);
        Ok(w)
    }

    /// Resumes the stopped target: the one returned action continues it
    /// without a signal.  Fails with `ProcessExited` once the target has
    /// terminated.
    pub fn resume(&mut self) -> (r: Result<Vec<Action>, TraceError>)
        requires
            old(self).wf(),
            old(self).session.status != SessionStatus::Running,
        ensures
            final(self).wf(),
            final(self).table == old(self).table,
            final(self).next_seq == old(self).next_seq,
            final(self).session.pid == old(self).session.pid,
            match r {
                Ok(plan) => {
                    &&& old(self).session.status == SessionStatus::Stopped
                    &&& final(self).session.status == SessionStatus::Running
                    &&& plan@ =~= seq![Action::ContinueRun]
                },
                Err(e) => {
                    &&& e == TraceError::ProcessExited
                    &&& old(self).session.status == SessionStatus::Exited
                    &&& *final(self) == *old(self)
                },
            },
    {
        if let Err(e) = self.session.check_live() {
            return Err(e);
        }
        self.session.note_resumed();
        let mut plan: Vec<Action> = Vec::new();
        plan.push(Action::ContinueRun);
        Ok(plan)
    }

    /// Handles one stop of the running target and plans everything that
    /// must happen before the next wait.
    ///
    /// On a trap at an instrumented address: the step protocol, the
    /// re-patch of the trap opcode, one hit event, then the resume — in
    /// exactly that order, so the breakpoint is live again before the
    /// process runs.  On a trap at a foreign address or an ordinary
    /// signal: forward it unmodified and resume; no hit event is emitted.
    /// On a terminating signal: restore every original word while the
    /// target is still stopped, forward the signal, and end the trace.  On
    /// exit or kill: drop every breakpoint; the table is empty afterwards.
    pub fn on_stop(&mut self, event: StopEvent) -> (r: Result<Vec<Action>, TraceError>)
        requires
            old(self).wf(),
            old(self).session.status != SessionStatus::Stopped,
        ensures
            final(self).wf(),
            final(self).session.pid == old(self).session.pid,
            final(self).next_seq >= old(self).next_seq,
            match r {
                Ok(plan) => {
                    &&& old(self).session.status == SessionStatus::Running
                    &&& match event {
                        StopEvent::BreakpointTrap { pc } => {
                            if pc >= TRAP_WIDTH && has_addr(
                                old(self).table.entries_view(),
                                spec_hit_address(pc),
                            ) {
                                &&& final(self).table.entries_view()
                                    =~= old(self).table.entries_view()
                                &&& final(self).session.status == SessionStatus::Running
                                &&& old(self).next_seq < u64::MAX
                                    ==> final(self).next_seq == old(self).next_seq + 1
                                &&& forall|k: int|
                                    0 <= k < old(self).table.entries_view().len()
                                        && (#[trigger] old(self).table.entries_view()[k]).pc
                                            == spec_hit_address(pc)
                                        ==> plan@ =~= step_plan(
                                            old(self).table.entries_view()[k],
                                        ).push(
                                            (Action::EmitHit {
                                                pid: old(self).session.pid,
                                                addr: spec_hit_address(pc),
                                                seq: old(self).next_seq,
                                            }),
                                        ).push(Action::ContinueRun)
                            } else {
                                &&& final(self).table == old(self).table
                                &&& final(self).next_seq == old(self).next_seq
                                &&& final(self).session.status == SessionStatus::Running
                                &&& plan@ =~= seq![
                                    (Action::ContinueWithSignal { signal: TRAP_SIGNAL }),
                                ]
                            }
                        },
                        StopEvent::SignalStop { signal } => {
                            if signal == KILL_SIGNAL {
                                &&& final(self).table.entries_view()
                                    =~= Seq::<crate::breakpoint::Breakpoint>::empty()
                                &&& final(self).session.status == SessionStatus::Exited
                                &&& final(self).next_seq == old(self).next_seq
                                &&& plan@ =~= disable_writes(
                                    old(self).table.entries_view(),
                                ).push((Action::ContinueWithSignal { signal: signal }))
                            } else {
                                &&& final(self).table == old(self).table
                                &&& final(self).next_seq == old(self).next_seq
                                &&& final(self).session.status == SessionStatus::Running
                                &&& plan@ =~= seq![
                                    (Action::ContinueWithSignal { signal: signal }),
                                ]
                            }
                        },
                        StopEvent::ProcessExit { .. } | StopEvent::ProcessKilled { .. } => {
                            &&& final(self).table.entries_view()
                                =~= Seq::<crate::breakpoint::Breakpoint>::empty()
                            &&& final(self).session.status == SessionStatus::Exited
                            &&& final(self).next_seq == old(self).next_seq
                            &&& plan@ =~= Seq::<Action>::empty()
                        },
                    }
                },
                Err(e) => {
                    &&& e == TraceError::ProcessExited
                    &&& old(self).session.status == SessionStatus::Exited
                    &&& *final(self) == *old(self)
                },
            },
    {
        if let Err(e) = self.session.check_live() {
            return Err(e);
        }
        self.session.note_stopped();
        match event {
            StopEvent::BreakpointTrap { pc } => {
                if pc < TRAP_WIDTH {
                    return self.forward_signal(TRAP_SIGNAL);
                }
                let hit = pc - TRAP_WIDTH;
                match self.table.resolve_required(hit) {
                    Ok(i) => {
                        let mut plan = self.table.step_and_reenable(i);
                        let seq_no = self.next_seq;
                        if self.next_seq < u64::MAX {
                            self.next_seq = self.next_seq + 1;
                        }
                        plan.push(Action::EmitHit { pid: self.session.pid, addr: hit, seq: seq_no });
                        plan.push(Action::ContinueRun);
                        self.session.note_resumed();
                        Ok(plan)
                    },
                    Err(_) => self.forward_signal(TRAP_SIGNAL),
                }
            },
            StopEvent::SignalStop { signal } => {
                if signal == KILL_SIGNAL {
                    let mut plan = self.table.disable_all();
                    self.table.clear();
                    plan.push(Action::ContinueWithSignal { signal });
                    self.session.note_exited();
                    Ok(plan)
                } else {
                    self.forward_signal(signal)
                }
            },
            StopEvent::ProcessExit { .. } | StopEvent::ProcessKilled { .. } => {
                self.table.clear();
                self.session.note_exited();
                Ok(Vec::new())
            },
        }
    }

    /// Forwards a stop that was not ours: resume, delivering the signal to
    /// the process unmodified.
    fn forward_signal(&mut self, signal: i32) -> (r: Result<Vec<Action>, TraceError>)
        requires
            old(self).wf(),
            old(self).session.status == SessionStatus::Stopped,
        ensures
            final(self).wf(),
            final(self).table == old(self).table,
            final(self).next_seq == old(self).next_seq,
            final(self).session.pid == old(self).session.pid,
            final(self).session.status == SessionStatus::Running,
            r matches Ok(plan) && plan@ =~= seq![(Action::ContinueWithSignal { signal: signal })],
    {
        self.session.note_resumed();
        let mut plan: Vec<Action> = Vec::new();
        plan.push(Action::ContinueWithSignal { signal });
        Ok(plan)
    }
}

/// After the whole plan of a resolved trap — restore, rewind, single
/// step, re-patch, hit event, resume — the target's memory is exactly
/// what it was before the stop: the trap opcode is back in place
/// before the process runs again, so no two passes through the same
/// address can both go unobserved.
pub proof fn lemma_hit_plan_leaves_trap_armed(bp: Breakpoint, m: Map<u64, u64>, pid: i32, seq: u64)
    requires
        bp.enabled,
        bp.consistent_with(m),
    ensures
        mem_after_plan(
            m,
            step_plan(bp).push((Action::EmitHit { pid, addr: bp.pc, seq })).push(
                Action::ContinueRun,
            ),
        ) == m,
{
    lemma_step_protocol_reenables(bp, m);
    lemma_mem_after_plan_push(m, step_plan(bp), Action::EmitHit { pid, addr: bp.pc, seq });
    lemma_mem_after_plan_push(
        m,
        step_plan(bp).push(Action::EmitHit { pid, addr: bp.pc, seq }),
        Action::ContinueRun,
    );
}

} // verus!
