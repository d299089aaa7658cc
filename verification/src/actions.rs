//! Operations on the traced process, planned by the verified engine and
//! carried out by the unverified shell that owns the OS debugging calls.
//!
//! The engine never touches the target process itself: it returns `Action`
//! values in the exact order in which the shell must perform them.  The
//! spec-level model below says what a plan does to the target's memory, so
//! that the protocol's memory guarantees can be stated and proved.

use vstd::prelude::*;

verus! {

/// One operation on the traced process, to be performed while the process
/// is stopped.
#[derive(Clone, Copy, Debug, PartialEq, Eq, Structural)]
pub enum Action {
    /// Write `value` over the whole machine word at virtual address `addr`.
    WriteWord { addr: u64, value: u64 },
    /// Set the traced process's program counter register to `value`.
    SetProgramCounter { value: u64 },
    /// Let the process execute exactly one machine instruction and wait for
    /// the resulting stop.
    SingleStepAndWait,
    /// Resume the process without delivering a signal.
    ContinueRun,
    /// Resume the process, delivering signal number `signal` to it.
    ContinueWithSignal { signal: i32 },
    /// Report one hit of the instrumented address `addr` in process `pid`
    /// to the coverage aggregator; `seq` increases by one with every hit
    /// of the session.
    EmitHit { pid: i32, addr: u64, seq: u64 },
}

/// The target's memory, modelled as a map from virtual address to the
/// machine word stored there, after one action.  Only word writes change
/// memory; every other action leaves it as it is.
pub open spec fn mem_after(m: Map<u64, u64>, a: Action) -> Map<u64, u64> {
    match a {
        Action::WriteWord { addr, value } => m.insert(addr, value),
        _ => m,
    }
}

/// The target's memory after a whole plan, performed front to back.
pub open spec fn mem_after_plan(m: Map<u64, u64>, plan: Seq<Action>) -> Map<u64, u64>
    decreases plan.len(),
{
    if plan.len() == 0 {
        m
    } else {
        mem_after_plan(mem_after(m, plan[0]), plan.drop_first())
    }
}

/// Appending one action to a plan applies it after the rest.
pub proof fn lemma_mem_after_plan_push(m: Map<u64, u64>, plan: Seq<Action>, a: Action)
    ensures
        mem_after_plan(m, plan.push(a)) == mem_after(mem_after_plan(m, plan), a),
    decreases plan.len(),
{
    reveal_with_fuel(mem_after_plan, 3);
    if plan.len() == 0 {
        assert(plan.push(a)[0] == a);
        assert(plan.push(a).drop_first() =~= Seq::<Action>::empty());
    } else {
        assert(plan.push(a)[0] == plan[0]);
        assert(plan.push(a).drop_first() =~= plan.drop_first().push(a));
        lemma_mem_after_plan_push(mem_after(m, plan[0]), plan.drop_first(), a);
    }
}

} // verus!
