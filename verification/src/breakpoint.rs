//! One patched address in one traced process.
//!
//! A breakpoint owns the machine word originally at its address, captured
//! once at creation and immutable afterwards, together with its logical
//! enabled / disabled state.  The live memory at the address always holds
//! either the original word (disabled) or its trap-patched form (enabled);
//! there is no third state.  Methods never touch the target themselves:
//! they update the logical state and return the exact word writes and
//! register operations that realise it, in order.

use vstd::prelude::*;

use crate::actions::{mem_after, mem_after_plan, Action};
use crate::arch::{lemma_patched_bytes, lemma_patched_differs, patched_word, spec_patched,
    TRAP_OPCODE};

verus! {

/// The state of one software breakpoint.
#[derive(Clone, Copy, Debug, PartialEq, Eq, Structural)]
pub struct Breakpoint {
    /// Identifier of the traced process this breakpoint patches.
    pub pid: i32,
    /// Virtual address of the instrumented instruction (a program counter
    /// value).
    pub pc: u64,
    /// The machine word originally at `pc`, captured once at creation and
    /// never changed afterwards: every method's contract carries it over
    /// unchanged.
    pub data: u64,
    /// Whether the trap-patched word is currently the one the live memory
    /// must hold at `pc`.
    pub enabled: bool,
}

impl Breakpoint {
    /// The word captured at creation.
    pub open spec fn original_word(self) -> u64 {
        self.data
    }

    /// The word that the live memory at `self.pc` holds: the trap-patched
    /// form while enabled, the original word while disabled.
    pub open spec fn live_word(self) -> u64 {
        if self.enabled {
            spec_patched(self.original_word())
        } else {
            self.original_word()
        }
    }

    /// The live memory `m` of the traced process agrees with this
    /// breakpoint's logical state at its address.
    pub open spec fn consistent_with(self, m: Map<u64, u64>) -> bool {
        m.contains_key(self.pc) && m[self.pc] == self.live_word()
    }

    /// Reads back the captured original word.
    pub fn saved_word(&self) -> (r: u64)
        ensures
            r == self.original_word(),
    {
        self.data
    }

    /// Creates the breakpoint for address `pc` of process `pid`, whose
    /// original word `word` the caller has just read from the target, and
    /// enables it at once.  The returned action must be performed on the
    /// stopped target to make its memory match.
    pub fn new(pid: i32, pc: u64, word: u64) -> (r: (Breakpoint, Action))
        ensures
            r.0.pid == pid,
            r.0.pc == pc,
            r.0.original_word() == word,
            r.0.enabled,
            r.1 == (Action::WriteWord { addr: pc, value: spec_patched(word) }),
    {
        let mut b = Breakpoint { pid, pc, data: word, enabled: false };
        let w = b.enable();
        (b, w)
    }

    /// Switches the breakpoint on: the returned write puts the trap-patched
    /// word over the address.  Re-enabling an already-enabled breakpoint is
    /// a caller error, excluded here by an explicit state requirement.
    pub fn enable(&mut self) -> (w: Action)
        requires
            !old(self).enabled,
        ensures
            *final(self) == (Breakpoint { enabled: true, ..*old(self) }),
            w == (Action::WriteWord {
                addr: old(self).pc,
                value: spec_patched(old(self).original_word()),
            }),
            forall|m: Map<u64, u64>| #[trigger] old(self).consistent_with(m)
                ==> final(self).consistent_with(mem_after(m, w)),
    {
        self.enabled = true;
        Action::WriteWord { addr: self.pc, value: patched_word(self.data) }
    }

    /// Switches the breakpoint off: the returned write restores the
    /// original word verbatim.
    pub fn disable(&mut self) -> (w: Action)
        requires
            old(self).enabled,
        ensures
            *final(self) == (Breakpoint { enabled: false, ..*old(self) }),
            w == (Action::WriteWord {
                addr: old(self).pc,
                value: old(self).original_word(),
            }),
            forall|m: Map<u64, u64>| #[trigger] old(self).consistent_with(m)
                ==> final(self).consistent_with(mem_after(m, w)),
    {
        self.enabled = false;
        Action::WriteWord { addr: self.pc, value: self.data }
    }

    /// Plans the resume-past-breakpoint protocol, to run immediately after
    /// a trap fired at this breakpoint while the process is stopped with
    /// its program counter just past `self.pc`: restore the original
    /// instruction, rewind the program counter to `self.pc`, then execute
    /// exactly one instruction.  The breakpoint is left disabled;
    /// re-enabling before the next resume is the caller's responsibility.
    pub fn step(&mut self) -> (plan: Vec<Action>)
        requires
            old(self).enabled,
        ensures
            *final(self) == (Breakpoint { enabled: false, ..*old(self) }),
            plan@ =~= seq![
                (Action::WriteWord {
                    addr: old(self).pc,
                    value: old(self).original_word(),
                }),
                (Action::SetProgramCounter { value: old(self).pc }),
                Action::SingleStepAndWait,
            ],
            forall|m: Map<u64, u64>| #[trigger] old(self).consistent_with(m)
                ==> final(self).consistent_with(mem_after_plan(m, plan@)),
    {
        let restore = self.disable();
        let mut plan: Vec<Action> = Vec::new();
        plan.push(restore);
        plan.push(Action::SetProgramCounter { value: self.pc });
        plan.push(Action::SingleStepAndWait);
        proof {
            reveal_with_fuel(mem_after_plan, 4);
        }
        plan
    }
}

/// The whole resume-past-breakpoint protocol for `bp`, re-enable included:
/// restore the original word, rewind the program counter to the
/// breakpoint's address, execute one instruction, then patch the trap
/// opcode back in.
pub open spec fn step_plan(bp: Breakpoint) -> Seq<Action> {
    seq![
        (Action::WriteWord { addr: bp.pc, value: bp.original_word() }),
        (Action::SetProgramCounter { value: bp.pc }),
        Action::SingleStepAndWait,
        (Action::WriteWord { addr: bp.pc, value: spec_patched(bp.original_word()) }),
    ]
}

/// After the full step protocol at a hit address, the target's memory is
/// exactly what it was before the trap fired: the word at the address is
/// the trap-patched word again, so the very next pass through the address
/// traps again — no hit can go unobserved.
pub proof fn lemma_step_protocol_reenables(bp: Breakpoint, m: Map<u64, u64>)
    requires
        bp.enabled,
        bp.consistent_with(m),
    ensures
        mem_after_plan(m, step_plan(bp)) == m,
        bp.consistent_with(mem_after_plan(m, step_plan(bp))),
{
    let s = step_plan(bp);
    let w4 = Action::WriteWord { addr: bp.pc, value: spec_patched(bp.original_word()) };
    assert(s.drop_first() =~= seq![
        (Action::SetProgramCounter { value: bp.pc }),
        Action::SingleStepAndWait,
        w4,
    ]);
    assert(s.drop_first().drop_first() =~= seq![Action::SingleStepAndWait, w4]);
    assert(s.drop_first().drop_first().drop_first() =~= seq![w4]);
    assert(s.drop_first().drop_first().drop_first().drop_first()
        =~= Seq::<Action>::empty());
    reveal_with_fuel(mem_after_plan, 6);
    assert(mem_after_plan(m, s) == m.insert(bp.pc, bp.original_word()).insert(
        bp.pc,
        spec_patched(bp.original_word()),
    ));
    assert(m.insert(bp.pc, bp.original_word()).insert(bp.pc, spec_patched(bp.original_word()))
        =~= m);
}

/// Enabling and then disabling a breakpoint restores the target's memory
/// exactly: afterwards the word at the address is the captured original
/// word, and no other address changed.
pub proof fn lemma_enable_disable_round_trip(bp: Breakpoint, m: Map<u64, u64>)
    requires
        !bp.enabled,
        bp.consistent_with(m),
    ensures
        ({
            let m2 = mem_after(
                mem_after(m, Action::WriteWord { addr: bp.pc, value: spec_patched(bp.original_word()) }),
                Action::WriteWord { addr: bp.pc, value: bp.original_word() },
            );
            m2 == m
        }),
{
    let m2 = mem_after(
        mem_after(m, Action::WriteWord { addr: bp.pc, value: spec_patched(bp.original_word()) }),
        Action::WriteWord { addr: bp.pc, value: bp.original_word() },
    );
    assert(m2 =~= m);
}

/// The live memory encodes the trap opcode in the lowest byte of the word
/// at the breakpoint's address if and only if the breakpoint is enabled.
/// The statement excludes the one degenerate input: an instruction whose
/// own lowest byte already equals the trap opcode.
pub proof fn lemma_trap_byte_iff_enabled(bp: Breakpoint, m: Map<u64, u64>)
    requires
        bp.consistent_with(m),
        bp.original_word() & 0xFF != TRAP_OPCODE as u64,
    ensures
        (m[bp.pc] & 0xFF == TRAP_OPCODE as u64) <==> bp.enabled,
{
    lemma_patched_bytes(bp.original_word());
    lemma_patched_differs(bp.original_word());
}

/// One enable / disable transition keeps the logical state and the live
/// memory in agreement: from any consistent pair, switching the breakpoint
/// to `on` and performing the returned write is consistent again.  This is
/// the single step behind `lemma_toggle_sequence_consistent`.
pub proof fn lemma_toggle_consistent(bp: Breakpoint, m: Map<u64, u64>, on: bool)
    requires
        bp.consistent_with(m),
    ensures
        (Breakpoint { enabled: on, ..bp }).consistent_with(
            mem_after(m, toggle_write(bp, on)),
        ),
{
}

/// The word write that realises switching `bp` to state `on`.
pub open spec fn toggle_write(bp: Breakpoint, on: bool) -> Action {
    Action::WriteWord {
        addr: bp.pc,
        value: (Breakpoint { enabled: on, ..bp }).live_word(),
    }
}

/// The breakpoint after a whole sequence of enable / disable switches.
pub open spec fn after_toggles(bp: Breakpoint, s: Seq<bool>) -> Breakpoint
    decreases s.len(),
{
    if s.len() == 0 {
        bp
    } else {
        after_toggles(Breakpoint { enabled: s[0], ..bp }, s.drop_first())
    }
}

/// The live memory after the writes of a whole sequence of enable /
/// disable switches.
pub open spec fn mem_after_toggles(bp: Breakpoint, m: Map<u64, u64>, s: Seq<bool>) -> Map<u64, u64>
    decreases s.len(),
{
    if s.len() == 0 {
        m
    } else {
        mem_after_toggles(
            Breakpoint { enabled: s[0], ..bp },
            mem_after(m, toggle_write(bp, s[0])),
            s.drop_first(),
        )
    }
}

/// For every sequence of enable / disable switches, the live memory stays
/// in agreement with the breakpoint's logical state: at every observable
/// instant the word at the address is the trap-patched word or the original
/// word, as the state says, and never a third value.
pub proof fn lemma_toggle_sequence_consistent(bp: Breakpoint, m: Map<u64, u64>, s: Seq<bool>)
    requires
        bp.consistent_with(m),
    ensures
        after_toggles(bp, s).consistent_with(mem_after_toggles(bp, m, s)),
    decreases s.len(),
{
    if s.len() > 0 {
        lemma_toggle_consistent(bp, m, s[0]);
        lemma_toggle_sequence_consistent(
            Breakpoint { enabled: s[0], ..bp },
            mem_after(m, toggle_write(bp, s[0])),
            s.drop_first(),
        );
    }
}

} // verus!
