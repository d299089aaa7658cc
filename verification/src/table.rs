//! The collection of all active breakpoints of one traced process.
//!
//! Addresses are unique keys: one entry per instrumented address.  Every
//! entry belongs to the table's owning process.  The table is the only
//! owner of its breakpoints; look-up by hit address and the bulk enable /
//! disable used at teardown live here.

use vstd::prelude::*;

use crate::actions::{lemma_mem_after_plan_push, mem_after_plan, Action};
use crate::arch::spec_patched;
use crate::breakpoint::{step_plan, Breakpoint};
use crate::errors::TraceError;

verus! {

/// Whether some entry of `s` patches address `a`.
pub open spec fn has_addr(s: Seq<Breakpoint>, a: u64) -> bool {
    exists|i: int| 0 <= i < s.len() && (#[trigger] s[i]).pc == a
}

/// The writes of a bulk disable: for each enabled entry, in table order,
/// the write that restores its original word.
pub open spec fn disable_writes(s: Seq<Breakpoint>) -> Seq<Action>
    decreases s.len(),
{
    if s.len() == 0 {
        Seq::<Action>::empty()
    } else {
        disable_writes(s.drop_last()) + if s.last().enabled {
            seq![(Action::WriteWord { addr: s.last().pc, value: s.last().original_word() })]
        } else {
            Seq::<Action>::empty()
        }
    }
}

/// The writes of a bulk enable: for each disabled entry, in table order,
/// the write that patches the trap opcode in.
pub open spec fn enable_writes(s: Seq<Breakpoint>) -> Seq<Action>
    decreases s.len(),
{
    if s.len() == 0 {
        Seq::<Action>::empty()
    } else {
        enable_writes(s.drop_last()) + if !s.last().enabled {
            seq![
                (Action::WriteWord {
                    addr: s.last().pc,
                    value: spec_patched(s.last().original_word()),
                }),
            ]
        } else {
            Seq::<Action>::empty()
        }
    }
}

/// All breakpoints of one traced process, keyed by address.
pub struct BreakpointTable {
    /// Identifier of the owning process; every entry's `pid` equals it.
    pub pid: i32,
    /// The breakpoints, in insertion order; mutated only through the
    /// methods below, which keep `wf`.
    pub entries: Vec<Breakpoint>,
}

impl BreakpointTable {
    /// The entries, in insertion order.
    pub open spec fn entries_view(self) -> Seq<Breakpoint> {
        self.entries@
    }

    /// Well-formedness: addresses are unique keys, and every entry belongs
    /// to the owning process.
    pub open spec fn wf(self) -> bool {
        &&& forall|i: int, j: int|
            0 <= i < j < self.entries_view().len()
                ==> (#[trigger] self.entries_view()[i]).pc
                    != (#[trigger] self.entries_view()[j]).pc
        &&& forall|i: int|
            0 <= i < self.entries_view().len()
                ==> (#[trigger] self.entries_view()[i]).pid == self.pid
    }

    /// An empty table for process `pid`.
    pub fn new(pid: i32) -> (t: BreakpointTable)
        ensures
            t.wf(),
            t.pid == pid,
            t.entries_view() =~= Seq::<Breakpoint>::empty(),
    {
        BreakpointTable { pid, entries: Vec::new() }
    }

    /// How many addresses are instrumented.
    pub fn len(&self) -> (n: usize)
        ensures
            n == self.entries_view().len(),
    {
        self.entries.len()
    }

    /// The entry at position `i`.
    pub fn entry(&self, i: usize) -> (bp: &Breakpoint)
        requires
            i < self.entries_view().len(),
        ensures
            *bp == self.entries_view()[i as int],
    {
        &self.entries[i]
    }

    /// Looks up the position of the breakpoint whose address equals
    /// `hit_address`: `Some` exactly for instrumented addresses, `None`
    /// for every address never inserted.
    pub fn resolve(&self, hit_address: u64) -> (r: Option<usize>)
        requires
            self.wf(),
        ensures
            match r {
                Some(i) => i < self.entries_view().len()
                    && self.entries_view()[i as int].pc == hit_address,
                None => !has_addr(self.entries_view(), hit_address),
            },
            r is Some <==> has_addr(self.entries_view(), hit_address),
    {
        let n = self.entries.len();
        let mut i: usize = 0;
        while i < n
            invariant
                n == self.entries_view().len(),
                i <= n,
                forall|k: int| 0 <= k < i ==> (#[trigger] self.entries_view()[k]).pc
                    != hit_address,
            decreases n - i,
        {
            if self.entries[i].pc == hit_address {
                return Some(i);
            }
            i += 1;
        }
        None
    }

    /// Like `resolve`, but demands that the address is instrumented: a trap
    /// at a foreign address is reported as `UnknownTrap`, never handled as
    /// a breakpoint.
    pub fn resolve_required(&self, hit_address: u64) -> (r: Result<usize, TraceError>)
        requires
            self.wf(),
        ensures
            match r {
                Ok(i) => i < self.entries_view().len()
                    && self.entries_view()[i as int].pc == hit_address,
                Err(e) => e == (TraceError::UnknownTrap { addr: hit_address })
                    && !has_addr(self.entries_view(), hit_address),
            },
            r is Ok <==> has_addr(self.entries_view(), hit_address),
    {
        match self.resolve(hit_address) {
            Some(i) => Ok(i),
            None => Err(TraceError::UnknownTrap { addr: hit_address }),
        }
    }

    /// Instruments `address`, whose original word `word` the caller has
    /// just read from the stopped target.  If the address is already
    /// instrumented this is a no-op that returns the existing position and
    /// no write; otherwise the new breakpoint is stored enabled and the
    /// returned write patches the target.  Insertion is idempotent.
    pub fn insert(&mut self, address: u64, word: u64) -> (r: (usize, Option<Action>))
        requires
            old(self).wf(),
        ensures
            final(self).wf(),
            final(self).pid == old(self).pid,
            r.0 < final(self).entries_view().len(),
            final(self).entries_view()[r.0 as int].pc == address,
            has_addr(final(self).entries_view(), address),
            forall|a: u64| has_addr(final(self).entries_view(), a)
                <==> has_addr(old(self).entries_view(), a) || a == address,
            match r.1 {
                Some(w) => {
                    &&& !has_addr(old(self).entries_view(), address)
                    &&& final(self).entries_view() =~= old(self).entries_view().push(
                        (Breakpoint { pid: old(self).pid, pc: address, data: word, enabled: true }),
                    )
                    &&& w == (Action::WriteWord { addr: address, value: spec_patched(word) })
                },
                None => {
                    &&& has_addr(old(self).entries_view(), address)
                    &&& final(self).entries_view() =~= old(self).entries_view()
                },
            },
    {
        match self.resolve(address) {
            Some(i) => {
                proof {
                    assert(has_addr(self.entries_view(), address)) by {
                        assert(self.entries_view()[i as int].pc == address);
                    }
                }
                (i, None)
            },
            None => {
                let (bp, w) = Breakpoint::new(self.pid, address, word);
                let i = self.entries.len();
                self.entries.push(bp);
                proof {
                    let s0 = old(self).entries_view();
                    let s1 = self.entries_view();
                    assert(s1[s0.len() as int].pc == address);
                    assert forall|a: u64| has_addr(s1, a) implies has_addr(s0, a)
                        || a == address by {
                        let k = choose|k: int| 0 <= k < s1.len() && (#[trigger] s1[k]).pc == a;
                        if k < s0.len() {
                            assert(s0[k].pc == a);
                        }
                    }
                    assert forall|a: u64| has_addr(s0, a) implies has_addr(s1, a) by {
                        let k = choose|k: int| 0 <= k < s0.len() && (#[trigger] s0[k]).pc == a;
                        assert(s1[k].pc == a);
                    }
                }
                (i, Some(w))
            },
        }
    }

    /// Disables every enabled breakpoint, used at session teardown: the
    /// returned writes restore the original word of each previously
    /// enabled entry, in table order.  Afterwards no entry is enabled.
    pub fn disable_all(&mut self) -> (writes: Vec<Action>)
        requires
            old(self).wf(),
        ensures
            final(self).wf(),
            final(self).pid == old(self).pid,
            final(self).entries_view().len() == old(self).entries_view().len(),
            forall|i: int| 0 <= i < old(self).entries_view().len()
                ==> #[trigger] final(self).entries_view()[i]
                    == (Breakpoint { enabled: false, ..old(self).entries_view()[i] }),
            writes@ =~= disable_writes(old(self).entries_view()),
    {
        let ghost old_entries = self.entries@;
        let mut writes: Vec<Action> = Vec::new();
        let n = self.entries.len();
        let mut i: usize = 0;
        while i < n
            invariant
                n == self.entries_view().len(),
                self.entries_view().len() == old_entries.len(),
                i <= n,
                self.pid == old(self).pid,
                old_entries == old(self).entries_view(),
                forall|k: int| 0 <= k < i ==> #[trigger] self.entries_view()[k]
                    == (Breakpoint { enabled: false, ..old_entries[k] }),
                forall|k: int| i <= k < n ==> #[trigger] self.entries_view()[k]
                    == old_entries[k],
                writes@ =~= disable_writes(old_entries.take(i as int)),
            decreases n - i,
        {
            let mut bp = self.entries[i];
            proof {
                assert(old_entries.take(i as int + 1).drop_last() =~= old_entries.take(i as int));
                assert(old_entries.take(i as int + 1).last() == old_entries[i as int]);
            }
            if bp.enabled {
                let w = bp.disable();
                self.entries[i] = bp;
                writes.push(w);
            }
            i += 1;
        }
        proof {
            assert(old_entries.take(n as int) =~= old_entries);
            assert(self.wf()) by {
                assert(forall|a: int| 0 <= a < self.entries_view().len()
                    ==> (#[trigger] self.entries_view()[a]).pc == old_entries[a].pc
                        && self.entries_view()[a].pid == old_entries[a].pid);
            }
        }
        writes
    }

    /// Enables every disabled breakpoint: the returned writes patch the
    /// trap opcode into each previously disabled entry, in table order.
    /// Afterwards every entry is enabled.
    pub fn enable_all(&mut self) -> (writes: Vec<Action>)
        requires
            old(self).wf(),
        ensures
            final(self).wf(),
            final(self).pid == old(self).pid,
            final(self).entries_view().len() == old(self).entries_view().len(),
            forall|i: int| 0 <= i < old(self).entries_view().len()
                ==> #[trigger] final(self).entries_view()[i]
                    == (Breakpoint { enabled: true, ..old(self).entries_view()[i] }),
            writes@ =~= enable_writes(old(self).entries_view()),
    {
        let ghost old_entries = self.entries@;
        let mut writes: Vec<Action> = Vec::new();
        let n = self.entries.len();
        let mut i: usize = 0;
        while i < n
            invariant
                n == self.entries_view().len(),
                self.entries_view().len() == old_entries.len(),
                i <= n,
                self.pid == old(self).pid,
                old_entries == old(self).entries_view(),
                forall|k: int| 0 <= k < i ==> #[trigger] self.entries_view()[k]
                    == (Breakpoint { enabled: true, ..old_entries[k] }),
                forall|k: int| i <= k < n ==> #[trigger] self.entries_view()[k]
                    == old_entries[k],
                writes@ =~= enable_writes(old_entries.take(i as int)),
            decreases n - i,
        {
            let mut bp = self.entries[i];
            proof {
                assert(old_entries.take(i as int + 1).drop_last() =~= old_entries.take(i as int));
                assert(old_entries.take(i as int + 1).last() == old_entries[i as int]);
            }
            if !bp.enabled {
                let w = bp.enable();
                self.entries[i] = bp;
                writes.push(w);
            }
            i += 1;
        }
        proof {
            assert(old_entries.take(n as int) =~= old_entries);
            assert(self.wf()) by {
                assert(forall|a: int| 0 <= a < self.entries_view().len()
                    ==> (#[trigger] self.entries_view()[a]).pc == old_entries[a].pc
                        && self.entries_view()[a].pid == old_entries[a].pid);
            }
        }
        writes
    }

    /// The full resume-past-breakpoint plan for the entry at position `i`,
    /// run immediately after its trap fired: restore, rewind, single-step,
    /// then patch the trap opcode back in, so the entry stays live for
    /// later hits.  The table ends exactly as it began: the entry remains
    /// enabled.
    pub fn step_and_reenable(&mut self, i: usize) -> (plan: Vec<Action>)
        requires
            old(self).wf(),
            i < old(self).entries_view().len(),
            old(self).entries_view()[i as int].enabled,
        ensures
            final(self).wf(),
            final(self).pid == old(self).pid,
            final(self).entries_view() =~= old(self).entries_view(),
            plan@ =~= step_plan(old(self).entries_view()[i as int]),
    {
        let mut bp = self.entries[i];
        let mut plan = bp.step();
        let w = bp.enable();
        plan.push(w);
        self.entries[i] = bp;
        proof {
            assert(self.entries_view() =~= old(self).entries_view());
        }
        plan
    }

    /// Drops every entry, used after the traced process has terminated and
    /// no memory of it can be written any more: the table reports itself
    /// empty afterwards.
    pub fn clear(&mut self)
        ensures
            final(self).wf(),
            final(self).pid == old(self).pid,
            final(self).entries_view() =~= Seq::<Breakpoint>::empty(),
    {
        self.entries = Vec::new();
    }
}

/// Teardown restores the target exactly.  Performing the bulk-disable
/// writes on a memory consistent with every entry leaves, at every
/// instrumented address, the word captured at that entry's creation, and
/// touches no other address.
pub proof fn lemma_disable_all_restores(s: Seq<Breakpoint>, m: Map<u64, u64>)
    requires
        forall|i: int, j: int|
            0 <= i < j < s.len() ==> (#[trigger] s[i]).pc != (#[trigger] s[j]).pc,
        forall|i: int| 0 <= i < s.len() ==> (#[trigger] s[i]).consistent_with(m),
    ensures
        forall|i: int| 0 <= i < s.len() ==> {
            let m2 = mem_after_plan(m, disable_writes(s));
            m2.contains_key((#[trigger] s[i]).pc) && m2[s[i].pc] == s[i].original_word()
        },
        forall|a: u64| !has_addr(s, a) ==> {
            let m2 = mem_after_plan(m, disable_writes(s));
            &&& (m2.contains_key(a) <==> m.contains_key(a))
            &&& (m.contains_key(a) ==> m2[a] == m[a])
        },
    decreases s.len(),
{
    if s.len() > 0 {
        let pre = s.drop_last();
        let last = s.last();
        assert(forall|i: int| 0 <= i < pre.len() ==> pre[i] == s[i]);
        lemma_disable_all_restores(pre, m);
        let m1 = mem_after_plan(m, disable_writes(pre));
        let m2 = mem_after_plan(m, disable_writes(s));
        assert(!has_addr(pre, last.pc)) by {
            assert(forall|k: int| 0 <= k < pre.len()
                ==> (#[trigger] pre[k]).pc != last.pc);
        }
        assert forall|a: u64| !has_addr(s, a) implies !has_addr(pre, a) && a != last.pc by {
            assert(s[s.len() - 1].pc == last.pc);
            if has_addr(pre, a) {
                let k = choose|k: int| 0 <= k < pre.len() && (#[trigger] pre[k]).pc == a;
                assert(s[k].pc == a);
            }
        }
        if last.enabled {
            let w = Action::WriteWord { addr: last.pc, value: last.original_word() };
            assert(disable_writes(s) =~= disable_writes(pre).push(w));
            lemma_mem_after_plan_push(m, disable_writes(pre), w);
            assert(m2 == m1.insert(last.pc, last.original_word()));
        } else {
            assert(disable_writes(s) =~= disable_writes(pre));
            assert(m2 == m1);
            assert(last.consistent_with(m));
            assert(m1.contains_key(last.pc) && m1[last.pc] == m[last.pc]);
        }
        assert forall|i: int| 0 <= i < s.len() implies m2.contains_key((#[trigger] s[i]).pc)
            && m2[s[i].pc] == s[i].original_word() by {
            if i < s.len() - 1 {
                assert(pre[i] == s[i]);
                assert(s[i].pc != last.pc);
            }
        }
    }
}

/// `resolve` finds what `insert` stored: inserting an address makes it
/// resolvable, and an address no insertion ever mentioned stays
/// unresolvable.  Stated over the table's entries: membership after a push
/// of a fresh address, and absence for foreign addresses.
pub proof fn lemma_insert_then_resolve(s: Seq<Breakpoint>, bp: Breakpoint, a: u64)
    requires
        !has_addr(s, bp.pc),
    ensures
        has_addr(s.push(bp), bp.pc),
        a != bp.pc && !has_addr(s, a) ==> !has_addr(s.push(bp), a),
{
    assert(s.push(bp)[s.len() as int] == bp);
    if a != bp.pc && !has_addr(s, a) {
        assert forall|i: int| 0 <= i < s.push(bp).len() implies (#[trigger] s.push(bp)[i]).pc != a
        by {
            if i < s.len() {
                assert(s.push(bp)[i] == s[i]);
            }
        }
    }
}

} // verus!
