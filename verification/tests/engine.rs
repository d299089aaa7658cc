//! End-to-end behaviour of the breakpoint engine, run against a small
//! simulated target: a word-addressed memory, a program counter, and a log
//! of resumes, forwarded signals and emitted hit events.

use tracepoint::actions::Action;
use tracepoint::arch::{patched_word, TRAP_OPCODE, TRAP_WIDTH};
use tracepoint::breakpoint::Breakpoint;
use tracepoint::errors::TraceError;
use tracepoint::session::SessionStatus;
use tracepoint::table::BreakpointTable;
use tracepoint::tracer::{StopEvent, TraceLoop, KILL_SIGNAL, TRAP_SIGNAL};

/// A simulated stopped target, every instruction one byte wide.
struct Machine {
    mem: Vec<(u64, u64)>,
    pc: u64,
    hits: Vec<(u64, u64)>,
    forwarded: Vec<i32>,
    resumes: u32,
}

impl Machine {
    fn new(cells: &[(u64, u64)]) -> Machine {
        Machine { mem: cells.to_vec(), pc: 0, hits: Vec::new(), forwarded: Vec::new(), resumes: 0 }
    }

    fn read(&self, addr: u64) -> u64 {
        for &(a, v) in &self.mem {
            if a == addr {
                return v;
            }
        }
        panic!("read of an unmapped address");
    }

    fn write(&mut self, addr: u64, value: u64) {
        for cell in &mut self.mem {
            if cell.0 == addr {
                cell.1 = value;
                return;
            }
        }
        self.mem.push((addr, value));
    }

    fn apply_all(&mut self, plan: &[Action]) {
        for a in plan {
            match *a {
                Action::WriteWord { addr, value } => self.write(addr, value),
                Action::SetProgramCounter { value } => self.pc = value,
                Action::SingleStepAndWait => self.pc = self.pc.wrapping_add(1),
                Action::ContinueRun => self.resumes += 1,
                Action::ContinueWithSignal { signal } => self.forwarded.push(signal),
                Action::EmitHit { pid, addr, seq } => {
                    assert_eq!(pid, 7);
                    self.hits.push((addr, seq));
                }
            }
        }
    }
}

const ADDR: u64 = 0x401000;
const ORIGINAL: u64 = 0x1122334455667788;
const PATCHED: u64 = 0x11223344556677CC;

#[test]
fn patched_word_formula() {
    assert_eq!(patched_word(ORIGINAL), PATCHED);
    assert_eq!(patched_word(0), 0xCC);
    assert_eq!(patched_word(u64::MAX), 0xFFFF_FFFF_FFFF_FFCC);
    assert_eq!(TRAP_OPCODE, 0xCC);
    assert_eq!(TRAP_WIDTH, 1);
}

#[test]
fn create_patches_then_disable_restores() {
    let mut machine = Machine::new(&[(ADDR, ORIGINAL)]);
    let word = machine.read(ADDR);
    let (mut bp, patch) = Breakpoint::new(7, ADDR, word);
    machine.apply_all(&[patch]);
    assert_eq!(machine.read(ADDR), PATCHED);
    assert!(bp.enabled);
    assert_eq!(bp.saved_word(), ORIGINAL);

    let restore = bp.disable();
    machine.apply_all(&[restore]);
    assert_eq!(machine.read(ADDR), ORIGINAL);
    assert!(!bp.enabled);
}

#[test]
fn trap_byte_tracks_enabled_state() {
    let mut machine = Machine::new(&[(ADDR, ORIGINAL)]);
    let (mut bp, patch) = Breakpoint::new(7, ADDR, machine.read(ADDR));
    machine.apply_all(&[patch]);
    for _ in 0..3 {
        assert!(bp.enabled);
        assert_eq!(machine.read(ADDR) & 0xFF, TRAP_OPCODE as u64);
        let w = bp.disable();
        machine.apply_all(&[w]);
        assert!(!bp.enabled);
        assert_ne!(machine.read(ADDR) & 0xFF, TRAP_OPCODE as u64);
        assert_eq!(machine.read(ADDR), ORIGINAL);
        let w = bp.enable();
        machine.apply_all(&[w]);
    }
    assert_eq!(machine.read(ADDR), PATCHED);
}

#[test]
fn step_plan_runs_one_instruction_and_reenables() {
    let mut machine = Machine::new(&[(ADDR, ORIGINAL)]);
    let (mut bp, patch) = Breakpoint::new(7, ADDR, machine.read(ADDR));
    machine.apply_all(&[patch]);
    machine.pc = ADDR + TRAP_WIDTH;

    let plan = bp.step();
    machine.apply_all(&plan);
    assert_eq!(machine.pc, ADDR + 1);
    assert_eq!(machine.read(ADDR), ORIGINAL);
    assert!(!bp.enabled);

    let reenable = bp.enable();
    machine.apply_all(&[reenable]);
    assert_eq!(machine.read(ADDR), PATCHED);
    assert!(bp.enabled);
}

#[test]
fn resolve_finds_inserted_addresses_only() {
    let mut table = BreakpointTable::new(7);
    let (i0, w0) = table.insert(ADDR, ORIGINAL);
    let (i1, w1) = table.insert(0x402000, 0xAABBCCDDEEFF0011);
    assert!(w0.is_some());
    assert!(w1.is_some());

    let r0 = table.resolve(ADDR).expect("inserted address must resolve");
    assert_eq!(r0, i0);
    assert_eq!(table.entry(r0).pc, ADDR);
    assert_eq!(table.entry(r0).saved_word(), ORIGINAL);

    let r1 = table.resolve(0x402000).expect("inserted address must resolve");
    assert_eq!(r1, i1);
    assert_eq!(table.entry(r1).pc, 0x402000);

    assert_eq!(table.resolve(0x403000), None);
    assert_eq!(table.resolve(ADDR + 1), None);
}

#[test]
fn insert_is_idempotent() {
    let mut table = BreakpointTable::new(7);
    let (i0, w0) = table.insert(ADDR, ORIGINAL);
    assert!(w0.is_some());
    let (i1, w1) = table.insert(ADDR, ORIGINAL);
    assert!(w1.is_none());
    assert_eq!(i0, i1);
    assert_eq!(table.len(), 1);
}

#[test]
fn unknown_trap_error_for_foreign_address() {
    let mut table = BreakpointTable::new(7);
    table.insert(ADDR, ORIGINAL);
    let err = table.resolve_required(0x999999).unwrap_err();
    assert_eq!(err, TraceError::UnknownTrap { addr: 0x999999 });
    assert!(table.resolve_required(ADDR).is_ok());
}

#[test]
fn bulk_disable_and_enable() {
    let mut machine = Machine::new(&[(ADDR, ORIGINAL), (0x402000, 0xAABBCCDDEEFF0011)]);
    let mut table = BreakpointTable::new(7);
    for &(a, _) in &[(ADDR, 0u64), (0x402000, 0)] {
        let word = machine.read(a);
        let (_, w) = table.insert(a, word);
        machine.apply_all(&[w.expect("fresh address")]);
    }
    assert_eq!(machine.read(ADDR), PATCHED);

    let writes = table.disable_all();
    assert_eq!(writes.len(), 2);
    machine.apply_all(&writes);
    assert_eq!(machine.read(ADDR), ORIGINAL);
    assert_eq!(machine.read(0x402000), 0xAABBCCDDEEFF0011);

    let writes = table.enable_all();
    assert_eq!(writes.len(), 2);
    machine.apply_all(&writes);
    assert_eq!(machine.read(ADDR) & 0xFF, TRAP_OPCODE as u64);
    assert_eq!(machine.read(0x402000) & 0xFF, TRAP_OPCODE as u64);
}

#[test]
fn hit_at_instrumented_address_yields_one_event() {
    let mut machine = Machine::new(&[(ADDR, ORIGINAL)]);
    let mut tracer = TraceLoop::new(7);

    let word = machine.read(ADDR);
    let patch = tracer.instrument(ADDR, word).expect("process is live").expect("fresh address");
    machine.apply_all(&[patch]);
    assert_eq!(machine.read(ADDR), PATCHED);

    machine.apply_all(&tracer.resume().expect("process is live"));
    assert_eq!(machine.resumes, 1);

    // The trap executed: the target stops one opcode width past the address.
    machine.pc = ADDR + TRAP_WIDTH;
    let plan = tracer.on_stop(StopEvent::BreakpointTrap { pc: machine.pc }).expect(
        "process is live",
    );
    machine.apply_all(&plan);

    // One real instruction ran: the program counter is back past the address.
    assert_eq!(machine.pc, ADDR + 1);
    // The address is re-patched before the resume, so the next pass traps too.
    assert_eq!(machine.read(ADDR), PATCHED);
    assert_eq!(machine.resumes, 2);
    assert_eq!(machine.hits, vec![(ADDR, 0)]);

    // A second pass through the same address yields the next event.
    let plan = tracer.on_stop(StopEvent::BreakpointTrap { pc: ADDR + TRAP_WIDTH }).expect(
        "process is live",
    );
    machine.apply_all(&plan);
    assert_eq!(machine.hits, vec![(ADDR, 0), (ADDR, 1)]);
    assert_eq!(machine.read(ADDR), PATCHED);
}

#[test]
fn foreign_trap_is_forwarded_untouched() {
    let mut machine = Machine::new(&[(ADDR, ORIGINAL)]);
    let mut tracer = TraceLoop::new(7);
    let patch = tracer.instrument(ADDR, machine.read(ADDR)).unwrap().unwrap();
    machine.apply_all(&[patch]);
    machine.apply_all(&tracer.resume().unwrap());

    let plan = tracer.on_stop(StopEvent::BreakpointTrap { pc: 0x500000 }).expect(
        "process is live",
    );
    assert_eq!(plan, vec![Action::ContinueWithSignal { signal: TRAP_SIGNAL }]);
    machine.apply_all(&plan);

    assert!(machine.hits.is_empty());
    assert_eq!(machine.forwarded, vec![TRAP_SIGNAL]);
    assert_eq!(machine.read(ADDR), PATCHED);
    assert_eq!(tracer.table.resolve(ADDR).is_some(), true);
}

#[test]
fn ordinary_signal_is_forwarded() {
    let mut tracer = TraceLoop::new(7);
    tracer.resume().unwrap();
    let plan = tracer.on_stop(StopEvent::SignalStop { signal: 11 }).unwrap();
    assert_eq!(plan, vec![Action::ContinueWithSignal { signal: 11 }]);
    assert_eq!(tracer.session.status, SessionStatus::Running);
}

#[test]
fn terminating_signal_tears_down_and_restores() {
    let mut machine = Machine::new(&[(ADDR, ORIGINAL)]);
    let mut tracer = TraceLoop::new(7);
    let patch = tracer.instrument(ADDR, machine.read(ADDR)).unwrap().unwrap();
    machine.apply_all(&[patch]);
    machine.apply_all(&tracer.resume().unwrap());

    let plan = tracer.on_stop(StopEvent::SignalStop { signal: KILL_SIGNAL }).unwrap();
    machine.apply_all(&plan);
    assert_eq!(machine.read(ADDR), ORIGINAL);
    assert_eq!(machine.forwarded, vec![KILL_SIGNAL]);
    assert_eq!(tracer.session.status, SessionStatus::Exited);
    assert_eq!(tracer.table.len(), 0);
}

#[test]
fn operations_after_exit_fail() {
    let mut tracer = TraceLoop::new(7);
    let patch = tracer.instrument(ADDR, ORIGINAL).unwrap().unwrap();
    let _ = patch;
    tracer.resume().unwrap();

    let plan = tracer.on_stop(StopEvent::ProcessExit { code: 0 }).unwrap();
    assert!(plan.is_empty());
    assert_eq!(tracer.session.status, SessionStatus::Exited);
    // The table reports itself empty after teardown.
    assert_eq!(tracer.table.len(), 0);

    assert_eq!(tracer.instrument(0x402000, 0).unwrap_err(), TraceError::ProcessExited);
    assert_eq!(tracer.resume().unwrap_err(), TraceError::ProcessExited);
    assert_eq!(
        tracer.on_stop(StopEvent::SignalStop { signal: 11 }).unwrap_err(),
        TraceError::ProcessExited,
    );
}

#[test]
fn hit_sequence_stops_at_the_ceiling() {
    let mut machine = Machine::new(&[(ADDR, ORIGINAL)]);
    let mut tracer = TraceLoop::new(7);
    let patch = tracer.instrument(ADDR, machine.read(ADDR)).unwrap().unwrap();
    machine.apply_all(&[patch]);
    machine.apply_all(&tracer.resume().unwrap());

    tracer.next_seq = u64::MAX;
    let plan = tracer.on_stop(StopEvent::BreakpointTrap { pc: ADDR + TRAP_WIDTH }).unwrap();
    machine.apply_all(&plan);
    assert_eq!(machine.hits, vec![(ADDR, u64::MAX)]);
    assert_eq!(tracer.next_seq, u64::MAX);
}

#[test]
fn disable_all_keeps_entries_but_disables_them() {
    let mut table = BreakpointTable::new(7);
    table.insert(ADDR, ORIGINAL);
    table.insert(0x402000, 0xAABBCCDDEEFF0011);
    let writes = table.disable_all();
    assert_eq!(writes.len(), 2);
    assert_eq!(table.len(), 2);
    for i in 0..table.len() {
        assert!(!table.entry(i).enabled);
    }
    // Addresses still resolve: the entries were disabled, not dropped.
    assert!(table.resolve(ADDR).is_some());
    // A second bulk disable finds nothing left to write.
    let writes = table.disable_all();
    assert!(writes.is_empty());
}

#[test]
fn killed_target_tears_down() {
    let mut tracer = TraceLoop::new(7);
    tracer.instrument(ADDR, ORIGINAL).unwrap();
    tracer.resume().unwrap();
    let plan = tracer.on_stop(StopEvent::ProcessKilled { signal: 9 }).unwrap();
    assert!(plan.is_empty());
    assert_eq!(tracer.session.status, SessionStatus::Exited);
    assert_eq!(tracer.table.len(), 0);
}
