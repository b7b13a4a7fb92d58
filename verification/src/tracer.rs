//! The checkpoint that the emulation core calls while it runs a unit of work.
//!
//! Every time is a reading of the debugger's clock, in nanoseconds.

use crate::debugger::Debugger;
use crate::tables::DebuggerView;
use crate::event::{AccessKind, MemAccess, TraceEvent, TraceEventView};
use vstd::prelude::*;

verus! {

/// The signal that a checkpoint's result carries: none where it let the work
/// go on.
pub open spec fn signal_of(r: Result<(), TraceEvent>) -> Option<TraceEventView> {
    match r {
        Ok(_) => None,
        Err(e) => Some(e@),
    }
}

/// A read-only handle on the debugger's tables and poll deadline, made afresh
/// for each unit of work. It keeps no state of its own between checkpoints.
pub struct Tracer<'a> {
    dbg: Option<&'a Debugger>,
}

impl<'a> View for Tracer<'a> {
    type V = DebuggerView;

    closed spec fn view(&self) -> DebuggerView {
        match self.dbg {
            Some(dbg) => dbg@,
            None => DebuggerView::empty(),
        }
    }
}

impl Debugger {
    /// A tracer over the tables and the poll deadline as they are now.
    pub fn new_tracer(&self) -> (tracer: Tracer<'_>)
        ensures
            tracer@ == self@,
    {
        Tracer { dbg: Some(self) }
    }
}

impl<'a> Tracer<'a> {
    /// A tracer that never raises a signal.
    pub fn null() -> (tracer: Tracer<'a>)
        ensures
            tracer@ == DebuggerView::empty(),
    {
        Tracer { dbg: None }
    }

    fn pause_signal(&self, cpu: &str, pc: u64, access: Option<MemAccess>) -> (r: Option<TraceEvent>)
        ensures
            match r {
                Some(e) => self@.pause_signal(cpu@, pc, access) == Some(e@),
                None => self@.pause_signal(cpu@, pc, access) is None,
            },
    {
        let dbg = match self.dbg {
            Some(dbg) => dbg,
            None => {
                return None;
            },
        };
        match dbg.breakpoint(cpu, pc) {
            Some(state) => {
                if state.enabled {
                    if state.one_shot {
                        return Some(TraceEvent::BreakpointOneShot(cpu.to_owned(), pc));
                    }
                    let kind = match access {
                        Some(a) => Some(a.kind),
                        None => None,
                    };
                    return Some(TraceEvent::Breakpoint(cpu.to_owned(), pc, kind));
                }
            },
            None => {},
        }
        match access {
            Some(a) => {
                if dbg.is_watched(cpu, a.addr, a.kind) {
                    match a.kind {
                        AccessKind::Read => Some(TraceEvent::WatchpointRead(cpu.to_owned(), a.addr)),
                        AccessKind::Write => Some(
                            TraceEvent::WatchpointWrite(cpu.to_owned(), a.addr),
                        ),
                    }
                } else {
                    None
                }
            },
            None => None,
        }
    }

    /// The checkpoint, taken at the time `now`: the unit of work goes on where
    /// the result is `Ok`, and ends with the signal where it is `Err`.
    pub fn checkpoint(&self, cpu: &str, pc: u64, access: Option<MemAccess>, now: u64) -> (r: Result<
        (),
        TraceEvent,
    >)
        ensures
            signal_of(r) == self@.checkpoint(cpu@, pc, access, now),
    {
        match self.pause_signal(cpu, pc, access) {
            Some(e) => Err(e),
            None => {
                let due = match self.dbg {
                    Some(dbg) => match dbg.poll_deadline() {
                        Some(deadline) => now >= deadline,
                        None => false,
                    },
                    None => false,
                };
                if due {
                    Err(TraceEvent::Poll)
                } else {
                    Ok(())
                }
            },
        }
    }

    /// The checkpoint, taken at whatever time the debugger's clock shows once
    /// no pausing signal was found.
    fn checkpoint_now(&self, cpu: &str, pc: u64, access: Option<MemAccess>) -> (r: Result<
        (),
        TraceEvent,
    >)
        ensures
            exists|now: u64| signal_of(r) == self@.checkpoint(cpu@, pc, access, now),
    {
        match self.pause_signal(cpu, pc, access) {
            Some(e) => {
                assert(signal_of(Err(e)) == self@.checkpoint(cpu@, pc, access, 0));
                Err(e)
            },
            None => {
                let dbg = match self.dbg {
                    Some(dbg) => dbg,
                    None => {
                        assert(signal_of(Ok(())) == self@.checkpoint(cpu@, pc, access, 0));
                        return Ok(());
                    },
                };
                match dbg.poll_deadline() {
                    Some(_) => {
                        let now = dbg.now();
                        self.checkpoint(cpu, pc, access, now)
                    },
                    None => {
                        assert(signal_of(Ok(())) == self@.checkpoint(cpu@, pc, access, 0));
                        Ok(())
                    },
                }
            },
        }
    }

    /// To be called before `cpu` executes the instruction at `pc`.
    pub fn trace_insn(&self, cpu: &str, pc: u64) -> (r: Result<(), TraceEvent>)
        ensures
            exists|now: u64| signal_of(r) == self@.checkpoint(cpu@, pc, None, now),
    {
        self.checkpoint_now(cpu, pc, None)
    }

    /// To be called when the instruction of `cpu` at `pc` reads from `addr`.
    pub fn trace_mem_read(&self, cpu: &str, pc: u64, addr: u64) -> (r: Result<(), TraceEvent>)
        ensures
            exists|now: u64|
                signal_of(r) == self@.checkpoint(
                    cpu@,
                    pc,
                    Some(MemAccess { addr, kind: AccessKind::Read }),
                    now,
                ),
    {
        self.checkpoint_now(cpu, pc, Some(MemAccess { addr, kind: AccessKind::Read }))
    }

    /// To be called when the instruction of `cpu` at `pc` writes to `addr`.
    pub fn trace_mem_write(&self, cpu: &str, pc: u64, addr: u64) -> (r: Result<(), TraceEvent>)
        ensures
            exists|now: u64|
                signal_of(r) == self@.checkpoint(
                    cpu@,
                    pc,
                    Some(MemAccess { addr, kind: AccessKind::Write }),
                    now,
                ),
    {
        self.checkpoint_now(cpu, pc, Some(MemAccess { addr, kind: AccessKind::Write }))
    }
}

/// One call of the checkpoint, as a unit of work makes it.
pub struct Probe {
    pub cpu: Seq<char>,
    pub pc: u64,
    pub access: Option<MemAccess>,
    pub now: u64,
}

impl DebuggerView {
    /// The signal that the checkpoint raises on the call `p`, if any.
    pub open spec fn probe(self, p: Probe) -> Option<TraceEventView> {
        self.checkpoint(p.cpu, p.pc, p.access, p.now)
    }

    /// Where a unit of work stops that makes the calls `probes[from..]` in
    /// turn and ends with the first signal: the index of the call that raises
    /// it, or `probes.len()` where the work runs to completion.
    pub open spec fn stops_at(self, probes: Seq<Probe>, from: nat) -> nat
        decreases probes.len() - from,
    {
        if from >= probes.len() {
            probes.len()
        } else if self.probe(probes[from as int]) is Some {
            from
        } else {
            self.stops_at(probes, from + 1)
        }
    }
}

/// A pausing signal does not depend on the time or on the poll deadline: a
/// breakpoint that is reached just as the deadline passes is reported as a
/// breakpoint, never as `Poll`. And `Poll` is raised only where nothing
/// pauses.
pub proof fn lemma_pause_outranks_poll(
    tables: DebuggerView,
    deadline: Option<u64>,
    cpu: Seq<char>,
    pc: u64,
    access: Option<MemAccess>,
    now: u64,
)
    ensures
        tables.pause_signal(cpu, pc, access) is Some ==> tables.with_poll_deadline(
            deadline,
        ).checkpoint(cpu, pc, access, now) == tables.pause_signal(cpu, pc, access),
        tables.with_poll_deadline(deadline).checkpoint(cpu, pc, access, now) == Some(
            TraceEventView::Poll,
        ) ==> tables.pause_signal(cpu, pc, access) is None && deadline is Some && now
            >= deadline->0,
        tables.pause_signal(cpu, pc, access) is None && deadline is Some && now >= deadline->0
            ==> tables.with_poll_deadline(deadline).checkpoint(cpu, pc, access, now) == Some(
            TraceEventView::Poll,
        ),
{
}

/// A run stops at or after its start, at a call that raises a signal unless
/// it is complete.
proof fn lemma_stops_at_bounds(t: DebuggerView, probes: Seq<Probe>, from: nat)
    requires
        from <= probes.len(),
    ensures
        from <= t.stops_at(probes, from) <= probes.len(),
        t.stops_at(probes, from) < probes.len() ==> t.probe(
            probes[t.stops_at(probes, from) as int],
        ) is Some,
    decreases probes.len() - from,
{
    if from < probes.len() && t.probe(probes[from as int]) is None {
        lemma_stops_at_bounds(t, probes, from + 1);
    }
}

/// A run under a poll deadline stops no later than the run without one, and
/// where it ends otherwise than with `Poll`, it ends exactly where and as the
/// run without a deadline does.
proof fn lemma_stops_no_later(
    tables: DebuggerView,
    deadline: Option<u64>,
    probes: Seq<Probe>,
    from: nat,
)
    ensures
        ({
            let timed = tables.with_poll_deadline(deadline);
            let free = tables.with_poll_deadline(None);
            let s = timed.stops_at(probes, from);
            let u = free.stops_at(probes, from);
            &&& from <= probes.len() ==> from <= s <= u <= probes.len()
            &&& s < probes.len() && timed.probe(probes[s as int]) != Some(TraceEventView::Poll)
                ==> s == u && timed.probe(probes[s as int]) == free.probe(probes[u as int])
            &&& s < probes.len() ==> timed.probe(probes[s as int]) is Some
            &&& s >= probes.len() ==> u == s
        }),
    decreases probes.len() - from,
{
    let timed = tables.with_poll_deadline(deadline);
    let free = tables.with_poll_deadline(None);
    if from < probes.len() {
        if timed.probe(probes[from as int]) is None {
            lemma_stops_no_later(tables, deadline, probes, from + 1);
        } else {
            lemma_stops_at_bounds(free, probes, from);
        }
    }
}

/// Between the start of a run and the place where it stops, every place is
/// one from which the run stops at that same place.
proof fn lemma_stops_at_from_between(t: DebuggerView, probes: Seq<Probe>, from: nat, mid: nat)
    requires
        from <= mid <= t.stops_at(probes, from),
    ensures
        t.stops_at(probes, mid) == t.stops_at(probes, from),
    decreases mid - from,
{
    if from < mid {
        lemma_stops_at_from_between(t, probes, from + 1, mid);
    }
}

/// Resumption after `Poll`. Let a unit of work make the calls `probes[from..]`
/// and be cut short by `Poll` at the call `k`, and let it be taken up again at
/// that same call under another poll deadline. Then the second run stops no
/// later than a run from `from` that was never interrupted; and where the
/// second run ends with a pausing signal, or is complete, the uninterrupted
/// run ends at the same call with the same result. No breakpoint and no
/// watchpoint between `from` and there is lost or reported twice.
pub proof fn lemma_resume_after_poll(
    tables: DebuggerView,
    first_deadline: Option<u64>,
    second_deadline: Option<u64>,
    probes: Seq<Probe>,
    from: nat,
)
    requires
        from <= probes.len(),
        ({
            let first = tables.with_poll_deadline(first_deadline);
            let k = first.stops_at(probes, from);
            k < probes.len() && first.probe(probes[k as int]) == Some(TraceEventView::Poll)
        }),
    ensures
        ({
            let first = tables.with_poll_deadline(first_deadline);
            let second = tables.with_poll_deadline(second_deadline);
            let free = tables.with_poll_deadline(None);
            let k = first.stops_at(probes, from);
            let j = second.stops_at(probes, k);
            let u = free.stops_at(probes, from);
            &&& from <= k <= j <= u <= probes.len()
            &&& j < probes.len() && second.probe(probes[j as int]) != Some(TraceEventView::Poll)
                ==> j == u && second.probe(probes[j as int]) == free.probe(probes[u as int])
            &&& j == probes.len() ==> u == probes.len()
        }),
{
    let first = tables.with_poll_deadline(first_deadline);
    let free = tables.with_poll_deadline(None);
    let k = first.stops_at(probes, from);
    lemma_stops_no_later(tables, first_deadline, probes, from);
    lemma_stops_at_from_between(free, probes, from, k);
    lemma_stops_no_later(tables, second_deadline, probes, k);
}

} // verus!
