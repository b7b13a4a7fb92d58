//! The breakpoint and watchpoint tables as mathematical values: what a
//! checkpoint makes of them, how they change, and what holds of every change.

use crate::event::{AccessKind, MemAccess, TraceEventView};
use vstd::prelude::*;

verus! {

/// What the table holds for one CPU and address.
#[derive(Clone, Copy, Debug, PartialEq, Eq, Structural)]
pub struct BreakpointState {
    /// A disabled entry never fires.
    pub enabled: bool,
    /// A one-shot entry leaves the table as soon as the emulation pauses.
    pub one_shot: bool,
}

/// Mathematical value of a [`Debugger`].
pub struct DebuggerView {
    /// The breakpoint table, keyed by CPU name and address.
    pub breakpoints: Map<(Seq<char>, u64), BreakpointState>,
    /// The watched accesses: CPU name, address and direction.
    pub watchpoints: Set<(Seq<char>, u64, AccessKind)>,
    /// The time from which checkpoints raise `Poll`, if one is set.
    pub poll_deadline: Option<u64>,
}

impl DebuggerView {
    /// Empty tables and no poll deadline.
    pub open spec fn empty() -> Self {
        DebuggerView {
            breakpoints: Map::empty(),
            watchpoints: Set::empty(),
            poll_deadline: None,
        }
    }

    /// Whether an enabled entry exists for `cpu` at `addr`.
    pub open spec fn enabled_at(self, cpu: Seq<char>, addr: u64) -> bool {
        self.breakpoints.dom().contains((cpu, addr)) && self.breakpoints[(cpu, addr)].enabled
    }

    /// The pausing signal that a checkpoint of `cpu` at `pc` raises, if any:
    /// an enabled breakpoint at `pc` comes first, as `BreakpointOneShot` where
    /// the entry is one-shot; else a watched access, where one is reported.
    pub open spec fn pause_signal(
        self,
        cpu: Seq<char>,
        pc: u64,
        access: Option<MemAccess>,
    ) -> Option<TraceEventView> {
        if self.enabled_at(cpu, pc) {
            if self.breakpoints[(cpu, pc)].one_shot {
                Some(TraceEventView::BreakpointOneShot(cpu, pc))
            } else {
                Some(
                    TraceEventView::Breakpoint(
                        cpu,
                        pc,
                        match access {
                            Some(a) => Some(a.kind),
                            None => None,
                        },
                    ),
                )
            }
        } else {
            match access {
                Some(a) => if self.watchpoints.contains((cpu, a.addr, a.kind)) {
                    Some(
                        match a.kind {
                            AccessKind::Read => TraceEventView::WatchpointRead(cpu, a.addr),
                            AccessKind::Write => TraceEventView::WatchpointWrite(cpu, a.addr),
                        },
                    )
                } else {
                    None
                },
                None => None,
            }
        }
    }

    /// Whether the poll deadline has been reached at the time `now`.
    pub open spec fn poll_due(self, now: u64) -> bool {
        match self.poll_deadline {
            Some(deadline) => now >= deadline,
            None => false,
        }
    }

    /// The signal with which a checkpoint of `cpu` at `pc`, taken at the time
    /// `now`, aborts the unit of work; `None` where the work goes on. A pausing
    /// signal comes before `Poll`.
    pub open spec fn checkpoint(
        self,
        cpu: Seq<char>,
        pc: u64,
        access: Option<MemAccess>,
        now: u64,
    ) -> Option<TraceEventView> {
        match self.pause_signal(cpu, pc, access) {
            Some(signal) => Some(signal),
            None => if self.poll_due(now) {
                Some(TraceEventView::Poll)
            } else {
                None
            },
        }
    }

    /// Whether a one-shot entry exists for `cpu` at `addr`.
    pub open spec fn oneshot_at(self, cpu: Seq<char>, addr: u64) -> bool {
        self.breakpoints.dom().contains((cpu, addr)) && self.breakpoints[(cpu, addr)].one_shot
    }

    /// No CPU has more than one one-shot entry.
    pub open spec fn wf(self) -> bool {
        forall|cpu: Seq<char>, a: u64, b: u64|
            #[trigger] self.oneshot_at(cpu, a) && #[trigger] self.oneshot_at(cpu, b) ==> a == b
    }

    /// The keys of the one-shot entries of `cpu`.
    pub open spec fn oneshots_of(self, cpu: Seq<char>) -> Set<(Seq<char>, u64)> {
        Set::new(|k: (Seq<char>, u64)| k.0 == cpu && self.oneshot_at(k.0, k.1))
    }

    /// The keys of all one-shot entries.
    pub open spec fn oneshots(self) -> Set<(Seq<char>, u64)> {
        Set::new(|k: (Seq<char>, u64)| self.oneshot_at(k.0, k.1))
    }

    /// The table with a persistent entry for `cpu` at `addr`, in place of
    /// whatever it held there.
    pub open spec fn with_breakpoint(self, cpu: Seq<char>, addr: u64, enabled: bool) -> Self {
        DebuggerView {
            breakpoints: self.breakpoints.insert(
                (cpu, addr),
                BreakpointState { enabled, one_shot: false },
            ),
            ..self
        }
    }

    /// The table without an entry for `cpu` at `addr`.
    pub open spec fn without_breakpoint(self, cpu: Seq<char>, addr: u64) -> Self {
        DebuggerView { breakpoints: self.breakpoints.remove((cpu, addr)), ..self }
    }

    /// The table without the one-shot entry of `cpu`.
    pub open spec fn without_oneshot_of(self, cpu: Seq<char>) -> Self {
        DebuggerView { breakpoints: self.breakpoints.remove_keys(self.oneshots_of(cpu)), ..self }
    }

    /// The table with `cpu`'s one-shot entry at `addr`, enabled, in place of any
    /// earlier one-shot entry of `cpu` and of whatever the table held at `addr`.
    pub open spec fn with_oneshot(self, cpu: Seq<char>, addr: u64) -> Self {
        DebuggerView {
            breakpoints: self.breakpoints.remove_keys(self.oneshots_of(cpu)).insert(
                (cpu, addr),
                BreakpointState { enabled: true, one_shot: true },
            ),
            ..self
        }
    }

    /// The table without any one-shot entry.
    pub open spec fn without_oneshots(self) -> Self {
        DebuggerView { breakpoints: self.breakpoints.remove_keys(self.oneshots()), ..self }
    }

    /// The same tables with another poll deadline.
    pub open spec fn with_poll_deadline(self, deadline: Option<u64>) -> Self {
        DebuggerView { poll_deadline: deadline, ..self }
    }

    /// The same tables, with one more watched access.
    pub open spec fn with_watchpoint(self, cpu: Seq<char>, addr: u64, kind: AccessKind) -> Self {
        DebuggerView { watchpoints: self.watchpoints.insert((cpu, addr, kind)), ..self }
    }

    /// The same tables, with no watched access.
    pub open spec fn without_watchpoints(self) -> Self {
        DebuggerView { watchpoints: Set::empty(), ..self }
    }
}

/// Every change that the debugger makes to its tables keeps at most one
/// one-shot entry for each CPU.
pub proof fn lemma_changes_keep_wf(
    d: DebuggerView,
    cpu: Seq<char>,
    addr: u64,
    enabled: bool,
    kind: AccessKind,
    deadline: Option<u64>,
)
    requires
        d.wf(),
    ensures
        d.with_breakpoint(cpu, addr, enabled).wf(),
        d.without_breakpoint(cpu, addr).wf(),
        d.with_oneshot(cpu, addr).wf(),
        d.without_oneshot_of(cpu).wf(),
        d.without_oneshots().wf(),
        d.with_watchpoint(cpu, addr, kind).wf(),
        d.without_watchpoints().wf(),
        d.with_poll_deadline(deadline).wf(),
{
    let w = d.with_watchpoint(cpu, addr, kind);
    assert forall|c: Seq<char>, x: u64, y: u64| #[trigger]
        w.oneshot_at(c, x) && #[trigger] w.oneshot_at(c, y) implies x == y by {
        assert(d.oneshot_at(c, x) && d.oneshot_at(c, y));
    }
    let v = d.without_watchpoints();
    assert forall|c: Seq<char>, x: u64, y: u64| #[trigger]
        v.oneshot_at(c, x) && #[trigger] v.oneshot_at(c, y) implies x == y by {
        assert(d.oneshot_at(c, x) && d.oneshot_at(c, y));
    }
    let p = d.with_poll_deadline(deadline);
    assert forall|c: Seq<char>, x: u64, y: u64| #[trigger]
        p.oneshot_at(c, x) && #[trigger] p.oneshot_at(c, y) implies x == y by {
        assert(d.oneshot_at(c, x) && d.oneshot_at(c, y));
    }
    let a = d.with_breakpoint(cpu, addr, enabled);
    assert forall|c: Seq<char>, x: u64, y: u64| #[trigger]
        a.oneshot_at(c, x) && #[trigger] a.oneshot_at(c, y) implies x == y by {
        assert(d.oneshot_at(c, x) && d.oneshot_at(c, y));
    }
    let b = d.without_breakpoint(cpu, addr);
    assert forall|c: Seq<char>, x: u64, y: u64| #[trigger]
        b.oneshot_at(c, x) && #[trigger] b.oneshot_at(c, y) implies x == y by {
        assert(d.oneshot_at(c, x) && d.oneshot_at(c, y));
    }
    let e = d.with_oneshot(cpu, addr);
    assert forall|c: Seq<char>, x: u64, y: u64| #[trigger]
        e.oneshot_at(c, x) && #[trigger] e.oneshot_at(c, y) implies x == y by {
        if c == cpu {
            assert(x == addr || d.oneshots_of(cpu).contains((c, x)));
            assert(y == addr || d.oneshots_of(cpu).contains((c, y)));
        } else {
            assert(d.oneshot_at(c, x) && d.oneshot_at(c, y));
        }
    }
    let f = d.without_oneshot_of(cpu);
    assert forall|c: Seq<char>, x: u64, y: u64| #[trigger]
        f.oneshot_at(c, x) && #[trigger] f.oneshot_at(c, y) implies x == y by {
        assert(d.oneshot_at(c, x) && d.oneshot_at(c, y));
    }
    let g = d.without_oneshots();
    assert forall|c: Seq<char>, x: u64, y: u64| #[trigger]
        g.oneshot_at(c, x) && #[trigger] g.oneshot_at(c, y) implies x == y by {
        assert(d.oneshot_at(c, x) && d.oneshot_at(c, y));
    }
}

/// Arming a one-shot breakpoint leaves the CPU with exactly that one, whatever
/// the table held before, and touches no entry of another CPU.
pub proof fn lemma_arm_leaves_one(d: DebuggerView, cpu: Seq<char>, addr: u64)
    ensures
        d.with_oneshot(cpu, addr).oneshots_of(cpu) == set![(cpu, addr)],
        d.with_oneshot(cpu, addr).enabled_at(cpu, addr),
        forall|other: Seq<char>, a: u64|
            other != cpu ==> d.with_oneshot(cpu, addr).breakpoints.dom().contains((other, a))
                == #[trigger] d.breakpoints.dom().contains((other, a)),
        forall|other: Seq<char>, a: u64|
            other != cpu && #[trigger] d.breakpoints.dom().contains((other, a)) ==> d.with_oneshot(
                cpu,
                addr,
            ).breakpoints[(other, a)] == d.breakpoints[(other, a)],
{
    let e = d.with_oneshot(cpu, addr);
    assert forall|k: (Seq<char>, u64)| e.oneshots_of(cpu).contains(k) implies k == (cpu, addr) by {
        if k != (cpu, addr) {
            assert(d.oneshots_of(cpu).contains(k));
        }
    }
    assert(e.oneshots_of(cpu).contains((cpu, addr)));
    assert(e.oneshots_of(cpu) =~= set![(cpu, addr)]);
}

/// Clearing the one-shot breakpoints leaves none, keeps every other entry as
/// it was, and changes nothing when it is done again.
pub proof fn lemma_clear_oneshots(d: DebuggerView)
    ensures
        d.without_oneshots().oneshots() == Set::<(Seq<char>, u64)>::empty(),
        forall|cpu: Seq<char>, addr: u64| !#[trigger] d.without_oneshots().oneshot_at(cpu, addr),
        forall|cpu: Seq<char>, addr: u64| #[trigger]
            d.breakpoints.dom().contains((cpu, addr)) && !d.breakpoints[(cpu, addr)].one_shot
                ==> d.without_oneshots().breakpoints.dom().contains((cpu, addr))
                && d.without_oneshots().breakpoints[(cpu, addr)] == d.breakpoints[(cpu, addr)],
        d.without_oneshots().without_oneshots() == d.without_oneshots(),
{
    let c = d.without_oneshots();
    assert forall|k: (Seq<char>, u64)| !c.oneshots().contains(k) by {
        if c.oneshot_at(k.0, k.1) {
            assert(d.oneshots().contains(k));
        }
    }
    assert(c.oneshots() =~= Set::<(Seq<char>, u64)>::empty());
    assert(c.without_oneshots().breakpoints =~= c.breakpoints);
}

} // verus!
