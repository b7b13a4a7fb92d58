//! The coordinator: run state, current event, pending command, and the
//! transitions between them.
//!
//! Every time is a reading of the debugger's clock, in nanoseconds.

use crate::debugger::Debugger;
use crate::event::{AccessKind, MemAccess, TraceEvent, TraceEventView, UiCommand, UiCommandView};
use crate::model::DebuggerModel;
use crate::tables::{
    lemma_arm_leaves_one, lemma_changes_keep_wf, lemma_clear_oneshots, DebuggerView,
};
use crate::tracer::{signal_of, Tracer};
use vstd::prelude::*;
use vstd::string::StringExecFns;

verus! {

/// Time that a running emulation may take before it hands control back, in
/// nanoseconds.
pub const POLL_INTERVAL: u64 = 50_000_000;

/// Time between two render passes while the emulation is paused, in
/// nanoseconds.
pub const IDLE_INTERVAL: u64 = 16_000_000;

/// The poll deadline of a unit of work that starts after a render pass at
/// `last_render`: absent where it lies beyond the end of time.
pub open spec fn spec_poll_deadline(last_render: u64) -> Option<u64> {
    if last_render + POLL_INTERVAL <= u64::MAX {
        Some((last_render + POLL_INTERVAL) as u64)
    } else {
        None
    }
}

/// How long to wait, at the time `now`, until `IDLE_INTERVAL` has passed
/// since the render pass at `last_render`; `None` once it has.
pub open spec fn spec_idle_delay(last_render: u64, now: u64) -> Option<u64> {
    let elapsed = if now >= last_render {
        now - last_render
    } else {
        0
    };
    if elapsed <= IDLE_INTERVAL {
        Some((IDLE_INTERVAL - elapsed) as u64)
    } else {
        None
    }
}

/// The text of the notice that goes with a signal, for those that have one.
pub open spec fn spec_notice_text(e: TraceEventView) -> Option<Seq<char>> {
    match e {
        TraceEventView::WatchpointRead(cpu, _) => Some("Watchpoint (read) hit on "@ + cpu),
        TraceEventView::WatchpointWrite(cpu, _) => Some("Watchpoint (write) hit on "@ + cpu),
        TraceEventView::GenericBreak(msg) => Some("Emulation stopped:\n"@ + msg),
        _ => None,
    }
}

/// Whether a notice posted at the time `posted` is still to be shown at the
/// time `now`, where notices are shown for `lifetime`: it was posted less
/// than `lifetime` ago.
pub open spec fn spec_notice_alive(posted: u64, now: u64, lifetime: u64) -> bool {
    posted + lifetime > now
}

/// A short message for the user, with the time at which it was posted.
#[derive(Clone, Debug, PartialEq, Eq)]
pub struct Notice {
    pub text: String,
    pub posted: u64,
}

/// Mathematical value of a [`DebuggerUI`].
pub struct DebuggerUIView {
    pub dbg: DebuggerView,
    pub cpus: Seq<Seq<char>>,
    pub paused: bool,
    pub last_render: u64,
    pub event: Option<(TraceEventView, u64)>,
    pub command: Option<UiCommandView>,
    pub notices: Seq<(Seq<char>, u64)>,
}

impl DebuggerUIView {
    /// The state in which a unit of work starts: the poll deadline follows the
    /// last render pass.
    pub open spec fn armed(self) -> Self {
        DebuggerUIView {
            dbg: self.dbg.with_poll_deadline(spec_poll_deadline(self.last_render)),
            ..self
        }
    }

    /// The state after a unit of work has ended at the time `now`: complete
    /// where `outcome` is `None`, else with that signal.
    ///
    /// Every signal becomes the current event. One that pauses also stops the
    /// emulation, empties the table of one-shot breakpoints, whichever signal
    /// it was, and posts its notice if it has one.
    pub open spec fn after_outcome(self, outcome: Option<TraceEventView>, now: u64) -> Self {
        match outcome {
            None => self,
            Some(e) => if e.pauses() {
                DebuggerUIView {
                    dbg: self.dbg.without_oneshots(),
                    paused: true,
                    event: Some((e, now)),
                    notices: match spec_notice_text(e) {
                        Some(text) => self.notices.push((text, now)),
                        None => self.notices,
                    },
                    ..self
                }
            } else {
                DebuggerUIView { event: Some((e, now)), ..self }
            },
        }
    }

    /// The state after a request to pause or to resume, made at the time `now`.
    pub open spec fn with_paused(self, paused: bool, now: u64) -> Self {
        DebuggerUIView {
            paused,
            event: if paused {
                Some((TraceEventView::Paused, now))
            } else {
                self.event
            },
            ..self
        }
    }

    /// The state after the render pass that ends at the time `now`: the event
    /// is cleared, the pending command, if any, is served, and the slot is
    /// emptied.
    pub open spec fn after_render(self, now: u64) -> Self {
        let base = DebuggerUIView { last_render: now, event: None, command: None, ..self };
        match self.command {
            None => base,
            Some(UiCommandView::Pause(p)) => base.with_paused(p, now),
            Some(UiCommandView::BreakpointOneShot(cpu, addr)) => DebuggerUIView {
                dbg: self.dbg.with_oneshot(cpu, addr),
                paused: false,
                ..base
            },
            Some(UiCommandView::CpuStep(_)) => DebuggerUIView {
                paused: true,
                event: Some((TraceEventView::Stepped, now)),
                ..base
            },
        }
    }
}

/// The debugger's coordinator. It owns the run state and the tables, starts
/// each unit of work with a fresh tracer, and turns what comes back into the
/// next state.
pub struct DebuggerUI {
    pub dbg: Debugger,
    cpus: Vec<String>,
    paused: bool,
    last_render: u64,
    event: Option<(TraceEvent, u64)>,
    command: Option<UiCommand>,
    notices: Vec<Notice>,
}

spec fn event_view(e: Option<(TraceEvent, u64)>) -> Option<(TraceEventView, u64)> {
    match e {
        Some((e, at)) => Some((e@, at)),
        None => None,
    }
}

spec fn command_view(c: Option<UiCommand>) -> Option<UiCommandView> {
    match c {
        Some(c) => Some(c@),
        None => None,
    }
}

impl View for DebuggerUI {
    type V = DebuggerUIView;

    closed spec fn view(&self) -> DebuggerUIView {
        DebuggerUIView {
            dbg: self.dbg@,
            cpus: self.cpus@.map_values(|s: String| s@),
            paused: self.paused,
            last_render: self.last_render,
            event: event_view(self.event),
            command: command_view(self.command),
            notices: self.notices@.map_values(|n: Notice| (n.text@, n.posted)),
        }
    }
}

/// The poll deadline of a unit of work that starts after a render pass at
/// `last_render`.
pub fn poll_deadline(last_render: u64) -> (r: Option<u64>)
    ensures
        r == spec_poll_deadline(last_render),
{
    last_render.checked_add(POLL_INTERVAL)
}

/// How long a paused debugger waits at the time `now` before its next render
/// pass.
pub fn idle_delay(last_render: u64, now: u64) -> (r: Option<u64>)
    ensures
        r == spec_idle_delay(last_render, now),
{
    let elapsed = if now >= last_render {
        now - last_render
    } else {
        0
    };
    IDLE_INTERVAL.checked_sub(elapsed)
}

/// Whether a notice posted at the time `posted` is still to be shown at the
/// time `now`, where notices are shown for `lifetime`.
pub fn notice_alive(posted: u64, now: u64, lifetime: u64) -> (r: bool)
    ensures
        r == spec_notice_alive(posted, now, lifetime),
{
    match posted.checked_add(lifetime) {
        Some(end) => end > now,
        None => true,
    }
}

/// The text of the notice that goes with a signal, for those that have one.
pub fn notice_text(e: &TraceEvent) -> (r: Option<String>)
    ensures
        match r {
            Some(text) => spec_notice_text(e@) == Some(text@),
            None => spec_notice_text(e@) is None,
        },
{
    match e {
        TraceEvent::WatchpointRead(cpu, _) => {
            let mut text = "Watchpoint (read) hit on ".to_owned();
            text.append(cpu.as_str());
            Some(text)
        },
        TraceEvent::WatchpointWrite(cpu, _) => {
            let mut text = "Watchpoint (write) hit on ".to_owned();
            text.append(cpu.as_str());
            Some(text)
        },
        TraceEvent::GenericBreak(msg) => {
            let mut text = "Emulation stopped:\n".to_owned();
            text.append(msg.as_str());
            Some(text)
        },
        _ => None,
    }
}

impl DebuggerUI {
    /// A paused debugger for a machine with the CPUs `cpus`, with empty
    /// tables, no pending command, and the event `Paused` at time zero, so that
    /// the front end has something to show from its first render pass on. The
    /// debugger's clock starts with it.
    pub fn new(cpus: Vec<String>) -> (ui: DebuggerUI)
        ensures
            ui@ == (DebuggerUIView {
                dbg: DebuggerView::empty(),
                cpus: cpus@.map_values(|s: String| s@),
                paused: true,
                last_render: 0,
                event: Some((TraceEventView::Paused, 0)),
                command: None,
                notices: Seq::empty(),
            }),
    {
        let ui = DebuggerUI {
            dbg: Debugger::new(),
            cpus,
            paused: true,
            last_render: 0,
            event: Some((TraceEvent::Paused, 0)),
            command: None,
            notices: Vec::new(),
        };
        assert(ui.notices@.map_values(|n: Notice| (n.text@, n.posted)) =~= Seq::empty());
        assert(ui.dbg@ == DebuggerView::empty());
        ui
    }

    /// Takes in a unit of work's result at the time `now`, and tells whether
    /// the work was complete.
    pub fn handle_outcome(&mut self, outcome: Result<(), TraceEvent>, now: u64) -> (done: bool)
        ensures
            final(self)@ == old(self)@.after_outcome(signal_of(outcome), now),
            done == outcome is Ok,
            signal_of(outcome) == Some(TraceEventView::Poll) ==> final(self)@.paused == old(
                self,
            )@.paused && final(self)@.dbg == old(self)@.dbg,
    {
        match outcome {
            Ok(_) => true,
            Err(e) => {
                if e.pauses() {
                    self.paused = true;
                    self.dbg.disable_breakpoint_oneshot();
                    match notice_text(&e) {
                        Some(text) => {
                            let ghost before = self.notices@;
                            self.notices.push(Notice { text, posted: now });
                            assert(self.notices@.map_values(|n: Notice| (n.text@, n.posted))
                                =~= before.map_values(|n: Notice| (n.text@, n.posted)).push(
                                (text@, now),
                            ));
                        },
                        None => {},
                    }
                }
                self.event = Some((e, now));
                false
            },
        }
    }

    /// Runs the machine for one unit of work, unless the debugger is paused,
    /// and tells whether a frame was completed.
    ///
    /// While paused it touches neither the machine nor the buffers. Otherwise
    /// it sets the poll deadline, hands the machine a fresh tracer together
    /// with the very buffers it was given, and takes in whatever comes back,
    /// at whatever time the clock then shows.
    pub fn trace<T: DebuggerModel>(
        &mut self,
        producer: &mut T,
        screen: &mut T::Screen,
        sound: &mut T::Sound,
    ) -> (done: bool)
        ensures
            old(self)@.paused ==> !done && final(self)@ == old(self)@ && *final(producer) == *old(
                producer,
            ) && *final(screen) == *old(screen) && *final(sound) == *old(sound),
            !old(self)@.paused ==> exists|outcome: Option<TraceEventView>, now: u64|
                final(self)@ == old(self)@.armed().after_outcome(outcome, now) && done
                    == outcome is None,
    {
        if self.paused {
            return false;
        }
        self.dbg.set_poll_event(poll_deadline(self.last_render));
        let ghost armed = self@;
        let tracer = self.dbg.new_tracer();
        let outcome = producer.trace_frame(screen, sound, &tracer);
        let now = self.dbg.now();
        let done = self.handle_outcome(outcome, now);
        assert(self@ == armed.after_outcome(signal_of(outcome), now) && done == signal_of(
            outcome,
        ) is None);
        done
    }

    /// Ends a render pass at the time `now`: clears the current event, serves
    /// the pending command, if there is one, and empties the command slot.
    ///
    /// Only a `CpuStep` command reaches the machine: it runs one instruction of
    /// the named CPU under a tracer that raises nothing, and whatever the step
    /// returns, the debugger is paused afterwards, with the event `Stepped`.
    pub fn finish_render<T: DebuggerModel>(&mut self, model: &mut T, now: u64)
        ensures
            final(self)@ == old(self)@.after_render(now),
            old(self)@.command matches Some(UiCommandView::CpuStep(_)) ==> final(self)@.paused
                && final(self)@.event == Some((TraceEventView::Stepped, now)),
            old(self)@.command matches Some(UiCommandView::BreakpointOneShot(cpu, addr))
                ==> !final(self)@.paused && final(self)@.dbg.oneshots_of(cpu) == set![(cpu, addr)],
            !(old(self)@.command matches Some(UiCommandView::CpuStep(_))) ==> *final(model)
                == *old(model),
    {
        self.last_render = now;
        self.event = None;
        let command = self.command.take();
        match command {
            Some(UiCommand::Pause(paused)) => {
                self.set_paused(paused, now);
            },
            Some(UiCommand::BreakpointOneShot(cpu, addr)) => {
                self.dbg.set_breakpoint_oneshot(cpu.as_str(), Some(addr));
                self.paused = false;
            },
            Some(UiCommand::CpuStep(cpu)) => {
                let tracer = Tracer::null();
                let _ = model.trace_step(cpu.as_str(), &tracer);
                self.paused = true;
                self.event = Some((TraceEvent::Stepped, now));
            },
            None => {},
        }
    }

    /// Pauses or resumes the emulation at the time `now`. Pausing makes
    /// `Paused` the current event.
    pub fn set_paused(&mut self, paused: bool, now: u64)
        ensures
            final(self)@ == old(self)@.with_paused(paused, now),
    {
        self.paused = paused;
        if paused {
            self.event = Some((TraceEvent::Paused, now));
        }
    }

    /// Pauses a running emulation, resumes a paused one.
    pub fn toggle_pause(&mut self, now: u64)
        ensures
            final(self)@ == old(self)@.with_paused(!old(self)@.paused, now),
    {
        let paused = !self.paused;
        self.set_paused(paused, now);
    }

    /// Puts `command` into the command slot, in place of one that was not
    /// served yet.
    pub fn send_command(&mut self, command: UiCommand)
        ensures
            final(self)@ == (DebuggerUIView { command: Some(command@), ..old(self)@ }),
    {
        self.command = Some(command);
    }

    /// How long to sleep at the time `now` before the next render pass:
    /// nothing while the emulation runs, and while it is paused what is left
    /// of `IDLE_INTERVAL` since the last render pass.
    pub fn idle_delay(&self, now: u64) -> (r: Option<u64>)
        ensures
            r == if self@.paused {
                spec_idle_delay(self@.last_render, now)
            } else {
                None
            },
    {
        if self.paused {
            idle_delay(self.last_render, now)
        } else {
            None
        }
    }

    /// The notices that are posted and not yet expired, oldest first.
    pub fn notices(&self) -> (r: &Vec<Notice>)
        ensures
            r@.map_values(|n: Notice| (n.text@, n.posted)) == self@.notices,
    {
        &self.notices
    }

    /// Drops the notices that, at the time `now`, were posted `lifetime` or
    /// longer ago, and keeps the others in their order.
    pub fn expire_notices(&mut self, now: u64, lifetime: u64)
        ensures
            final(self)@ == (DebuggerUIView {
                notices: old(self)@.notices.filter(
                    |n: (Seq<char>, u64)| spec_notice_alive(n.1, now, lifetime),
                ),
                ..old(self)@
            }),
    {
        let ghost alive = |n: (Seq<char>, u64)| spec_notice_alive(n.1, now, lifetime);
        let ghost before = self@.notices;
        let mut kept: Vec<Notice> = Vec::new();
        let mut i: usize = 0;
        assert(before.subrange(0, 0) =~= Seq::empty());
        assert(kept@.map_values(|n: Notice| (n.text@, n.posted)) =~= Seq::empty());
        assert(Seq::<(Seq<char>, u64)>::empty().filter(alive) =~= Seq::empty()) by {
            reveal_with_fuel(Seq::filter, 1);
        }
        while i < self.notices.len()
            invariant
                i <= self.notices.len(),
                before == self.notices@.map_values(|n: Notice| (n.text@, n.posted)),
                alive == |n: (Seq<char>, u64)| spec_notice_alive(n.1, now, lifetime),
                kept@.map_values(|n: Notice| (n.text@, n.posted)) == before.subrange(
                    0,
                    i as int,
                ).filter(alive),
            decreases self.notices.len() - i,
        {
            let notice = &self.notices[i];
            let ghost shown = kept@.map_values(|n: Notice| (n.text@, n.posted));
            proof {
                let upto = before.subrange(0, i as int + 1);
                assert(upto.drop_last() =~= before.subrange(0, i as int));
                assert(upto.last() == (notice.text@, notice.posted));
                reveal_with_fuel(Seq::filter, 1);
            }
            if notice_alive(notice.posted, now, lifetime) {
                kept.push(Notice { text: notice.text.clone(), posted: notice.posted });
                assert(kept@.map_values(|n: Notice| (n.text@, n.posted)) =~= shown.push(
                    (notice.text@, notice.posted),
                ));
            }
            i += 1;
        }
        assert(before.subrange(0, i as int) =~= before);
        self.notices = kept;
    }

    /// Whether the emulation is paused.
    pub fn is_paused(&self) -> (r: bool)
        ensures
            r == self@.paused,
    {
        self.paused
    }

    /// The time at which the last render pass ended.
    pub fn last_render(&self) -> (r: u64)
        ensures
            r == self@.last_render,
    {
        self.last_render
    }

    /// The current event and its time, if there is one.
    pub fn event(&self) -> (r: Option<&(TraceEvent, u64)>)
        ensures
            match r {
                Some(e) => self@.event == Some((e.0@, e.1)),
                None => self@.event is None,
            },
    {
        self.event.as_ref()
    }

    /// The command that waits to be served, if there is one.
    pub fn command(&self) -> (r: Option<&UiCommand>)
        ensures
            match r {
                Some(c) => self@.command == Some(c@),
                None => self@.command is None,
            },
    {
        self.command.as_ref()
    }

    /// The names of the machine's CPUs, as the machine gave them.
    pub fn cpus(&self) -> (r: &Vec<String>)
        ensures
            r@.map_values(|s: String| s@) == self@.cpus,
    {
        &self.cpus
    }
}

/// A persistent breakpoint always pauses. Where the table holds an enabled
/// entry for `cpu` at `addr` that is not one-shot, a checkpoint there raises
/// `Breakpoint` for that CPU and address, whatever the time, the poll deadline
/// and the access reported; and once the unit of work has ended with that
/// signal, the emulation is paused, the signal is the current event, and the
/// entry is in the table as before.
pub proof fn lemma_breakpoint_pauses_and_stays(
    ui: DebuggerUIView,
    cpu: Seq<char>,
    addr: u64,
    access: Option<MemAccess>,
    now: u64,
    at: u64,
)
    requires
        ui.dbg.enabled_at(cpu, addr),
        !ui.dbg.breakpoints[(cpu, addr)].one_shot,
    ensures
        ({
            let signal = ui.dbg.checkpoint(cpu, addr, access, now);
            let after = ui.after_outcome(signal, at);
            &&& signal matches Some(TraceEventView::Breakpoint(c, a, _)) && c == cpu && a == addr
            &&& after.paused
            &&& after.event == Some((signal->0, at))
            &&& after.dbg.breakpoints.dom().contains((cpu, addr))
            &&& after.dbg.breakpoints[(cpu, addr)] == ui.dbg.breakpoints[(cpu, addr)]
            &&& ui.armed().dbg.checkpoint(cpu, addr, access, now) == signal
        }),
{
    lemma_clear_oneshots(ui.dbg);
}

/// Whichever pausing signal ends a unit of work, the table holds no one-shot
/// breakpoint afterwards, every other entry is as it was, and a second pausing
/// signal leaves the table as the first left it.
pub proof fn lemma_pause_clears_oneshots(
    ui: DebuggerUIView,
    e: TraceEventView,
    at: u64,
    again: TraceEventView,
    later: u64,
)
    requires
        e.pauses(),
        again.pauses(),
    ensures
        ({
            let after = ui.after_outcome(Some(e), at);
            &&& after.paused
            &&& after.dbg == ui.dbg.without_oneshots()
            &&& forall|cpu: Seq<char>, addr: u64| !#[trigger] after.dbg.oneshot_at(cpu, addr)
            &&& forall|cpu: Seq<char>, addr: u64| #[trigger]
                ui.dbg.breakpoints.dom().contains((cpu, addr)) && !ui.dbg.breakpoints[(
                    cpu,
                    addr,
                )].one_shot ==> after.dbg.breakpoints.dom().contains((cpu, addr))
                    && after.dbg.breakpoints[(cpu, addr)] == ui.dbg.breakpoints[(cpu, addr)]
            &&& after.after_outcome(Some(again), later).dbg == after.dbg
        }),
{
    lemma_clear_oneshots(ui.dbg);
}

/// A one-shot breakpoint fires once. After a unit of work has ended with any
/// pausing signal, the address at which `cpu`'s one-shot breakpoint was armed
/// has no entry, so a checkpoint there raises no breakpoint; and where it
/// reports no watched access, it raises nothing but, in time, `Poll`.
pub proof fn lemma_oneshot_fires_once(
    ui: DebuggerUIView,
    e: TraceEventView,
    at: u64,
    cpu: Seq<char>,
    addr: u64,
    access: Option<MemAccess>,
    now: u64,
)
    requires
        e.pauses(),
        ui.dbg.oneshot_at(cpu, addr),
        access matches Some(a) ==> !ui.dbg.watchpoints.contains((cpu, a.addr, a.kind)),
    ensures
        ({
            let after = ui.after_outcome(Some(e), at);
            let next = after.armed().dbg.checkpoint(cpu, addr, access, now);
            &&& !after.dbg.breakpoints.dom().contains((cpu, addr))
            &&& after.armed().dbg.pause_signal(cpu, addr, access) is None
            &&& next is None || next == Some(TraceEventView::Poll)
            &&& after.armed().after_outcome(next, now).dbg.breakpoints == after.dbg.breakpoints
        }),
{
    lemma_clear_oneshots(ui.dbg);
    assert(ui.dbg.oneshots().contains((cpu, addr)));
}

/// `Poll` changes neither the run state nor any table: it only becomes the
/// current event.
pub proof fn lemma_poll_changes_nothing(ui: DebuggerUIView, now: u64)
    ensures
        ui.after_outcome(Some(TraceEventView::Poll), now) == (DebuggerUIView {
            event: Some((TraceEventView::Poll, now)),
            ..ui
        }),
{
}

/// A running emulation hands control back in time. In a unit of work that
/// starts after a render pass at `last_render`, a checkpoint at which nothing
/// pauses raises `Poll` exactly when `POLL_INTERVAL` has passed since then,
/// and the emulation is still running afterwards.
pub proof fn lemma_poll_is_due(
    ui: DebuggerUIView,
    cpu: Seq<char>,
    pc: u64,
    access: Option<MemAccess>,
    now: u64,
    at: u64,
)
    requires
        !ui.paused,
        ui.dbg.pause_signal(cpu, pc, access) is None,
    ensures
        ({
            let signal = ui.armed().dbg.checkpoint(cpu, pc, access, now);
            &&& now >= ui.last_render + POLL_INTERVAL ==> signal == Some(TraceEventView::Poll)
            &&& now < ui.last_render + POLL_INTERVAL ==> signal is None
            &&& !ui.armed().after_outcome(signal, at).paused
        }),
{
}

/// Every transition of the coordinator keeps at most one one-shot
/// breakpoint for each CPU.
pub proof fn lemma_transitions_keep_wf(
    ui: DebuggerUIView,
    outcome: Option<TraceEventView>,
    paused: bool,
    now: u64,
)
    requires
        ui.dbg.wf(),
    ensures
        ui.armed().dbg.wf(),
        ui.after_outcome(outcome, now).dbg.wf(),
        ui.with_paused(paused, now).dbg.wf(),
        ui.after_render(now).dbg.wf(),
{
    lemma_changes_keep_wf(
        ui.dbg,
        Seq::empty(),
        0,
        false,
        AccessKind::Read,
        spec_poll_deadline(ui.last_render),
    );
    match ui.command {
        Some(UiCommandView::BreakpointOneShot(cpu, addr)) => {
            lemma_changes_keep_wf(ui.dbg, cpu, addr, false, AccessKind::Read, None);
        },
        _ => {},
    }
}

/// Serving a one-shot command starts the emulation and leaves the named CPU
/// with exactly one one-shot breakpoint, the one asked for, whether or not it
/// had one before.
pub proof fn lemma_oneshot_command_runs(ui: DebuggerUIView, cpu: Seq<char>, addr: u64, now: u64)
    requires
        ui.command == Some(UiCommandView::BreakpointOneShot(cpu, addr)),
    ensures
        !ui.after_render(now).paused,
        ui.after_render(now).command is None,
        ui.after_render(now).dbg.oneshots_of(cpu) == set![(cpu, addr)],
        ui.after_render(now).dbg.enabled_at(cpu, addr),
{
    lemma_arm_leaves_one(ui.dbg, cpu, addr);
}

} // verus!
