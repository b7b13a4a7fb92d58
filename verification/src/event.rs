//! Signals raised towards the debugger and commands sent back by its front end.

use vstd::prelude::*;

verus! {

/// Direction of a data access that a checkpoint reports.
#[derive(Clone, Copy, Debug, PartialEq, Eq, Structural)]
pub enum AccessKind {
    Read,
    Write,
}

/// A data access performed by the instruction that is being traced.
#[derive(Clone, Copy, Debug, PartialEq, Eq, Structural)]
pub struct MemAccess {
    pub addr: u64,
    pub kind: AccessKind,
}

/// Why a unit of emulation work stopped before it was complete, or what the
/// debugger itself made known to the front end.
///
/// `Poll` is advisory: it hands control back so that the front end stays
/// responsive. `Paused` and `Stepped` are never raised by a checkpoint; the
/// debugger synthesizes them. All the others pause the emulation.
#[derive(Debug, PartialEq, Eq)]
pub enum TraceEvent {
    /// The poll deadline has passed.
    Poll,
    /// The emulation was paused on request.
    Paused,
    /// A single instruction was stepped.
    Stepped,
    /// An enabled breakpoint of this CPU was reached at this address; the last
    /// field is the kind of the data access reported at that checkpoint, if any.
    Breakpoint(String, u64, Option<AccessKind>),
    /// The one-shot breakpoint of this CPU was reached at this address.
    BreakpointOneShot(String, u64),
    /// This CPU wrote to a watched address.
    WatchpointWrite(String, u64),
    /// This CPU read from a watched address.
    WatchpointRead(String, u64),
    /// The emulation core stopped for a reason of its own, given as free text.
    GenericBreak(String),
}

/// Mathematical value of a [`TraceEvent`]: names are sequences of characters.
pub enum TraceEventView {
    Poll,
    Paused,
    Stepped,
    Breakpoint(Seq<char>, u64, Option<AccessKind>),
    BreakpointOneShot(Seq<char>, u64),
    WatchpointWrite(Seq<char>, u64),
    WatchpointRead(Seq<char>, u64),
    GenericBreak(Seq<char>),
}

impl TraceEventView {
    /// Whether the debugger pauses the emulation when a unit of work ends with
    /// this signal.
    pub open spec fn pauses(self) -> bool {
        match self {
            TraceEventView::Breakpoint(_, _, _) => true,
            TraceEventView::BreakpointOneShot(_, _) => true,
            TraceEventView::WatchpointWrite(_, _) => true,
            TraceEventView::WatchpointRead(_, _) => true,
            TraceEventView::GenericBreak(_) => true,
            _ => false,
        }
    }
}

impl View for TraceEvent {
    type V = TraceEventView;

    open spec fn view(&self) -> TraceEventView {
        match *self {
            TraceEvent::Poll => TraceEventView::Poll,
            TraceEvent::Paused => TraceEventView::Paused,
            TraceEvent::Stepped => TraceEventView::Stepped,
            TraceEvent::Breakpoint(cpu, addr, kind) => TraceEventView::Breakpoint(cpu@, addr, kind),
            TraceEvent::BreakpointOneShot(cpu, addr) => TraceEventView::BreakpointOneShot(
                cpu@,
                addr,
            ),
            TraceEvent::WatchpointWrite(cpu, addr) => TraceEventView::WatchpointWrite(cpu@, addr),
            TraceEvent::WatchpointRead(cpu, addr) => TraceEventView::WatchpointRead(cpu@, addr),
            TraceEvent::GenericBreak(msg) => TraceEventView::GenericBreak(msg@),
        }
    }
}

impl Clone for TraceEvent {
    fn clone(&self) -> (res: Self)
        ensures
            res == *self,
    {
        match self {
            TraceEvent::Poll => TraceEvent::Poll,
            TraceEvent::Paused => TraceEvent::Paused,
            TraceEvent::Stepped => TraceEvent::Stepped,
            TraceEvent::Breakpoint(cpu, addr, kind) => TraceEvent::Breakpoint(
                cpu.clone(),
                *addr,
                *kind,
            ),
            TraceEvent::BreakpointOneShot(cpu, addr) => TraceEvent::BreakpointOneShot(
                cpu.clone(),
                *addr,
            ),
            TraceEvent::WatchpointWrite(cpu, addr) => TraceEvent::WatchpointWrite(
                cpu.clone(),
                *addr,
            ),
            TraceEvent::WatchpointRead(cpu, addr) => TraceEvent::WatchpointRead(cpu.clone(), *addr),
            TraceEvent::GenericBreak(msg) => TraceEvent::GenericBreak(msg.clone()),
        }
    }
}

impl TraceEvent {
    /// Whether this signal pauses the emulation.
    pub fn pauses(&self) -> (r: bool)
        ensures
            r == self@.pauses(),
    {
        match self {
            TraceEvent::Breakpoint(_, _, _) => true,
            TraceEvent::BreakpointOneShot(_, _) => true,
            TraceEvent::WatchpointWrite(_, _) => true,
            TraceEvent::WatchpointRead(_, _) => true,
            TraceEvent::GenericBreak(_) => true,
            _ => false,
        }
    }
}

/// A request of the front end, served at the end of a render pass.
#[derive(Clone, Debug, PartialEq, Eq)]
pub enum UiCommand {
    /// Pause (`true`) or resume (`false`) the emulation.
    Pause(bool),
    /// Run until this CPU reaches this address, then pause.
    BreakpointOneShot(String, u64),
    /// Execute one instruction of this CPU, then pause.
    CpuStep(String),
}

/// Mathematical value of a [`UiCommand`].
pub enum UiCommandView {
    Pause(bool),
    BreakpointOneShot(Seq<char>, u64),
    CpuStep(Seq<char>),
}

impl View for UiCommand {
    type V = UiCommandView;

    open spec fn view(&self) -> UiCommandView {
        match *self {
            UiCommand::Pause(p) => UiCommandView::Pause(p),
            UiCommand::BreakpointOneShot(cpu, addr) => UiCommandView::BreakpointOneShot(cpu@, addr),
            UiCommand::CpuStep(cpu) => UiCommandView::CpuStep(cpu@),
        }
    }
}

} // verus!
