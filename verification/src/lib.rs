//! Trace and debug control for an emulated machine.
//!
//! A debugger pauses, resumes, steps and intercepts a machine that runs in
//! units of work. The machine calls a [`Tracer`] at every instruction; the
//! tracer consults the tables of the [`Debugger`] and ends the unit of work
//! with a [`TraceEvent`] where it must. The [`DebuggerUI`] owns the run state:
//! it starts each unit of work, takes in what comes back, and serves the
//! commands of its front end.

pub mod clock;
pub mod debugger;
pub mod event;
pub mod model;
pub mod std_specs;
pub mod tables;
pub mod tracer;
pub mod ui;

pub use clock::Clock;
pub use debugger::Debugger;
pub use event::{AccessKind, MemAccess, TraceEvent, TraceEventView, UiCommand, UiCommandView};
pub use model::DebuggerModel;
pub use tables::{BreakpointState, DebuggerView};
pub use tracer::Tracer;
pub use ui::{DebuggerUI, DebuggerUIView, Notice};
