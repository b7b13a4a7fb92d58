//! What the debugger asks of the machine that it controls.

use crate::event::TraceEvent;
use crate::tracer::Tracer;
use vstd::prelude::*;

verus! {

/// An emulated machine that can run under the debugger.
///
/// While it runs a unit of work, the machine calls the tracer before every
/// instruction and on every data access, and hands on whatever signal the
/// tracer raises, unchanged, as the result of the unit of work. It may also end
/// a unit of work with a `GenericBreak` of its own. The debugger promises
/// nothing to a machine that does otherwise, and relies on nothing that a
/// machine returns.
pub trait DebuggerModel {
    /// The video buffer that a frame is drawn into.
    type Screen;

    /// The audio buffer that a frame is played into.
    type Sound;

    /// The names of all CPUs of the machine, in a fixed order.
    fn all_cpus(&self) -> Vec<String>;

    /// The cycles emulated since the session began.
    fn cycles(&self) -> i64;

    /// The frames emulated since the session began.
    fn frames(&self) -> i64;

    /// Runs the machine until the frame is complete or a signal ends the work
    /// early. After a signal, the next call with the same buffers takes the
    /// frame up where it stopped.
    fn trace_frame(
        &mut self,
        screen: &mut Self::Screen,
        sound: &mut Self::Sound,
        tracer: &Tracer,
    ) -> Result<(), TraceEvent>;

    /// Runs one instruction of the CPU named `cpu_name`.
    fn trace_step(&mut self, cpu_name: &str, tracer: &Tracer) -> Result<(), TraceEvent>;

    /// Resets the machine: from cold where `hard` is set.
    fn reset(&mut self, hard: bool);
}

} // verus!
