use emu_dbg::{AccessKind, Debugger, MemAccess, TraceEvent, Tracer};

const READ: AccessKind = AccessKind::Read;
const WRITE: AccessKind = AccessKind::Write;

fn read(addr: u64) -> Option<MemAccess> {
    Some(MemAccess { addr, kind: READ })
}

fn write(addr: u64) -> Option<MemAccess> {
    Some(MemAccess { addr, kind: WRITE })
}

fn cpu0() -> String {
    "CPU0".to_string()
}

/// Runs `pcs` in turn through the checkpoint, each at time 0, and returns the
/// instructions that got past it together with the signal that ended the run.
fn run(tracer: &Tracer, cpu: &str, pcs: &[u64]) -> (Vec<u64>, Option<TraceEvent>) {
    let mut executed = Vec::new();
    for &pc in pcs {
        match tracer.checkpoint(cpu, pc, None, 0) {
            Ok(()) => executed.push(pc),
            Err(signal) => return (executed, Some(signal)),
        }
    }
    (executed, None)
}

#[test]
fn enabled_breakpoint_stops_the_checkpoint() {
    let mut dbg = Debugger::new();
    dbg.set_breakpoint("CPU0", 0x1000, true);
    let tracer = dbg.new_tracer();
    assert_eq!(tracer.checkpoint("CPU0", 0x0ffc, None, 0), Ok(()));
    assert_eq!(
        tracer.checkpoint("CPU0", 0x1000, None, 0),
        Err(TraceEvent::Breakpoint(cpu0(), 0x1000, None))
    );
}

#[test]
fn unit_of_work_aborts_exactly_at_the_breakpoint() {
    let mut dbg = Debugger::new();
    dbg.set_breakpoint("CPU0", 0x1000, true);
    let tracer = dbg.new_tracer();
    let pcs: Vec<u64> = (0x0ff0..=0x1010).step_by(4).collect();
    let (executed, signal) = run(&tracer, "CPU0", &pcs);
    assert_eq!(executed, vec![0x0ff0, 0x0ff4, 0x0ff8, 0x0ffc]);
    assert_eq!(signal, Some(TraceEvent::Breakpoint(cpu0(), 0x1000, None)));
}

#[test]
fn disabled_breakpoint_does_not_fire() {
    let mut dbg = Debugger::new();
    dbg.set_breakpoint("CPU0", 0x1000, false);
    let tracer = dbg.new_tracer();
    assert_eq!(tracer.checkpoint("CPU0", 0x1000, None, 0), Ok(()));
}

#[test]
fn breakpoint_belongs_to_its_cpu() {
    let mut dbg = Debugger::new();
    dbg.set_breakpoint("CPU0", 0x1000, true);
    let tracer = dbg.new_tracer();
    assert_eq!(tracer.checkpoint("CPU1", 0x1000, None, 0), Ok(()));
    assert_eq!(tracer.checkpoint("CPU", 0x1000, None, 0), Ok(()));
    let pcs = [0x0ff8, 0x0ffc, 0x1000, 0x1004];
    assert_eq!(run(&tracer, "CPU1", &pcs), (pcs.to_vec(), None));
}

#[test]
fn oneshot_breakpoint_is_reported_as_oneshot() {
    let mut dbg = Debugger::new();
    dbg.set_breakpoint_oneshot("CPU1", Some(0x2000));
    let tracer = dbg.new_tracer();
    assert_eq!(tracer.checkpoint("CPU1", 0x1ffc, None, 0), Ok(()));
    assert_eq!(
        tracer.checkpoint("CPU1", 0x2000, None, 0),
        Err(TraceEvent::BreakpointOneShot("CPU1".to_string(), 0x2000))
    );
    assert_eq!(
        tracer.checkpoint("CPU1", 0x2000, write(0x10), 0),
        Err(TraceEvent::BreakpointOneShot("CPU1".to_string(), 0x2000))
    );
    assert_eq!(tracer.checkpoint("CPU0", 0x2000, None, 0), Ok(()));
}

#[test]
fn breakpoint_at_the_poll_deadline_is_a_breakpoint() {
    let mut dbg = Debugger::new();
    dbg.set_breakpoint("CPU0", 0x1000, true);
    dbg.set_poll_event(Some(500));
    let tracer = dbg.new_tracer();
    assert_eq!(
        tracer.checkpoint("CPU0", 0x1000, None, 500),
        Err(TraceEvent::Breakpoint(cpu0(), 0x1000, None))
    );
    assert_eq!(
        tracer.checkpoint("CPU0", 0x1000, None, 900),
        Err(TraceEvent::Breakpoint(cpu0(), 0x1000, None))
    );
    assert_eq!(tracer.checkpoint("CPU0", 0x1004, None, 500), Err(TraceEvent::Poll));
}

#[test]
fn breakpoint_reports_the_access_of_its_checkpoint() {
    let mut dbg = Debugger::new();
    dbg.set_breakpoint("CPU0", 0x1000, true);
    let tracer = dbg.new_tracer();
    assert_eq!(
        tracer.checkpoint("CPU0", 0x1000, read(0x8000), 0),
        Err(TraceEvent::Breakpoint(cpu0(), 0x1000, Some(READ)))
    );
    assert_eq!(
        tracer.checkpoint("CPU0", 0x1000, write(0x8000), 0),
        Err(TraceEvent::Breakpoint(cpu0(), 0x1000, Some(WRITE)))
    );
}

#[test]
fn breakpoint_comes_before_watchpoint() {
    let mut dbg = Debugger::new();
    dbg.set_breakpoint("CPU0", 0x1000, true);
    dbg.add_watchpoint("CPU0", 0x8000, WRITE);
    let tracer = dbg.new_tracer();
    assert_eq!(
        tracer.checkpoint("CPU0", 0x1000, write(0x8000), 0),
        Err(TraceEvent::Breakpoint(cpu0(), 0x1000, Some(WRITE)))
    );
    assert_eq!(
        tracer.checkpoint("CPU0", 0x1004, write(0x8000), 0),
        Err(TraceEvent::WatchpointWrite(cpu0(), 0x8000))
    );
}

#[test]
fn disabled_breakpoint_lets_the_watchpoint_through() {
    let mut dbg = Debugger::new();
    dbg.set_breakpoint("CPU0", 0x1000, false);
    dbg.add_watchpoint("CPU0", 0x8000, READ);
    let tracer = dbg.new_tracer();
    assert_eq!(
        tracer.checkpoint("CPU0", 0x1000, read(0x8000), 0),
        Err(TraceEvent::WatchpointRead(cpu0(), 0x8000))
    );
}

#[test]
fn watchpoint_fires_on_its_kind_of_access_only() {
    let mut dbg = Debugger::new();
    dbg.add_watchpoint("CPU0", 0x8000, READ);
    dbg.add_watchpoint("CPU0", 0x9000, WRITE);
    let tracer = dbg.new_tracer();
    assert_eq!(
        tracer.checkpoint("CPU0", 0x1000, read(0x8000), 0),
        Err(TraceEvent::WatchpointRead(cpu0(), 0x8000))
    );
    assert_eq!(
        tracer.checkpoint("CPU0", 0x1000, write(0x9000), 0),
        Err(TraceEvent::WatchpointWrite(cpu0(), 0x9000))
    );
    assert_eq!(tracer.checkpoint("CPU0", 0x1000, write(0x8000), 0), Ok(()));
    assert_eq!(tracer.checkpoint("CPU0", 0x1000, read(0x9000), 0), Ok(()));
    assert_eq!(tracer.checkpoint("CPU0", 0x1000, read(0x8004), 0), Ok(()));
    assert_eq!(tracer.checkpoint("CPU1", 0x1000, read(0x8000), 0), Ok(()));
    assert_eq!(tracer.checkpoint("CPU0", 0x8000, None, 0), Ok(()));
}

#[test]
fn watchpoint_comes_before_poll() {
    let mut dbg = Debugger::new();
    dbg.add_watchpoint("CPU0", 0x8000, READ);
    dbg.set_poll_event(Some(100));
    let tracer = dbg.new_tracer();
    assert_eq!(
        tracer.checkpoint("CPU0", 0x1000, read(0x8000), 100),
        Err(TraceEvent::WatchpointRead(cpu0(), 0x8000))
    );
    assert_eq!(tracer.checkpoint("CPU0", 0x1000, read(0x8004), 100), Err(TraceEvent::Poll));
}

#[test]
fn poll_is_raised_from_the_deadline_on() {
    let mut dbg = Debugger::new();
    dbg.set_poll_event(Some(50_000_000));
    let tracer = dbg.new_tracer();
    assert_eq!(tracer.checkpoint("CPU0", 0x1000, None, 0), Ok(()));
    assert_eq!(tracer.checkpoint("CPU0", 0x1000, None, 49_999_999), Ok(()));
    assert_eq!(tracer.checkpoint("CPU0", 0x1000, None, 50_000_000), Err(TraceEvent::Poll));
    assert_eq!(tracer.checkpoint("CPU0", 0x1000, None, 50_000_001), Err(TraceEvent::Poll));
    assert_eq!(tracer.checkpoint("CPU0", 0x1000, None, u64::MAX), Err(TraceEvent::Poll));
}

#[test]
fn without_a_deadline_there_is_no_poll() {
    let dbg = Debugger::new();
    let tracer = dbg.new_tracer();
    assert_eq!(tracer.checkpoint("CPU0", 0x1000, None, 0), Ok(()));
    assert_eq!(tracer.checkpoint("CPU0", 0x1000, None, u64::MAX), Ok(()));
    assert_eq!(tracer.trace_insn("CPU0", 0x1000), Ok(()));
}

#[test]
fn null_tracer_raises_nothing() {
    let tracer = Tracer::null();
    assert_eq!(tracer.checkpoint("CPU0", 0x1000, None, u64::MAX), Ok(()));
    assert_eq!(tracer.checkpoint("CPU0", 0x1000, write(0x1000), 0), Ok(()));
    assert_eq!(tracer.trace_insn("CPU0", 0x1000), Ok(()));
    assert_eq!(tracer.trace_mem_read("CPU0", 0x1000, 0x8000), Ok(()));
    assert_eq!(tracer.trace_mem_write("CPU0", 0x1000, 0x8000), Ok(()));
}

#[test]
fn tracer_sees_the_tables_as_they_are_when_it_is_made() {
    let mut dbg = Debugger::new();
    dbg.set_breakpoint("CPU0", 0x1000, true);
    {
        let tracer = dbg.new_tracer();
        assert!(tracer.checkpoint("CPU0", 0x1000, None, 0).is_err());
    }
    dbg.remove_breakpoint("CPU0", 0x1000);
    let tracer = dbg.new_tracer();
    assert_eq!(tracer.checkpoint("CPU0", 0x1000, None, 0), Ok(()));
}

#[test]
fn trace_insn_finds_breakpoints() {
    let mut dbg = Debugger::new();
    dbg.set_breakpoint("CPU0", 0x1000, true);
    dbg.set_breakpoint_oneshot("CPU0", Some(0x2000));
    dbg.set_poll_event(Some(0));
    let tracer = dbg.new_tracer();
    assert_eq!(
        tracer.trace_insn("CPU0", 0x1000),
        Err(TraceEvent::Breakpoint(cpu0(), 0x1000, None))
    );
    assert_eq!(
        tracer.trace_insn("CPU0", 0x2000),
        Err(TraceEvent::BreakpointOneShot(cpu0(), 0x2000))
    );
}

#[test]
fn trace_insn_polls_by_the_clock() {
    let mut dbg = Debugger::new();
    dbg.set_poll_event(Some(0));
    assert_eq!(dbg.new_tracer().trace_insn("CPU0", 0x1000), Err(TraceEvent::Poll));

    dbg.set_poll_event(Some(u64::MAX));
    assert_eq!(dbg.new_tracer().trace_insn("CPU0", 0x1000), Ok(()));

    let deadline = dbg.now() + 2_000_000;
    dbg.set_poll_event(Some(deadline));
    let tracer = dbg.new_tracer();
    let mut passed: u64 = 0;
    let signal = loop {
        match tracer.trace_insn("CPU0", 0x1000 + 4 * passed) {
            Ok(()) => passed += 1,
            Err(signal) => break signal,
        }
    };
    assert_eq!(signal, TraceEvent::Poll);
    assert!(dbg.now() >= deadline);
}

#[test]
fn trace_mem_read_and_write_report_watchpoints() {
    let mut dbg = Debugger::new();
    dbg.add_watchpoint("CPU0", 0x8000, READ);
    dbg.add_watchpoint("CPU0", 0x9000, WRITE);
    dbg.set_breakpoint("CPU0", 0x1000, true);
    let tracer = dbg.new_tracer();
    assert_eq!(
        tracer.trace_mem_read("CPU0", 0x2000, 0x8000),
        Err(TraceEvent::WatchpointRead(cpu0(), 0x8000))
    );
    assert_eq!(
        tracer.trace_mem_write("CPU0", 0x2000, 0x9000),
        Err(TraceEvent::WatchpointWrite(cpu0(), 0x9000))
    );
    assert_eq!(tracer.trace_mem_write("CPU0", 0x2000, 0x8000), Ok(()));
    assert_eq!(tracer.trace_mem_read("CPU0", 0x2000, 0x9000), Ok(()));
    assert_eq!(
        tracer.trace_mem_read("CPU0", 0x1000, 0x8000),
        Err(TraceEvent::Breakpoint(cpu0(), 0x1000, Some(READ)))
    );
    assert_eq!(
        tracer.trace_mem_write("CPU0", 0x1000, 0x4000),
        Err(TraceEvent::Breakpoint(cpu0(), 0x1000, Some(WRITE)))
    );
}

#[test]
fn event_clone_and_pauses() {
    let events = vec![
        (TraceEvent::Poll, false),
        (TraceEvent::Paused, false),
        (TraceEvent::Stepped, false),
        (TraceEvent::Breakpoint(cpu0(), 1, Some(READ)), true),
        (TraceEvent::BreakpointOneShot(cpu0(), 2), true),
        (TraceEvent::WatchpointWrite(cpu0(), 3), true),
        (TraceEvent::WatchpointRead(cpu0(), 4), true),
        (TraceEvent::GenericBreak("stop".to_string()), true),
    ];
    for (event, pauses) in events {
        assert_eq!(event.clone(), event);
        assert_eq!(event.pauses(), pauses);
    }
}
