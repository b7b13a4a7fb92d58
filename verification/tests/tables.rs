use emu_dbg::clock::clamp_nanos;
use emu_dbg::{AccessKind, BreakpointState, Clock, Debugger};

const PERSISTENT_ON: BreakpointState = BreakpointState { enabled: true, one_shot: false };
const PERSISTENT_OFF: BreakpointState = BreakpointState { enabled: false, one_shot: false };
const ONE_SHOT: BreakpointState = BreakpointState { enabled: true, one_shot: true };

#[test]
fn new_debugger_is_empty() {
    let dbg = Debugger::new();
    assert_eq!(dbg.breakpoint("CPU0", 0), None);
    assert_eq!(dbg.breakpoint_oneshot("CPU0"), None);
    assert!(!dbg.is_watched("CPU0", 0, AccessKind::Read));
    assert_eq!(dbg.poll_deadline(), None);
}

#[test]
fn set_breakpoint_inserts_and_replaces() {
    let mut dbg = Debugger::new();
    dbg.set_breakpoint("CPU0", 0x1000, true);
    dbg.set_breakpoint("CPU0", 0x2000, false);
    assert_eq!(dbg.breakpoint("CPU0", 0x1000), Some(PERSISTENT_ON));
    assert_eq!(dbg.breakpoint("CPU0", 0x2000), Some(PERSISTENT_OFF));
    assert_eq!(dbg.breakpoint("CPU1", 0x1000), None);
    assert_eq!(dbg.breakpoint("CPU0", 0x1004), None);

    dbg.set_breakpoint("CPU0", 0x1000, false);
    assert_eq!(dbg.breakpoint("CPU0", 0x1000), Some(PERSISTENT_OFF));
    assert_eq!(dbg.breakpoint("CPU0", 0x2000), Some(PERSISTENT_OFF));
}

#[test]
fn cpu_names_are_compared_by_their_text() {
    let mut dbg = Debugger::new();
    dbg.set_breakpoint("CPU0", 0x1000, true);
    let same = String::from("CPU") + "0";
    assert_eq!(dbg.breakpoint(&same, 0x1000), Some(PERSISTENT_ON));
    assert_eq!(dbg.breakpoint("CPU", 0x1000), None);
    assert_eq!(dbg.breakpoint("CPU00", 0x1000), None);
    assert_eq!(dbg.breakpoint("cpu0", 0x1000), None);
    assert_eq!(dbg.breakpoint("", 0x1000), None);
}

#[test]
fn remove_breakpoint_is_idempotent() {
    let mut dbg = Debugger::new();
    dbg.set_breakpoint("CPU0", 0x1000, true);
    dbg.set_breakpoint("CPU0", 0x2000, true);
    dbg.remove_breakpoint("CPU0", 0x1000);
    assert_eq!(dbg.breakpoint("CPU0", 0x1000), None);
    assert_eq!(dbg.breakpoint("CPU0", 0x2000), Some(PERSISTENT_ON));
    dbg.remove_breakpoint("CPU0", 0x1000);
    dbg.remove_breakpoint("CPU1", 0x2000);
    assert_eq!(dbg.breakpoint("CPU0", 0x1000), None);
    assert_eq!(dbg.breakpoint("CPU0", 0x2000), Some(PERSISTENT_ON));
}

#[test]
fn oneshot_supersedes_the_previous_oneshot_of_the_cpu() {
    let mut dbg = Debugger::new();
    dbg.set_breakpoint_oneshot("CPU1", Some(0x1000));
    assert_eq!(dbg.breakpoint_oneshot("CPU1"), Some(0x1000));
    assert_eq!(dbg.breakpoint("CPU1", 0x1000), Some(ONE_SHOT));

    dbg.set_breakpoint_oneshot("CPU1", Some(0x2000));
    assert_eq!(dbg.breakpoint_oneshot("CPU1"), Some(0x2000));
    assert_eq!(dbg.breakpoint("CPU1", 0x2000), Some(ONE_SHOT));
    assert_eq!(dbg.breakpoint("CPU1", 0x1000), None);
}

#[test]
fn oneshot_of_one_cpu_leaves_the_others_alone() {
    let mut dbg = Debugger::new();
    dbg.set_breakpoint_oneshot("CPU0", Some(0x1000));
    dbg.set_breakpoint("CPU0", 0x3000, true);
    dbg.set_breakpoint_oneshot("CPU1", Some(0x1000));
    dbg.set_breakpoint_oneshot("CPU1", Some(0x2000));
    assert_eq!(dbg.breakpoint_oneshot("CPU0"), Some(0x1000));
    assert_eq!(dbg.breakpoint_oneshot("CPU1"), Some(0x2000));
    assert_eq!(dbg.breakpoint("CPU0", 0x1000), Some(ONE_SHOT));
    assert_eq!(dbg.breakpoint("CPU0", 0x3000), Some(PERSISTENT_ON));
    assert_eq!(dbg.breakpoint("CPU1", 0x1000), None);
}

#[test]
fn rearming_at_the_same_address_keeps_one_entry() {
    let mut dbg = Debugger::new();
    dbg.set_breakpoint_oneshot("CPU1", Some(0x2000));
    dbg.set_breakpoint_oneshot("CPU1", Some(0x2000));
    assert_eq!(dbg.breakpoint_oneshot("CPU1"), Some(0x2000));
    dbg.disable_breakpoint_oneshot();
    assert_eq!(dbg.breakpoint("CPU1", 0x2000), None);
    assert_eq!(dbg.breakpoint_oneshot("CPU1"), None);
}

#[test]
fn oneshot_takes_the_place_of_an_entry_at_its_address() {
    let mut dbg = Debugger::new();
    dbg.set_breakpoint("CPU0", 0x1000, false);
    dbg.set_breakpoint_oneshot("CPU0", Some(0x1000));
    assert_eq!(dbg.breakpoint("CPU0", 0x1000), Some(ONE_SHOT));
    dbg.disable_breakpoint_oneshot();
    assert_eq!(dbg.breakpoint("CPU0", 0x1000), None);
}

#[test]
fn set_breakpoint_takes_the_place_of_a_oneshot() {
    let mut dbg = Debugger::new();
    dbg.set_breakpoint_oneshot("CPU0", Some(0x1000));
    dbg.set_breakpoint("CPU0", 0x1000, true);
    assert_eq!(dbg.breakpoint("CPU0", 0x1000), Some(PERSISTENT_ON));
    assert_eq!(dbg.breakpoint_oneshot("CPU0"), None);
    dbg.disable_breakpoint_oneshot();
    assert_eq!(dbg.breakpoint("CPU0", 0x1000), Some(PERSISTENT_ON));
}

#[test]
fn set_breakpoint_oneshot_none_disarms_that_cpu_only() {
    let mut dbg = Debugger::new();
    dbg.set_breakpoint_oneshot("CPU0", Some(0x1000));
    dbg.set_breakpoint_oneshot("CPU1", Some(0x2000));
    dbg.set_breakpoint("CPU0", 0x3000, true);
    dbg.set_breakpoint_oneshot("CPU0", None);
    assert_eq!(dbg.breakpoint_oneshot("CPU0"), None);
    assert_eq!(dbg.breakpoint("CPU0", 0x1000), None);
    assert_eq!(dbg.breakpoint("CPU0", 0x3000), Some(PERSISTENT_ON));
    assert_eq!(dbg.breakpoint_oneshot("CPU1"), Some(0x2000));
    dbg.set_breakpoint_oneshot("CPU0", None);
    assert_eq!(dbg.breakpoint_oneshot("CPU0"), None);
}

#[test]
fn disable_breakpoint_oneshot_clears_all_and_is_idempotent() {
    let mut dbg = Debugger::new();
    dbg.set_breakpoint("CPU0", 0x1000, true);
    dbg.set_breakpoint_oneshot("CPU0", Some(0x1100));
    dbg.set_breakpoint("CPU1", 0x2000, false);
    dbg.set_breakpoint_oneshot("CPU1", Some(0x2100));
    dbg.set_breakpoint_oneshot("CPU2", Some(0x3100));

    dbg.disable_breakpoint_oneshot();
    assert_eq!(dbg.breakpoint_oneshot("CPU0"), None);
    assert_eq!(dbg.breakpoint_oneshot("CPU1"), None);
    assert_eq!(dbg.breakpoint_oneshot("CPU2"), None);
    assert_eq!(dbg.breakpoint("CPU0", 0x1100), None);
    assert_eq!(dbg.breakpoint("CPU1", 0x2100), None);
    assert_eq!(dbg.breakpoint("CPU2", 0x3100), None);
    assert_eq!(dbg.breakpoint("CPU0", 0x1000), Some(PERSISTENT_ON));
    assert_eq!(dbg.breakpoint("CPU1", 0x2000), Some(PERSISTENT_OFF));

    dbg.disable_breakpoint_oneshot();
    assert_eq!(dbg.breakpoint("CPU0", 0x1000), Some(PERSISTENT_ON));
    assert_eq!(dbg.breakpoint("CPU1", 0x2000), Some(PERSISTENT_OFF));
    assert_eq!(dbg.breakpoint_oneshot("CPU0"), None);
}

#[test]
fn disable_breakpoint_oneshot_on_an_empty_table() {
    let mut dbg = Debugger::new();
    dbg.disable_breakpoint_oneshot();
    assert_eq!(dbg.breakpoint_oneshot("CPU0"), None);
}

#[test]
fn watchpoints_are_kept_by_cpu_address_and_kind() {
    let mut dbg = Debugger::new();
    dbg.add_watchpoint("CPU0", 0x8000, AccessKind::Read);
    dbg.add_watchpoint("CPU1", 0x9000, AccessKind::Write);
    dbg.add_watchpoint("CPU0", 0x8000, AccessKind::Read);
    assert!(dbg.is_watched("CPU0", 0x8000, AccessKind::Read));
    assert!(!dbg.is_watched("CPU0", 0x8000, AccessKind::Write));
    assert!(!dbg.is_watched("CPU1", 0x8000, AccessKind::Read));
    assert!(!dbg.is_watched("CPU0", 0x8001, AccessKind::Read));
    assert!(dbg.is_watched("CPU1", 0x9000, AccessKind::Write));
    assert!(!dbg.is_watched("CPU1", 0x9000, AccessKind::Read));

    dbg.clear_watchpoints();
    assert!(!dbg.is_watched("CPU0", 0x8000, AccessKind::Read));
    assert!(!dbg.is_watched("CPU1", 0x9000, AccessKind::Write));
}

#[test]
fn tables_do_not_touch_each_other() {
    let mut dbg = Debugger::new();
    dbg.set_breakpoint("CPU0", 0x1000, true);
    dbg.add_watchpoint("CPU0", 0x1000, AccessKind::Write);
    dbg.set_poll_event(Some(77));
    dbg.clear_watchpoints();
    assert_eq!(dbg.breakpoint("CPU0", 0x1000), Some(PERSISTENT_ON));
    assert_eq!(dbg.poll_deadline(), Some(77));
    dbg.add_watchpoint("CPU0", 0x1000, AccessKind::Write);
    dbg.remove_breakpoint("CPU0", 0x1000);
    dbg.set_poll_event(None);
    assert!(dbg.is_watched("CPU0", 0x1000, AccessKind::Write));
    assert_eq!(dbg.poll_deadline(), None);
}

#[test]
fn clock_moves_forward() {
    let dbg = Debugger::new();
    let start = dbg.now();
    let mut now = dbg.now();
    assert!(now >= start);
    while now < start + 1_000_000 {
        let next = dbg.now();
        assert!(next >= now);
        now = next;
    }
    assert!(now - start >= 1_000_000);
}

#[test]
fn clocks_count_from_their_own_start() {
    let first = Clock::start();
    let mut reading = first.now();
    while reading < 2_000_000 {
        reading = first.now();
    }
    let second = Clock::start();
    let late = first.now();
    let early = second.now();
    assert!(late >= 2_000_000);
    assert!(early <= late);
}

#[test]
fn clock_readings_are_held_at_the_largest_time() {
    assert_eq!(clamp_nanos(0), 0);
    assert_eq!(clamp_nanos(50_000_000), 50_000_000);
    assert_eq!(clamp_nanos(u64::MAX as u128 - 1), u64::MAX - 1);
    assert_eq!(clamp_nanos(u64::MAX as u128), u64::MAX);
    assert_eq!(clamp_nanos(u64::MAX as u128 + 1), u64::MAX);
    assert_eq!(clamp_nanos(1 << 64), u64::MAX);
    assert_eq!(clamp_nanos((1 << 64) + 5), u64::MAX);
    assert_eq!(clamp_nanos(u128::MAX), u64::MAX);
}
