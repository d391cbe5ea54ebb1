use sdb::Debugger;
use sdb::DebuggerError;

// An id above the kernel's compile-time pid ceiling (2^22 on Linux), so it
// can never name a live process, yet fits the native signed range.
const NO_SUCH_PID: u64 = 99_999_999;

#[test]
fn new_engine_is_empty() {
    let d = Debugger::new();
    assert_eq!(d.tracee_pids().len(), 0);
    assert_eq!(d.owned_pids().len(), 0);
}

#[test]
fn default_engine_is_empty() {
    let d = Debugger::default();
    assert_eq!(d.tracee_pids().len(), 0);
    assert_eq!(d.owned_pids().len(), 0);
}

#[test]
fn attach_rejects_pid_above_signed_range() {
    let mut d = Debugger::new();
    let r = d.add_proc(u64::MAX);
    assert_eq!(r, Err(DebuggerError::ConversionError));
    assert_eq!(d.tracee_pids().len(), 0);
    assert_eq!(d.owned_pids().len(), 0);
}

#[test]
fn attach_rejects_first_pid_outside_signed_range() {
    let mut d = Debugger::new();
    let r = d.add_proc((i32::MAX as u64) + 1);
    assert_eq!(r, Err(DebuggerError::ConversionError));
    assert_eq!(d.tracee_pids().len(), 0);
}

#[test]
fn attach_accepts_largest_signed_pid_value() {
    let mut d = Debugger::new();
    // in range, but no such process: the OS refuses and nothing is recorded
    let r = d.add_proc(i32::MAX as u64);
    assert!(matches!(r, Err(DebuggerError::OsError(_))));
    assert_eq!(d.tracee_pids().len(), 0);
}

#[test]
fn attach_to_missing_process_fails_and_changes_nothing() {
    let mut d = Debugger::new();
    let r = d.add_proc(NO_SUCH_PID);
    assert!(matches!(r, Err(DebuggerError::OsError(_))));
    assert_eq!(d.tracee_pids().len(), 0);
    assert_eq!(d.owned_pids().len(), 0);
}

#[test]
fn record_spawned_extends_both_lists_together() {
    let mut d = Debugger::new();
    d.record_spawned(NO_SUCH_PID).unwrap();
    assert_eq!(d.tracee_pids().as_slice(), &[NO_SUCH_PID as i32]);
    assert_eq!(d.owned_pids().as_slice(), &[NO_SUCH_PID as i32]);
}

#[test]
fn record_spawned_rejects_pid_above_signed_range() {
    let mut d = Debugger::new();
    let r = d.record_spawned(u64::MAX);
    assert_eq!(r, Err(DebuggerError::ConversionError));
    assert_eq!(d.tracee_pids().len(), 0);
    assert_eq!(d.owned_pids().len(), 0);
}

#[test]
fn wait_with_no_tracees_succeeds() {
    let d = Debugger::new();
    assert_eq!(d.wait(), Ok(()));
}

#[test]
fn wait_on_stale_pid_reports_os_error() {
    let mut d = Debugger::new();
    d.record_spawned(NO_SUCH_PID).unwrap();
    assert!(matches!(d.wait(), Err(DebuggerError::OsError(_))));
}

#[test]
fn continue_execution_with_no_tracees_succeeds() {
    let mut d = Debugger::new();
    assert_eq!(d.continue_execution(), Ok(()));
}

#[test]
fn continue_execution_on_stale_pid_reports_os_error() {
    let mut d = Debugger::new();
    d.record_spawned(NO_SUCH_PID).unwrap();
    assert!(matches!(d.continue_execution(), Err(DebuggerError::OsError(_))));
}

#[test]
fn teardown_reaps_owned_tracees_and_never_raises() {
    let mut d = Debugger::new();
    d.record_spawned(NO_SUCH_PID).unwrap();
    // the stale id makes the kill and the reap fail; teardown shrugs it off
    d.teardown();
    assert_eq!(d.tracee_pids().len(), 0);
    assert_eq!(d.owned_pids().len(), 0);
}
