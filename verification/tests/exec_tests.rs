use sdb::Command;
use sdb::Debugger;
use sdb::ErrorKind;
use sdb::run_command;
use sdb::run_command_ast;
use sdb::session_continues_after;

#[test]
fn exit_short_circuits_the_rest_of_the_sequence() {
    let mut debugger = Debugger::new();
    let mut reports: Vec<ErrorKind> = Vec::new();
    let ast = Command::Sequence(vec![Command::Exit, Command::Continue]);
    let r = run_command_ast(&ast, &mut debugger, &mut reports);
    assert_eq!(r, Ok(false));
    assert_eq!(reports.len(), 0);
}

#[test]
fn exit_short_circuits_nested_sequences() {
    let mut debugger = Debugger::new();
    let mut reports: Vec<ErrorKind> = Vec::new();
    let inner = Command::Sequence(vec![Command::Exit]);
    let ast = Command::Sequence(vec![
        inner,
        Command::Error(ErrorKind::UnexpectedCommand(b"late".to_vec())),
    ]);
    let r = run_command_ast(&ast, &mut debugger, &mut reports);
    assert_eq!(r, Ok(false));
    assert_eq!(reports.len(), 0);
}

#[test]
fn error_node_is_reported_and_execution_goes_on() {
    let mut debugger = Debugger::new();
    let mut diags = Vec::new();
    let mut reports = Vec::new();
    let r = run_command(b"bogus", &mut debugger, &mut diags, &mut reports);
    assert_eq!(r, Ok(true));
    assert_eq!(reports, vec![ErrorKind::UnexpectedCommand(b"bogus".to_vec())]);
    assert_eq!(diags.len(), 1);
}

#[test]
fn error_nodes_do_not_stop_a_following_exit() {
    let mut debugger = Debugger::new();
    let mut diags = Vec::new();
    let mut reports = Vec::new();
    let r = run_command(b"bogus ; exit ; wat", &mut debugger, &mut diags, &mut reports);
    assert_eq!(r, Ok(false));
    // only the error before the exit is reported; nothing after it runs
    assert_eq!(reports, vec![ErrorKind::UnexpectedCommand(b"bogus".to_vec())]);
    assert_eq!(diags.len(), 2);
}

#[test]
fn continue_with_no_tracees_succeeds() {
    let mut debugger = Debugger::new();
    let mut diags = Vec::new();
    let mut reports = Vec::new();
    let r = run_command(b"continue", &mut debugger, &mut diags, &mut reports);
    assert_eq!(r, Ok(true));
    assert_eq!(reports.len(), 0);
    assert_eq!(diags.len(), 0);
}

#[test]
fn blank_line_runs_nothing() {
    let mut debugger = Debugger::new();
    let mut diags = Vec::new();
    let mut reports = Vec::new();
    let r = run_command(b"   ", &mut debugger, &mut diags, &mut reports);
    assert_eq!(r, Ok(true));
    assert_eq!(reports.len(), 0);
    assert_eq!(diags.len(), 0);
}

#[test]
fn session_closes_only_on_exit_result() {
    assert!(!session_continues_after(&Ok(false)));
    assert!(session_continues_after(&Ok(true)));
    assert!(session_continues_after(&Err(sdb::DebuggerError::OsError(3))));
}
