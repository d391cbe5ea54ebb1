use sdb::Event;
use sdb::Session;
use sdb::SessionStep;
use sdb::TermInput;
use sdb::TermKey;

#[test]
fn moving_up_on_empty_history_is_a_noop() {
    let mut s = Session::new();
    s.set_input(b"draft".to_vec());
    s.move_history(-1);
    assert_eq!(s.current_input().as_slice(), b"draft");
    assert_eq!(s.cursor_position(), 0);
    assert_eq!(s.history_len(), 0);
}

#[test]
fn moving_down_past_fresh_line_is_a_noop() {
    let mut s = Session::new();
    s.set_input(b"continue".to_vec());
    s.submit().unwrap();
    s.set_input(b"draft".to_vec());
    s.move_history(1);
    assert_eq!(s.current_input().as_slice(), b"draft");
    assert_eq!(s.cursor_position(), 1);
}

#[test]
fn history_round_trip_restores_the_unsubmitted_edit() {
    let mut s = Session::new();
    s.set_input(b"continue".to_vec());
    s.submit().unwrap();
    s.set_input(b"draft".to_vec());
    s.move_history(-1);
    assert_eq!(s.current_input().as_slice(), b"continue");
    s.move_history(-1);
    assert_eq!(s.current_input().as_slice(), b"continue");
    s.move_history(1);
    assert_eq!(s.current_input().as_slice(), b"draft");
    s.move_history(1);
    assert_eq!(s.current_input().as_slice(), b"draft");
    assert_eq!(s.cursor_position(), s.history_len());
}

#[test]
fn large_downward_move_stops_at_the_oldest_entry() {
    let mut s = Session::new();
    s.set_input(b"continue".to_vec());
    s.submit().unwrap();
    s.set_input(b"exit".to_vec());
    s.submit().unwrap();
    s.set_input(b"draft".to_vec());
    s.move_history(-5);
    assert_eq!(s.cursor_position(), 0);
    assert_eq!(s.current_input().as_slice(), b"continue");
}

#[test]
fn navigation_loads_older_entries_in_turn() {
    let mut s = Session::new();
    s.set_input(b"continue".to_vec());
    s.submit().unwrap();
    s.set_input(b"exit".to_vec());
    s.submit().unwrap();
    s.move_history(-1);
    assert_eq!(s.current_input().as_slice(), b"exit");
    s.move_history(-1);
    assert_eq!(s.current_input().as_slice(), b"continue");
}

#[test]
fn empty_submission_with_empty_history_is_a_noop() {
    let mut s = Session::new();
    assert_eq!(s.submit(), None);
    assert_eq!(s.history_len(), 0);
}

#[test]
fn empty_submission_reuses_last_command_and_appends_it() {
    let mut s = Session::new();
    s.set_input(b"continue".to_vec());
    assert_eq!(s.submit(), Some(b"continue".to_vec()));
    assert_eq!(s.history_len(), 1);
    // empty input: the previous command runs again and is logged again
    assert_eq!(s.submit(), Some(b"continue".to_vec()));
    assert_eq!(s.history_len(), 2);
    assert_eq!(s.history_entry(0).as_slice(), b"continue");
    assert_eq!(s.history_entry(1).as_slice(), b"continue");
    assert_eq!(s.cursor_position(), 2);
}

#[test]
fn submission_clears_buffer_and_returns_to_fresh_line() {
    let mut s = Session::new();
    s.set_input(b"exit".to_vec());
    s.submit().unwrap();
    assert_eq!(s.current_input().len(), 0);
    assert_eq!(s.cursor_position(), s.history_len());
}

#[test]
fn tick_events_change_nothing() {
    let mut s = Session::new();
    s.set_input(b"draft".to_vec());
    let st = s.handle_event(Event::Tick);
    assert_eq!(st, SessionStep::KeepGoing);
    assert_eq!(s.current_input().as_slice(), b"draft");
}

#[test]
fn child_output_is_displayed_without_engine_interaction() {
    let mut s = Session::new();
    let st = s.handle_event(Event::ChildOutputLine(b"hello".to_vec()));
    assert_eq!(st, SessionStep::DisplayLine(b"hello".to_vec()));
}

#[test]
fn source_error_is_fatal() {
    let mut s = Session::new();
    let st = s.handle_event(Event::SourceError);
    assert_eq!(st, SessionStep::Fatal);
}

#[test]
fn ctrl_d_quits_immediately() {
    let mut s = Session::new();
    let st = s.handle_event(Event::Input(TermInput::Key(TermKey::CtrlD)));
    assert_eq!(st, SessionStep::Quit);
}

#[test]
fn other_keys_belong_to_the_line_editor() {
    let mut s = Session::new();
    let st = s.handle_event(Event::Input(TermInput::Key(TermKey::Other)));
    assert_eq!(st, SessionStep::EditKey);
    let st = s.handle_event(Event::Input(TermInput::NonKey));
    assert_eq!(st, SessionStep::KeepGoing);
}

#[test]
fn enter_submits_the_current_line() {
    let mut s = Session::new();
    s.set_input(b"exit".to_vec());
    let st = s.handle_event(Event::Input(TermInput::Key(TermKey::Enter)));
    assert_eq!(st, SessionStep::SubmitCmd(b"exit".to_vec()));
    assert_eq!(s.history_len(), 1);
}

#[test]
fn enter_on_fresh_session_is_a_noop() {
    let mut s = Session::new();
    let st = s.handle_event(Event::Input(TermInput::Key(TermKey::Enter)));
    assert_eq!(st, SessionStep::KeepGoing);
    assert_eq!(s.history_len(), 0);
}

#[test]
fn up_and_down_navigate_through_handle_event() {
    let mut s = Session::new();
    s.set_input(b"continue".to_vec());
    s.submit().unwrap();
    s.set_input(b"draft".to_vec());
    assert_eq!(s.handle_event(Event::Input(TermInput::Key(TermKey::Up))), SessionStep::KeepGoing);
    assert_eq!(s.current_input().as_slice(), b"continue");
    assert_eq!(s.handle_event(Event::Input(TermInput::Key(TermKey::Down))), SessionStep::KeepGoing);
    assert_eq!(s.current_input().as_slice(), b"draft");
}
