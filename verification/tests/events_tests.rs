use sdb::Event;
use sdb::Mux;
use sdb::SourceOutcome;
use sdb::TermInput;
use sdb::TermKey;

#[test]
fn terminal_events_pass_through() {
    let mut m = Mux::new(false);
    let r = m.step(SourceOutcome::Terminal(TermInput::Key(TermKey::Enter)));
    assert_eq!(r, Some(Event::Input(TermInput::Key(TermKey::Enter))));
}

#[test]
fn ticks_pass_through() {
    let mut m = Mux::new(true);
    assert_eq!(m.step(SourceOutcome::TickFired), Some(Event::Tick));
}

#[test]
fn terminal_read_failure_becomes_source_error() {
    let mut m = Mux::new(false);
    assert_eq!(m.step(SourceOutcome::TerminalError), Some(Event::SourceError));
}

#[test]
fn closed_terminal_stream_emits_nothing() {
    let mut m = Mux::new(false);
    assert_eq!(m.step(SourceOutcome::TerminalClosed), None);
}

#[test]
fn child_lines_pass_through_while_active() {
    let mut m = Mux::new(true);
    let r = m.step(SourceOutcome::ChildLine(b"out".to_vec()));
    assert_eq!(r, Some(Event::ChildOutputLine(b"out".to_vec())));
    assert!(m.child_active());
}

#[test]
fn child_eof_mid_session_keeps_other_sources_flowing() {
    let mut m = Mux::new(true);
    assert_eq!(m.step(SourceOutcome::ChildLine(b"last".to_vec())), Some(Event::ChildOutputLine(b"last".to_vec())));
    // end of stream: no event, no error, and the source leaves the poll set
    assert_eq!(m.step(SourceOutcome::ChildEof), None);
    assert!(!m.child_active());
    // ticks and terminal events still flow afterwards
    assert_eq!(m.step(SourceOutcome::TickFired), Some(Event::Tick));
    let r = m.step(SourceOutcome::Terminal(TermInput::Key(TermKey::Other)));
    assert_eq!(r, Some(Event::Input(TermInput::Key(TermKey::Other))));
}

#[test]
fn child_read_failure_becomes_source_error_and_removes_the_source() {
    let mut m = Mux::new(true);
    assert_eq!(m.step(SourceOutcome::ChildError), Some(Event::SourceError));
    assert!(!m.child_active());
}

#[test]
fn absent_child_source_is_never_polled_into_events() {
    let mut m = Mux::new(false);
    assert_eq!(m.step(SourceOutcome::ChildLine(b"stray".to_vec())), None);
    assert_eq!(m.step(SourceOutcome::ChildError), None);
}
