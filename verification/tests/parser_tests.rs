use sdb::Command;
use sdb::Diagnostic;
use sdb::ErrorKind;
use sdb::parse_command;

fn unexpected(text: &[u8]) -> ErrorKind {
    ErrorKind::UnexpectedCommand(text.to_vec())
}

#[test]
fn parses_continue_exit_sequence() {
    let (ast, diags) = parse_command(b"continue;exit");
    assert_eq!(ast, Command::Sequence(vec![Command::Continue, Command::Exit]));
    assert_eq!(diags.len(), 0);
}

#[test]
fn parses_bogus_with_one_spanning_diagnostic() {
    let (ast, diags) = parse_command(b"continue ; bogus ; exit");
    assert_eq!(
        ast,
        Command::Sequence(vec![
            Command::Continue,
            Command::Error(unexpected(b"bogus")),
            Command::Exit,
        ])
    );
    assert_eq!(diags.len(), 1);
    assert_eq!(diags[0], Diagnostic { start: 11, end: 16, kind: unexpected(b"bogus") });
}

#[test]
fn parses_empty_input_as_empty_sequence() {
    let (ast, diags) = parse_command(b"");
    assert_eq!(ast, Command::Sequence(vec![]));
    assert_eq!(diags.len(), 0);
}

#[test]
fn parses_whitespace_only_input_as_empty_sequence() {
    let (ast, diags) = parse_command(b"  \t \r\n ");
    assert_eq!(ast, Command::Sequence(vec![]));
    assert_eq!(diags.len(), 0);
}

#[test]
fn parses_padded_keyword() {
    let (ast, diags) = parse_command(b"   exit   ");
    assert_eq!(ast, Command::Sequence(vec![Command::Exit]));
    assert_eq!(diags.len(), 0);
}

#[test]
fn parses_lone_bogus_token() {
    let (ast, diags) = parse_command(b"bogus");
    assert_eq!(ast, Command::Sequence(vec![Command::Error(unexpected(b"bogus"))]));
    assert_eq!(diags.len(), 1);
    assert_eq!(diags[0], Diagnostic { start: 0, end: 5, kind: unexpected(b"bogus") });
}

#[test]
fn reports_empty_trailing_segment() {
    let (ast, diags) = parse_command(b"continue;");
    assert_eq!(
        ast,
        Command::Sequence(vec![Command::Continue, Command::Error(unexpected(b""))])
    );
    assert_eq!(diags.len(), 1);
    assert_eq!(diags[0], Diagnostic { start: 9, end: 9, kind: unexpected(b"") });
}

#[test]
fn captures_non_alphabetic_garbage() {
    let (ast, diags) = parse_command(b"step 3");
    assert_eq!(ast, Command::Sequence(vec![Command::Error(unexpected(b"step 3"))]));
    assert_eq!(diags.len(), 1);
    assert_eq!(diags[0], Diagnostic { start: 0, end: 6, kind: unexpected(b"step 3") });
}

#[test]
fn keyword_prefix_is_not_a_keyword() {
    let (ast, diags) = parse_command(b"cont");
    assert_eq!(ast, Command::Sequence(vec![Command::Error(unexpected(b"cont"))]));
    assert_eq!(diags.len(), 1);
}
