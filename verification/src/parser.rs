//! The command grammar and its error-recovering parser.
//!
//! A command line is zero or more single commands separated by `;`, each
//! optionally surrounded by whitespace.  A single command is the keyword
//! `continue` or `exit`; any other text at that position is captured as an
//! `Error` node and reported as a diagnostic instead of aborting the parse.
//! Parsing is total: it always yields a `Sequence` with one element per
//! separated segment, except that a line with no separator and no visible
//! text yields an empty `Sequence`.  Diagnostic spans are byte offsets into
//! the original input.

use vstd::prelude::*;

use crate::ast::Command;
use crate::ast::CommandView;
use crate::ast::Diagnostic;
use crate::ast::DiagnosticView;
use crate::ast::ErrorKind;
use crate::ast::ErrorKindView;

verus! {

/// Whether a byte is the separator between single commands (`;`).
pub open spec fn is_sep(b: u8) -> bool {
    b == 59
}

/// Whitespace around commands: the ASCII whitespace bytes.
pub open spec fn is_ws(b: u8) -> bool {
    b == 32 || b == 9 || b == 10 || b == 12 || b == 13
}

/// The bytes of the keyword `continue`.
pub open spec fn continue_word() -> Seq<u8> {
    seq![99u8, 111u8, 110u8, 116u8, 105u8, 110u8, 117u8, 101u8]
}

/// The bytes of the keyword `exit`.
pub open spec fn exit_word() -> Seq<u8> {
    seq![101u8, 120u8, 105u8, 116u8]
}

/// Whether the whole input is whitespace: such a line holds no command.
pub open spec fn all_ws(s: Seq<u8>) -> bool {
    forall|i: int| 0 <= i < s.len() ==> is_ws(#[trigger] s[i])
}

/// The position of the first separator at or after `from`, or the input's
/// length when there is none.
pub open spec fn next_sep(s: Seq<u8>, from: int) -> int
    decreases s.len() - from,
{
    if from >= s.len() {
        s.len() as int
    } else if is_sep(s[from]) {
        from
    } else {
        next_sep(s, from + 1)
    }
}

/// The first position in `[from, to)` holding a non-whitespace byte, or
/// `to` when there is none.
pub open spec fn skip_ws(s: Seq<u8>, from: int, to: int) -> int
    decreases to - from,
{
    if from >= to {
        to
    } else if is_ws(s[from]) {
        skip_ws(s, from + 1, to)
    } else {
        from
    }
}

/// One past the last position in `[from, to)` holding a non-whitespace
/// byte, or `from` when there is none.
pub open spec fn rskip_ws(s: Seq<u8>, from: int, to: int) -> int
    decreases to - from,
{
    if to <= from {
        from
    } else if is_ws(s[to - 1]) {
        rskip_ws(s, from, to - 1)
    } else {
        to
    }
}

/// What a trimmed segment means: one of the two keywords, or a captured
/// error token.
pub open spec fn classify_word(w: Seq<u8>) -> CommandView {
    if w == continue_word() {
        CommandView::Continue
    } else if w == exit_word() {
        CommandView::Exit
    } else {
        CommandView::Error(ErrorKindView::UnexpectedCommand(w))
    }
}

/// The first separator position never lies before `from` while `from` is
/// inside the input.
pub proof fn lemma_next_sep_lb(s: Seq<u8>, from: int)
    ensures
        from <= s.len() ==> next_sep(s, from) >= from,
    decreases s.len() - from,
{
    if from < s.len() && !is_sep(s[from]) {
        lemma_next_sep_lb(s, from + 1);
    }
}

/// The commands and diagnostics of the segments from position `from` on.
/// Each segment runs to the next separator; its trimmed text is classified,
/// and a captured error token carries a diagnostic spanning it.
pub open spec fn parse_rest(s: Seq<u8>, from: int) -> (Seq<CommandView>, Seq<DiagnosticView>)
    decreases s.len() - from,
    via parse_rest_decreases
{
    let e = next_sep(s, from);
    let ts = skip_ws(s, from, e);
    let te = rskip_ws(s, ts, e);
    let w = s.subrange(ts, te);
    let item = classify_word(w);
    let here: Seq<DiagnosticView> = if item is Error {
        seq![DiagnosticView { start: ts, end: te, kind: ErrorKindView::UnexpectedCommand(w) }]
    } else {
        Seq::empty()
    };
    if e >= s.len() {
        (seq![item], here)
    } else {
        let rest = parse_rest(s, e + 1);
        (seq![item] + rest.0, here + rest.1)
    }
}

#[via_fn]
proof fn parse_rest_decreases(s: Seq<u8>, from: int) {
    lemma_next_sep_lb(s, from);
}

/// What parsing an input yields: an all-whitespace line holds no command;
/// anything else is one command per separated segment.
pub open spec fn parse_elems(s: Seq<u8>) -> Seq<CommandView> {
    if all_ws(s) {
        Seq::empty()
    } else {
        parse_rest(s, 0).0
    }
}

/// The diagnostics parsing an input yields, in segment order.
pub open spec fn parse_diags(s: Seq<u8>) -> Seq<DiagnosticView> {
    if all_ws(s) {
        Seq::empty()
    } else {
        parse_rest(s, 0).1
    }
}

/// Law: a line of nothing but whitespace — the empty line included —
/// parses to a sequence of no commands and no diagnostics.
pub proof fn lemma_blank_line_parses_empty(s: Seq<u8>)
    requires
        all_ws(s),
    ensures
        parse_elems(s) =~= Seq::<CommandView>::empty(),
        parse_diags(s) =~= Seq::<DiagnosticView>::empty(),
{
}

/// Whether a byte is command whitespace.
fn is_ws_byte(b: u8) -> (r: bool)
    ensures
        r == is_ws(b),
{
    b == 32 || b == 9 || b == 10 || b == 12 || b == 13
}

/// Whether a trimmed segment is the keyword `continue`.
fn is_continue(w: &[u8]) -> (r: bool)
    ensures
        r == (w@ == continue_word()),
{
    let r = w.len() == 8 && w[0] == 99 && w[1] == 111 && w[2] == 110 && w[3] == 116 && w[4] == 105
        && w[5] == 110 && w[6] == 117 && w[7] == 101;
    proof {
        if r {
            assert(w@ =~= continue_word());
        }
        if w@ == continue_word() {
            assert(w@.len() == 8);
            assert(w@[0] == 99u8);
            assert(w@[1] == 111u8);
            assert(w@[2] == 110u8);
            assert(w@[3] == 116u8);
            assert(w@[4] == 105u8);
            assert(w@[5] == 110u8);
            assert(w@[6] == 117u8);
            assert(w@[7] == 101u8);
        }
    }
    r
}

/// Whether a trimmed segment is the keyword `exit`.
fn is_exit(w: &[u8]) -> (r: bool)
    ensures
        r == (w@ == exit_word()),
{
    let r = w.len() == 4 && w[0] == 101 && w[1] == 120 && w[2] == 105 && w[3] == 116;
    proof {
        if r {
            assert(w@ =~= exit_word());
        }
        if w@ == exit_word() {
            assert(w@.len() == 4);
            assert(w@[0] == 101u8);
            assert(w@[1] == 120u8);
            assert(w@[2] == 105u8);
            assert(w@[3] == 116u8);
        }
    }
    r
}

/// Parse a command line.
///
/// Always yields a `Sequence` — unrecognized text becomes `Error` nodes —
/// together with the diagnostics, one per error node, each spanning the
/// offending bytes of the input.
#[verifier::loop_isolation(false)]
pub fn parse_command(input: &[u8]) -> (r: (Command, Vec<Diagnostic>))
    ensures
        r.0.deep_view() == CommandView::Sequence(parse_elems(input@)),
        r.1.deep_view() == parse_diags(input@),
{
    let ghost s = input@;
    let n = input.len();

    // An all-whitespace line holds no command at all.
    let mut i: usize = 0;
    while i < n && is_ws_byte(input[i])
        invariant
            i <= n,
            forall|j: int| 0 <= j < i ==> is_ws(#[trigger] s[j]),
        decreases n - i,
    {
        i = i + 1;
    }
    if i == n {
        let r = (Command::Sequence(Vec::new()), Vec::<Diagnostic>::new());
        proof {
            assert(all_ws(s));
            assert(r.0.deep_view() matches CommandView::Sequence(l) && l =~= parse_elems(s));
            assert(r.1.deep_view() =~= parse_diags(s));
        }
        return r;
    }
    proof {
        assert(!is_ws(s[i as int]));
        assert(!all_ws(s));
    }

    let mut elems: Vec<Command> = Vec::new();
    let mut diags: Vec<Diagnostic> = Vec::new();
    let mut from: usize = 0;
    let mut done = false;
    while !done
        invariant
            from <= n,
            !done ==> {
                &&& parse_rest(s, 0).0 =~= elems.deep_view() + parse_rest(s, from as int).0
                &&& parse_rest(s, 0).1 =~= diags.deep_view() + parse_rest(s, from as int).1
            },
            done ==> {
                &&& parse_rest(s, 0).0 =~= elems.deep_view()
                &&& parse_rest(s, 0).1 =~= diags.deep_view()
            },
        decreases n - from + (if done { 0int } else { 1int }),
    {
        // The segment runs to the next separator.
        let mut e: usize = from;
        while e < n && input[e] != 59
            invariant
                from <= e <= n,
                next_sep(s, from as int) == next_sep(s, e as int),
            decreases n - e,
        {
            e = e + 1;
        }
        proof {
            assert(next_sep(s, from as int) == e as int);
        }

        // Trim whitespace off both ends.
        let mut ts: usize = from;
        while ts < e && is_ws_byte(input[ts])
            invariant
                from <= ts <= e,
                skip_ws(s, from as int, e as int) == skip_ws(s, ts as int, e as int),
            decreases e - ts,
        {
            ts = ts + 1;
        }
        proof {
            assert(skip_ws(s, from as int, e as int) == ts as int);
        }

        let mut te: usize = e;
        while te > ts && is_ws_byte(input[te - 1])
            invariant
                ts <= te <= e,
                rskip_ws(s, ts as int, e as int) == rskip_ws(s, ts as int, te as int),
            decreases te,
        {
            te = te - 1;
        }
        proof {
            assert(rskip_ws(s, ts as int, e as int) == te as int);
        }

        let word = vstd::slice::slice_to_vec(vstd::slice::slice_subrange(input, ts, te));
        let ghost w = s.subrange(ts as int, te as int);
        proof {
            assert(word.deep_view() =~= w);
        }

        let ghost elems0 = elems.deep_view();
        let ghost diags0 = diags.deep_view();
        if is_continue(word.as_slice()) {
            elems.push(Command::Continue);
        } else if is_exit(word.as_slice()) {
            elems.push(Command::Exit);
        } else {
            let kind = ErrorKind::UnexpectedCommand(word);
            diags.push(Diagnostic { start: ts, end: te, kind: kind.duplicate() });
            elems.push(Command::Error(kind));
        }
        proof {
            let item = classify_word(w);
            assert(elems.deep_view() =~= elems0.push(item));
            if item is Error {
                assert(diags.deep_view() =~= diags0.push(
                    DiagnosticView {
                        start: ts as int,
                        end: te as int,
                        kind: ErrorKindView::UnexpectedCommand(w),
                    },
                ));
            } else {
                assert(diags.deep_view() =~= diags0);
            }
            let r = parse_rest(s, from as int);
            if e < n {
                let rest = parse_rest(s, e as int + 1);
                assert(r.0 =~= seq![item] + rest.0);
                assert(elems.deep_view() + rest.0 =~= elems0 + r.0);
                assert(diags.deep_view() + rest.1 =~= diags0 + r.1);
            } else {
                assert(r.0 =~= seq![item]);
                assert(elems.deep_view() =~= elems0 + r.0);
                assert(diags.deep_view() =~= diags0 + r.1);
            }
        }
        if e == n {
            done = true;
        } else {
            from = e + 1;
        }
    }

    let r = (Command::Sequence(elems), diags);
    proof {
        assert(r.0.deep_view() matches CommandView::Sequence(l) && l =~= parse_elems(s));
        assert(r.0.deep_view() == CommandView::Sequence(parse_elems(s)));
        assert(r.1.deep_view() == parse_diags(s));
    }
    r
}

} // verus!
