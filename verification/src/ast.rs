//! The command language's abstract syntax tree and its mathematical model.
//!
//! A parsed command line is a `Command::Sequence`; its elements are the
//! single commands, with unrecognized text captured as `Command::Error`
//! nodes rather than aborting the parse.  The ghost mirror `CommandView`
//! (sequences instead of vectors) is what the contracts speak of, and the
//! execution-trace functions below give the executor its model: the steps
//! a command performs, in order, cut short at the first `Exit`.

use vstd::prelude::*;

verus! {

/// Why a piece of command text was rejected.
#[derive(Debug, Clone, PartialEq, Eq)]
pub enum ErrorKind {
    /// The captured token run that stood where a command was expected.
    UnexpectedCommand(Vec<u8>),
}

/// A command of the language.
#[derive(Debug, PartialEq, Eq)]
pub enum Command {
    Continue,
    Exit,
    Sequence(Vec<Command>),
    Error(ErrorKind),
}

/// A recoverable parse error: the byte span of the offending text in the
/// original input, and the reason.
#[derive(Debug, Clone, PartialEq, Eq)]
pub struct Diagnostic {
    pub start: usize,
    pub end: usize,
    pub kind: ErrorKind,
}

/// Ghost mirror of `ErrorKind`.
pub enum ErrorKindView {
    UnexpectedCommand(Seq<u8>),
}

/// Ghost mirror of `Command`.
pub enum CommandView {
    Continue,
    Exit,
    Sequence(Seq<CommandView>),
    Error(ErrorKindView),
}

/// Ghost mirror of `Diagnostic`.
pub struct DiagnosticView {
    pub start: int,
    pub end: int,
    pub kind: ErrorKindView,
}

impl ErrorKind {
    /// A copy whose model equals this one's.
    pub fn duplicate(&self) -> (r: ErrorKind)
        ensures
            r.deep_view() == self.deep_view(),
    {
        match self {
            ErrorKind::UnexpectedCommand(w) => {
                let c = w.clone();
                proof {
                    assert(c.deep_view() =~= w.deep_view());
                }
                ErrorKind::UnexpectedCommand(c)
            }
        }
    }
}

impl DeepView for ErrorKind {
    type V = ErrorKindView;

    open spec fn deep_view(&self) -> ErrorKindView {
        match self {
            ErrorKind::UnexpectedCommand(w) => ErrorKindView::UnexpectedCommand(w.deep_view()),
        }
    }
}

impl DeepView for Command {
    type V = CommandView;

    open spec fn deep_view(&self) -> CommandView
        decreases self,
    {
        match self {
            Command::Continue => CommandView::Continue,
            Command::Exit => CommandView::Exit,
            Command::Sequence(v) => CommandView::Sequence(
                Seq::new(
                    v@.len(),
                    |i: int|
                        if 0 <= i < v@.len() {
                            v@[i].deep_view()
                        } else {
                            CommandView::Exit
                        },
                ),
            ),
            Command::Error(k) => CommandView::Error(k.deep_view()),
        }
    }
}

impl DeepView for Diagnostic {
    type V = DiagnosticView;

    open spec fn deep_view(&self) -> DiagnosticView {
        DiagnosticView { start: self.start as int, end: self.end as int, kind: self.kind.deep_view() }
    }
}

/// One step of an execution trace: a resume batch issued to the engine, or
/// an error node reported to the caller.
pub enum StepView {
    Resume,
    Report(ErrorKindView),
}

/// Whether executing `c` reaches an `Exit` (and so ends the session).
pub open spec fn halts(c: CommandView) -> bool
    decreases c,
{
    match c {
        CommandView::Continue => false,
        CommandView::Exit => true,
        CommandView::Sequence(l) => halts_seq(l),
        CommandView::Error(_) => false,
    }
}

/// Whether executing the elements of a sequence in order reaches an `Exit`.
pub open spec fn halts_seq(l: Seq<CommandView>) -> bool
    decreases l,
{
    if l.len() == 0 {
        false
    } else {
        halts(l[0]) || halts_seq(l.drop_first())
    }
}

/// The steps executing `c` performs, in order, assuming every resume
/// succeeds: depth-first and left to right, cut short at the first `Exit`.
pub open spec fn trace_of(c: CommandView) -> Seq<StepView>
    decreases c,
{
    match c {
        CommandView::Continue => seq![StepView::Resume],
        CommandView::Exit => Seq::empty(),
        CommandView::Sequence(l) => trace_of_seq(l),
        CommandView::Error(k) => seq![StepView::Report(k)],
    }
}

/// The steps of a sequence's elements in order, cut at the first element
/// that reaches an `Exit`: nothing after it executes.
pub open spec fn trace_of_seq(l: Seq<CommandView>) -> Seq<StepView>
    decreases l,
{
    if l.len() == 0 {
        Seq::empty()
    } else if halts(l[0]) {
        trace_of(l[0])
    } else {
        trace_of(l[0]) + trace_of_seq(l.drop_first())
    }
}

/// How many of a trace's steps are resume batches.
pub open spec fn resumes_in(tr: Seq<StepView>) -> nat
    decreases tr,
{
    if tr.len() == 0 {
        0
    } else {
        (if tr[0] is Resume {
            1nat
        } else {
            0nat
        }) + resumes_in(tr.drop_first())
    }
}

/// The reported error kinds among a trace's steps, in order.
pub open spec fn reports_in(tr: Seq<StepView>) -> Seq<ErrorKindView>
    decreases tr,
{
    if tr.len() == 0 {
        Seq::empty()
    } else {
        match tr[0] {
            StepView::Report(k) => seq![k] + reports_in(tr.drop_first()),
            _ => reports_in(tr.drop_first()),
        }
    }
}

/// How many resume batches executing `c` asks of the engine.
pub open spec fn resume_count(c: CommandView) -> nat {
    resumes_in(trace_of(c))
}

/// The error reports executing `c` surfaces, in order.
pub open spec fn reports_of(c: CommandView) -> Seq<ErrorKindView> {
    reports_in(trace_of(c))
}

/// What the empty trace and a one-step trace measure as.
pub proof fn lemma_singleton_trace(st: StepView)
    ensures
        resumes_in(Seq::<StepView>::empty()) == 0,
        reports_in(Seq::<StepView>::empty()) =~= Seq::<ErrorKindView>::empty(),
        resumes_in(seq![st]) == (if st is Resume {
            1nat
        } else {
            0nat
        }),
        reports_in(seq![st]) =~= (match st {
            StepView::Report(k) => seq![k],
            _ => Seq::<ErrorKindView>::empty(),
        }),
{
    let e = Seq::<StepView>::empty();
    assert(resumes_in(e) == 0);
    assert(reports_in(e) =~= Seq::<ErrorKindView>::empty());
    assert(seq![st].drop_first() =~= e);
    assert(seq![st][0] == st);
    assert(resumes_in(seq![st]) == (if st is Resume {
        1nat
    } else {
        0nat
    }) + resumes_in(e));
}

/// Counting resumes distributes over joining traces.
pub proof fn lemma_resumes_in_add(a: Seq<StepView>, b: Seq<StepView>)
    ensures
        resumes_in(a + b) == resumes_in(a) + resumes_in(b),
    decreases a,
{
    if a.len() == 0 {
        assert(a + b =~= b);
    } else {
        assert((a + b).drop_first() =~= a.drop_first() + b);
        assert((a + b)[0] == a[0]);
        lemma_resumes_in_add(a.drop_first(), b);
    }
}

/// Collecting reports distributes over joining traces.
pub proof fn lemma_reports_in_add(a: Seq<StepView>, b: Seq<StepView>)
    ensures
        reports_in(a + b) =~= reports_in(a) + reports_in(b),
    decreases a,
{
    if a.len() == 0 {
        assert(a + b =~= b);
        assert(reports_in(a) + reports_in(b) =~= reports_in(b));
    } else {
        assert((a + b).drop_first() =~= a.drop_first() + b);
        assert((a + b)[0] == a[0]);
        lemma_reports_in_add(a.drop_first(), b);
        match a[0] {
            StepView::Report(k) => {
                assert(reports_in(a + b) =~= seq![k] + (reports_in(a.drop_first()) + reports_in(b)));
                assert(reports_in(a) + reports_in(b) =~= seq![k] + (reports_in(a.drop_first())
                    + reports_in(b)));
            }
            _ => {}
        }
    }
}

/// How executing a sequence's tail relates to executing one more element:
/// a halting head is the whole remaining trace, any other head contributes
/// its trace up front.
pub proof fn lemma_seq_suffix_step(l: Seq<CommandView>, i: int)
    requires
        0 <= i < l.len(),
    ensures
        halts(l[i]) ==> trace_of_seq(l.skip(i)) =~= trace_of(l[i]),
        halts(l[i]) ==> halts_seq(l.skip(i)),
        !halts(l[i]) ==> trace_of_seq(l.skip(i)) =~= trace_of(l[i]) + trace_of_seq(l.skip(i + 1)),
        !halts(l[i]) ==> halts_seq(l.skip(i)) == halts_seq(l.skip(i + 1)),
{
    let m = l.skip(i);
    assert(m.len() > 0);
    assert(m[0] == l[i]);
    assert(m.drop_first() =~= l.skip(i + 1));
}

/// Law: execution short-circuits on `Exit`.  In a sequence whose first
/// halting element stands at position `i`, nothing after position `i`
/// executes: the execution trace — and with it every resume batch and
/// every report — is exactly that of the sequence cut off right after `i`.
pub proof fn lemma_short_circuit_on_exit(l: Seq<CommandView>, i: int)
    requires
        0 <= i < l.len(),
        halts(l[i]),
        forall|j: int| 0 <= j < i ==> !halts(#[trigger] l[j]),
    ensures
        halts_seq(l),
        trace_of_seq(l) =~= trace_of_seq(l.take(i + 1)),
        resumes_in(trace_of_seq(l)) == resumes_in(trace_of_seq(l.take(i + 1))),
        reports_in(trace_of_seq(l)) =~= reports_in(trace_of_seq(l.take(i + 1))),
    decreases l,
{
    let t = l.take(i + 1);
    assert(l.len() > 0);
    assert(t[0] == l[0]);
    if i == 0 {
        assert(halts(l[0]));
        assert(trace_of_seq(l) == trace_of(l[0]));
        assert(trace_of_seq(t) == trace_of(t[0]));
    } else {
        assert(!halts(l[0]));
        let lrest = l.drop_first();
        assert(lrest[i - 1] == l[i]);
        assert(forall|j: int| 0 <= j < i - 1 ==> !halts(#[trigger] lrest[j]));
        lemma_short_circuit_on_exit(lrest, i - 1);
        assert(t.drop_first() =~= lrest.take(i));
        assert(halts_seq(l));
        assert(trace_of_seq(l) == trace_of(l[0]) + trace_of_seq(lrest));
        assert(trace_of_seq(t) == trace_of(t[0]) + trace_of_seq(t.drop_first()));
        assert(trace_of_seq(l) =~= trace_of_seq(t));
    }
}

} // verus!
