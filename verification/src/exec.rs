//! The command executor: depth-first, left to right, short-circuiting.
//!
//! `Continue` asks the engine for one resume batch; a refused resume aborts
//! the rest of the sequence.  `Exit` ends the session and skips everything
//! after it, in the enclosing sequences too.  An `Error` node is reported
//! to the caller and execution goes on: a malformed command is data, not a
//! failure.  The contracts tie the run to the command's execution trace
//! (`trace_of`): which resumes are issued, which reports surface, and when
//! the session continues.

use vstd::prelude::*;

use crate::ast::halts;
use crate::ast::halts_seq;
use crate::ast::lemma_reports_in_add;
use crate::ast::lemma_resumes_in_add;
use crate::ast::lemma_seq_suffix_step;
use crate::ast::lemma_singleton_trace;
use crate::ast::reports_of;
use crate::ast::resume_count;
use crate::ast::trace_of;
use crate::ast::trace_of_seq;
use crate::ast::Command;
use crate::ast::CommandView;
use crate::ast::Diagnostic;
use crate::ast::ErrorKind;
use crate::ast::StepView;
use crate::ast::reports_in;
use crate::ast::resumes_in;
use crate::engine::Debugger;
use crate::engine::DebuggerError;
use crate::parser::parse_command;
use crate::parser::parse_diags;
use crate::parser::parse_elems;

verus! {

/// Execute a parsed command against the engine.
///
/// Returns `Ok(true)` to keep the session open, `Ok(false)` when an `Exit`
/// was reached, and the engine's error when a resume was refused.  Error
/// nodes are appended to `reports` in execution order.  The tracee sets are
/// never touched; only resume batches are issued — exactly one per
/// `Continue` reached, and none past the first `Exit` or the first refusal.
#[verifier::loop_isolation(false)]
pub fn run_command_ast(command: &Command, debugger: &mut Debugger, reports: &mut Vec<ErrorKind>) -> (r:
    Result<bool, DebuggerError>)
    ensures
        final(debugger)@.pids == old(debugger)@.pids,
        final(debugger)@.owned == old(debugger)@.owned,
        final(debugger)@.terminated == old(debugger)@.terminated,
        match r {
            Ok(keep_going) => {
                &&& keep_going == !halts(command.deep_view())
                &&& final(debugger)@.resume_batches == old(debugger)@.resume_batches + resume_count(
                    command.deep_view(),
                )
                &&& final(reports).deep_view() =~= old(reports).deep_view() + reports_of(
                    command.deep_view(),
                )
            },
            Err(e) => {
                &&& e is OsError
                &&& exists|p: int|
                    0 <= p < trace_of(command.deep_view()).len()
                        && trace_of(command.deep_view())[p] is Resume
                        && final(debugger)@.resume_batches == old(debugger)@.resume_batches
                        + resumes_in(#[trigger] trace_of(command.deep_view()).take(p + 1))
                        && final(reports).deep_view() =~= old(reports).deep_view()
                        + reports_in(trace_of(command.deep_view()).take(p))
            },
        },
    decreases command,
{
    match command {
        Command::Continue => {
            match debugger.continue_execution() {
                Ok(()) => {
                    proof {
                        assert(trace_of(command.deep_view()) =~= seq![StepView::Resume]);
                        lemma_singleton_trace(StepView::Resume);
                        assert(resume_count(command.deep_view()) == 1);
                        assert(final(reports).deep_view() =~= old(reports).deep_view() + reports_of(
                            command.deep_view(),
                        ));
                    }
                    Ok(true)
                }
                Err(e) => {
                    proof {
                        assert(trace_of(command.deep_view()) =~= seq![StepView::Resume]);
                        lemma_singleton_trace(StepView::Resume);
                        let tr = trace_of(command.deep_view());
                        let p: int = 0;
                        assert(tr.take(p + 1) =~= tr);
                        assert(tr.take(p) =~= Seq::<StepView>::empty());
                        assert(tr[p] is Resume);
                        assert(resumes_in(tr.take(p + 1)) == 1);
                        assert(final(reports).deep_view() =~= old(reports).deep_view() + reports_in(
                            tr.take(p),
                        ));
                    }
                    Err(e)
                }
            }
        }
        Command::Exit => {
            proof {
                assert(trace_of(command.deep_view()) =~= Seq::<StepView>::empty());
                lemma_singleton_trace(StepView::Resume);
                assert(final(reports).deep_view() =~= old(reports).deep_view() + reports_of(
                    command.deep_view(),
                ));
            }
            Ok(false)
        }
        Command::Error(kind) => {
            let ghost kv = kind.deep_view();
            reports.push(kind.duplicate());
            proof {
                assert(trace_of(command.deep_view()) =~= seq![StepView::Report(kv)]);
                lemma_singleton_trace(StepView::Report(kv));
                assert(reports_of(command.deep_view()) =~= seq![kv]);
                assert(resume_count(command.deep_view()) == 0);
                assert(final(reports).deep_view() =~= old(reports).deep_view() + reports_of(
                    command.deep_view(),
                ));
            }
            Ok(true)
        }
        Command::Sequence(v) => {
            let ghost l = v.deep_view();
            proof {
                assert(command.deep_view() matches CommandView::Sequence(m) && m =~= l);
                assert(trace_of(command.deep_view()) == trace_of_seq(l));
                assert(halts(command.deep_view()) == halts_seq(l));
            }
            let ghost rb0 = debugger@.resume_batches;
            let ghost rep0 = reports.deep_view();
            let ghost mut tr_done: Seq<StepView> = Seq::empty();
            proof {
                lemma_singleton_trace(StepView::Resume);
                assert(l.skip(0) =~= l);
                assert(tr_done + trace_of_seq(l) =~= trace_of_seq(l));
                assert(rep0 + reports_in(tr_done) =~= rep0);
            }
            let n = v.len();
            let mut i: usize = 0;
            while i < n
                invariant
                    i <= n,
                    debugger@.pids == old(debugger)@.pids,
                    debugger@.owned == old(debugger)@.owned,
                    debugger@.terminated == old(debugger)@.terminated,
                    halts_seq(l) == halts_seq(l.skip(i as int)),
                    trace_of_seq(l) =~= tr_done + trace_of_seq(l.skip(i as int)),
                    debugger@.resume_batches == rb0 + resumes_in(tr_done),
                    reports.deep_view() =~= rep0 + reports_in(tr_done),
                decreases n - i,
            {
                let ghost rb_here = debugger@.resume_batches;
                let ghost rep_here = reports.deep_view();
                let ghost li = l[i as int];
                let res = run_command_ast(&v[i], debugger, reports);
                proof {
                    lemma_seq_suffix_step(l, i as int);
                }
                match res {
                    Ok(true) => {
                        proof {
                            assert(!halts(li));
                            lemma_resumes_in_add(tr_done, trace_of(li));
                            lemma_reports_in_add(tr_done, trace_of(li));
                            assert((tr_done + trace_of(li)) + trace_of_seq(l.skip(i as int + 1))
                                =~= tr_done + (trace_of(li) + trace_of_seq(l.skip(i as int + 1))));
                            assert(rep_here + reports_in(trace_of(li)) =~= rep0 + (reports_in(
                                tr_done,
                            ) + reports_in(trace_of(li))));
                            tr_done = tr_done + trace_of(li);
                        }
                    }
                    Ok(false) => {
                        proof {
                            assert(halts(li));
                            assert(trace_of_seq(l) =~= tr_done + trace_of(li));
                            lemma_resumes_in_add(tr_done, trace_of(li));
                            lemma_reports_in_add(tr_done, trace_of(li));
                            assert(rep_here + reports_in(trace_of(li)) =~= rep0 + (reports_in(
                                tr_done,
                            ) + reports_in(trace_of(li))));
                            assert(halts_seq(l));
                            assert(halts(command.deep_view()));
                        }
                        return Ok(false);
                    }
                    Err(e) => {
                        proof {
                            let tr = trace_of_seq(l);
                            let tr_i = trace_of(li);
                            let tr_rest = trace_of_seq(l.skip(i as int));
                            assert(v@[i as int].deep_view() == li);
                            // the failed resume's position inside this element's trace
                            let pi = choose|pi: int|
                                0 <= pi < tr_i.len() && tr_i[pi] is Resume
                                    && debugger@.resume_batches == rb_here + resumes_in(
                                    #[trigger] tr_i.take(pi + 1),
                                ) && reports.deep_view() =~= rep_here + reports_in(tr_i.take(pi));
                            let p = tr_done.len() as int + pi;
                            if halts(li) {
                                assert(tr_rest =~= tr_i);
                            }
                            assert(tr.take(p + 1) =~= tr_done + tr_i.take(pi + 1));
                            assert(tr.take(p) =~= tr_done + tr_i.take(pi));
                            lemma_resumes_in_add(tr_done, tr_i.take(pi + 1));
                            lemma_reports_in_add(tr_done, tr_i.take(pi));
                            assert(tr[p] == tr_i[pi]);
                            assert(0 <= p < tr.len());
                            assert(debugger@.resume_batches == rb0 + resumes_in(tr.take(p + 1)));
                            assert(reports.deep_view() =~= rep0 + reports_in(tr.take(p)));
                        }
                        return Err(e);
                    }
                }
                i = i + 1;
            }
            proof {
                assert(l.skip(n as int) =~= Seq::<CommandView>::empty());
                assert(trace_of_seq(l) =~= tr_done);
                assert(!halts_seq(l));
                assert(reports.deep_view() =~= rep0 + reports_of(command.deep_view()));
            }
            Ok(true)
        }
    }
}

/// Parse a command line and execute it.
///
/// The line always parses (unrecognized text becomes error nodes); its
/// diagnostics are appended to `diagnostics`, and the parsed sequence runs
/// as `run_command_ast` says, appending to `reports`.  Returns `Ok(true)`
/// to keep the session open, `Ok(false)` on `Exit`, and the engine's error
/// when a resume was refused.
pub fn run_command(
    command: &[u8],
    debugger: &mut Debugger,
    diagnostics: &mut Vec<Diagnostic>,
    reports: &mut Vec<ErrorKind>,
) -> (r: Result<bool, DebuggerError>)
    ensures
        final(diagnostics).deep_view() =~= old(diagnostics).deep_view() + parse_diags(command@),
        final(debugger)@.pids == old(debugger)@.pids,
        final(debugger)@.owned == old(debugger)@.owned,
        final(debugger)@.terminated == old(debugger)@.terminated,
        match r {
            Ok(keep_going) => {
                &&& keep_going == !halts(CommandView::Sequence(parse_elems(command@)))
                &&& final(debugger)@.resume_batches == old(debugger)@.resume_batches + resume_count(
                    CommandView::Sequence(parse_elems(command@)),
                )
                &&& final(reports).deep_view() =~= old(reports).deep_view() + reports_of(
                    CommandView::Sequence(parse_elems(command@)),
                )
            },
            Err(e) => {
                &&& e is OsError
                &&& exists|p: int|
                    0 <= p < trace_of(CommandView::Sequence(parse_elems(command@))).len()
                        && trace_of(CommandView::Sequence(parse_elems(command@)))[p] is Resume
                        && final(debugger)@.resume_batches == old(debugger)@.resume_batches
                        + resumes_in(
                        #[trigger] trace_of(CommandView::Sequence(parse_elems(command@))).take(p + 1),
                    ) && final(reports).deep_view() =~= old(reports).deep_view()
                        + reports_in(trace_of(CommandView::Sequence(parse_elems(command@))).take(p))
            },
        },
{
    let (ast, mut diags) = parse_command(command);
    diagnostics.append(&mut diags);
    proof {
        assert(diagnostics.deep_view() =~= old(diagnostics).deep_view() + parse_diags(command@));
    }
    run_command_ast(&ast, debugger, reports)
}

} // verus!
