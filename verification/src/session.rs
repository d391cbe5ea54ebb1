//! The interactive session's state machine: input buffer, history, and
//! event dispatch.
//!
//! The session keeps an append-only log of submitted command lines, a
//! cursor over it (`history.len()` means "editing a fresh line"), and a
//! scratch slot that saves the in-progress edit when navigation first
//! leaves the fresh line.  `handle_event` turns each multiplexed event
//! into the session's next state and an instruction for the surrounding
//! presentation loop.

use vstd::prelude::*;

use crate::events::Event;
use crate::events::TermInput;
use crate::events::TermKey;
use crate::DebuggerError;

verus! {

/// The session state as the contracts speak of it.
#[verifier::ext_equal]
pub struct SessionView {
    /// Submitted command lines, oldest first.
    pub history: Seq<Seq<u8>>,
    /// The edit that was in progress when navigation left the fresh line.
    pub scratch: Seq<u8>,
    /// Navigation position: an index into `history`, or `history.len()`
    /// for the fresh line.
    pub cursor: int,
    /// The current input buffer.
    pub input: Seq<u8>,
}

impl SessionView {
    /// The cursor never leaves `0 ..= history.len()`.
    pub open spec fn wf(self) -> bool {
        0 <= self.cursor <= self.history.len()
    }
}

/// Where history navigation by `direction` takes a session: a no-op when
/// history is empty, when the move would pass the fresh line
/// (`history.len()`), or when it would not move at all; a move below the
/// oldest entry stops at it.  Landing on the fresh line restores the
/// scratch edit; leaving the fresh line first saves the edit into scratch;
/// any other landing loads the addressed history entry.
pub open spec fn move_history_spec(s: SessionView, direction: int) -> SessionView {
    if s.history.len() == 0 {
        s
    } else {
        let raw = s.cursor + direction;
        let target = if raw < 0 {
            0
        } else {
            raw
        };
        if target > s.history.len() || target == s.cursor {
            s
        } else if target == s.history.len() {
            SessionView { cursor: target, input: s.scratch, ..s }
        } else if s.cursor == s.history.len() {
            SessionView { cursor: target, scratch: s.input, input: s.history[target], ..s }
        } else {
            SessionView { cursor: target, input: s.history[target], ..s }
        }
    }
}

/// What submitting the current line runs: the input buffer if it holds
/// anything, else the most recent history entry, else nothing.
pub open spec fn submitted_text(s: SessionView) -> Option<Seq<u8>> {
    if s.input.len() > 0 {
        Some(s.input)
    } else if s.history.len() > 0 {
        Some(s.history.last())
    } else {
        None
    }
}

/// Where submission takes a session: a no-op when there is nothing to run;
/// otherwise the submitted text — also a reused one — is appended to
/// history, the cursor returns to the fresh line, and the input buffer and
/// scratch slot are cleared.
pub open spec fn submit_spec(s: SessionView) -> SessionView {
    match submitted_text(s) {
        None => s,
        Some(c) => SessionView {
            history: s.history.push(c),
            scratch: Seq::empty(),
            cursor: s.history.len() as int + 1,
            input: Seq::empty(),
        },
    }
}

/// Law: navigating on an empty history changes nothing, whatever the
/// direction.
pub proof fn lemma_move_on_empty_history_is_noop(s: SessionView, direction: int)
    requires
        s.history.len() == 0,
    ensures
        move_history_spec(s, direction) == s,
{
}

/// Law: moving down from the fresh line changes nothing.
pub proof fn lemma_move_down_past_fresh_line_is_noop(s: SessionView)
    requires
        s.cursor == s.history.len(),
    ensures
        move_history_spec(s, 1) == s,
{
}

/// Law: a navigation round trip restores the unsubmitted edit.  From the
/// fresh line with a non-empty history, moving up twice and down twice
/// lands back on the fresh line with the input buffer exactly as it was.
pub proof fn lemma_history_round_trip(s: SessionView)
    requires
        s.wf(),
        s.cursor == s.history.len(),
        s.history.len() > 0,
    ensures
        ({
            let s1 = move_history_spec(s, -1);
            let s2 = move_history_spec(s1, -1);
            let s3 = move_history_spec(s2, 1);
            let s4 = move_history_spec(s3, 1);
            s4.cursor == s.history.len() && s4.input == s.input && s4.history == s.history
        }),
{
}

/// Law: submitting an empty line with a non-empty history re-runs the last
/// submitted command and still appends it: history grows by exactly that
/// one reused entry.
pub proof fn lemma_empty_submit_reuses_last(s: SessionView)
    requires
        s.input.len() == 0,
        s.history.len() > 0,
    ensures
        submitted_text(s) == Some(s.history.last()),
        submit_spec(s).history =~= s.history.push(s.history.last()),
        submit_spec(s).history.len() == s.history.len() + 1,
{
}

/// What the presentation loop must do after one event is handled.
#[derive(Debug, PartialEq, Eq)]
pub enum SessionStep {
    /// Nothing further: wait for the next event.
    KeepGoing,
    /// End the session.
    Quit,
    /// The session could not go on: the input source failed.
    Fatal,
    /// Show this child-output line.
    DisplayLine(Vec<u8>),
    /// Hand the key to the line-editing widget, then mirror the edited
    /// value back with `set_input`.
    EditKey,
    /// Echo and run this submitted command line.
    SubmitCmd(Vec<u8>),
}

/// The interactive session's state.
pub struct Session {
    history: Vec<Vec<u8>>,
    scratch: Vec<u8>,
    cursor: usize,
    input: Vec<u8>,
}

impl View for Session {
    type V = SessionView;

    closed spec fn view(&self) -> SessionView {
        SessionView {
            history: self.history.deep_view(),
            scratch: self.scratch@,
            cursor: self.cursor as int,
            input: self.input@,
        }
    }
}

/// A copy of a byte line, byte for byte.
fn copy_bytes(v: &Vec<u8>) -> (r: Vec<u8>)
    ensures
        r@ == v@,
{
    vstd::slice::slice_to_vec(v.as_slice())
}

impl Session {
    /// A fresh session: empty history, fresh line, empty buffer.
    pub fn new() -> (s: Self)
        ensures
            s@.history =~= Seq::<Seq<u8>>::empty(),
            s@.scratch =~= Seq::<u8>::empty(),
            s@.cursor == 0,
            s@.input =~= Seq::<u8>::empty(),
            s@.wf(),
    {
        Session { history: Vec::new(), scratch: Vec::new(), cursor: 0, input: Vec::new() }
    }

    /// The current input buffer.
    pub fn current_input(&self) -> (r: &Vec<u8>)
        ensures
            r@ == self@.input,
    {
        &self.input
    }

    /// How many command lines were submitted.
    pub fn history_len(&self) -> (r: usize)
        ensures
            r == self@.history.len(),
    {
        self.history.len()
    }

    /// The navigation cursor: a history index, or `history_len()` on the
    /// fresh line.
    pub fn cursor_position(&self) -> (r: usize)
        ensures
            r == self@.cursor,
    {
        self.cursor
    }

    /// The submitted command line at `index`.
    pub fn history_entry(&self, index: usize) -> (r: &Vec<u8>)
        requires
            index < self@.history.len(),
        ensures
            r.deep_view() == self@.history[index as int],
    {
        &self.history[index]
    }

    /// Mirror the line-editing widget's value into the session.
    pub fn set_input(&mut self, text: Vec<u8>)
        ensures
            final(self)@ == (SessionView { input: text@, ..old(self)@ }),
    {
        self.input = text;
    }

    /// Step the navigation cursor by `direction` through the history, as
    /// `move_history_spec` says.
    pub fn move_history(&mut self, direction: isize)
        requires
            old(self)@.wf(),
        ensures
            final(self)@ == move_history_spec(old(self)@, direction as int),
            final(self)@.wf(),
    {
        if self.history.len() == 0 {
            return;
        }
        let len = self.history.len();
        let target: usize = if direction >= 0 {
            let step = direction as usize;
            if self.cursor > usize::MAX - step {
                // the move overshoots every possible history position
                return;
            }
            self.cursor + step
        } else {
            let step: usize = if direction == isize::MIN {
                (isize::MAX as usize) + 1
            } else {
                (-direction) as usize
            };
            if self.cursor >= step {
                self.cursor - step
            } else {
                0
            }
        };
        proof {
            let raw = old(self)@.cursor + direction as int;
            let t = if raw < 0 {
                0int
            } else {
                raw
            };
            assert(target as int == t);
        }
        if target > len {
            return;
        }
        if target == self.cursor {
            return;
        }
        if target == len {
            self.input = copy_bytes(&self.scratch);
        } else {
            if self.cursor == len {
                self.scratch = copy_bytes(&self.input);
            }
            let entry = copy_bytes(&self.history[target]);
            proof {
                assert(entry@ =~= old(self)@.history[target as int]);
            }
            self.input = entry;
        }
        self.cursor = target;
        proof {
            assert(self@ =~~= move_history_spec(old(self)@, direction as int));
        }
    }

    /// Submit the current line: the text to run, if any, as
    /// `submitted_text` says; the state moves as `submit_spec` says.
    pub fn submit(&mut self) -> (r: Option<Vec<u8>>)
        requires
            old(self)@.wf(),
        ensures
            final(self)@ == submit_spec(old(self)@),
            final(self)@.wf(),
            r.deep_view() == submitted_text(old(self)@),
    {
        let command: Vec<u8>;
        if self.input.len() > 0 {
            let mut taken = Vec::new();
            core::mem::swap(&mut taken, &mut self.input);
            command = taken;
        } else if self.history.len() > 0 {
            command = copy_bytes(&self.history[self.history.len() - 1]);
            proof {
                assert(command@ =~= old(self)@.history.last());
            }
        } else {
            proof {
                assert(self@ == submit_spec(old(self)@));
            }
            return None;
        }
        let echoed = copy_bytes(&command);
        self.history.push(command);
        self.cursor = self.history.len();
        self.scratch = Vec::new();
        self.input = Vec::new();
        proof {
            assert(self@.history =~~= old(self)@.history.push(echoed@));
            assert(self@ =~~= submit_spec(old(self)@));
        }
        Some(echoed)
    }

    /// Dispatch one multiplexed event.
    ///
    /// A source error is fatal; ticks change nothing; a child-output line
    /// is shown; `Enter` submits as `submit` says; `Ctrl-D` ends the
    /// session; `Up` and `Down` navigate the history; any other key
    /// belongs to the line-editing widget.
    pub fn handle_event(&mut self, ev: Event) -> (st: SessionStep)
        requires
            old(self)@.wf(),
        ensures
            final(self)@.wf(),
            match ev {
                Event::SourceError => st == SessionStep::Fatal && final(self)@ == old(self)@,
                Event::Tick => st == SessionStep::KeepGoing && final(self)@ == old(self)@,
                Event::ChildOutputLine(line) => st == SessionStep::DisplayLine(line) && final(self)@
                    == old(self)@,
                Event::Input(TermInput::NonKey) => st == SessionStep::KeepGoing && final(self)@
                    == old(self)@,
                Event::Input(TermInput::Key(key)) => match key {
                    TermKey::CtrlD => st == SessionStep::Quit && final(self)@ == old(self)@,
                    TermKey::Up => st == SessionStep::KeepGoing && final(self)@ == move_history_spec(
                        old(self)@,
                        -1,
                    ),
                    TermKey::Down => st == SessionStep::KeepGoing && final(self)@
                        == move_history_spec(old(self)@, 1),
                    TermKey::Other => st == SessionStep::EditKey && final(self)@ == old(self)@,
                    TermKey::Enter => final(self)@ == submit_spec(old(self)@) && match submitted_text(
                        old(self)@,
                    ) {
                        None => st == SessionStep::KeepGoing,
                        Some(c) => st matches SessionStep::SubmitCmd(cmd) && cmd@ == c,
                    },
                },
            },
    {
        match ev {
            Event::SourceError => SessionStep::Fatal,
            Event::Tick => SessionStep::KeepGoing,
            Event::ChildOutputLine(line) => SessionStep::DisplayLine(line),
            Event::Input(TermInput::NonKey) => SessionStep::KeepGoing,
            Event::Input(TermInput::Key(key)) => match key {
                TermKey::CtrlD => SessionStep::Quit,
                TermKey::Up => {
                    self.move_history(-1);
                    SessionStep::KeepGoing
                }
                TermKey::Down => {
                    self.move_history(1);
                    SessionStep::KeepGoing
                }
                TermKey::Other => SessionStep::EditKey,
                TermKey::Enter => match self.submit() {
                    None => SessionStep::KeepGoing,
                    Some(cmd) => SessionStep::SubmitCmd(cmd),
                },
            },
        }
    }
}

/// Whether the session stays open after a command ran: only an `Exit`
/// (`Ok(false)`) closes it — an engine error is shown and the session
/// goes on.
pub fn session_continues_after(r: &Result<bool, DebuggerError>) -> (keep: bool)
    ensures
        keep == !(r == Ok::<bool, DebuggerError>(false)),
{
    match r {
        Ok(false) => false,
        _ => true,
    }
}

} // verus!
