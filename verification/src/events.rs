//! The event multiplexer's decision core.
//!
//! A session draws on up to three sources: terminal input, a fixed
//! periodic tick, and — while a spawned child is present — a line reader
//! over its standard output.  The surrounding loop polls whichever sources
//! are live and hands each readiness outcome to `Mux::step`, which decides
//! what single event, if any, goes onto the session's ordered channel and
//! whether the child source stays in the poll set.  A child source that
//! ends or fails is removed for good; terminal input and the tick are
//! never removed — a failing terminal becomes a `SourceError`, which the
//! session treats as fatal.

use vstd::prelude::*;

verus! {

/// A terminal key, as far as the session cares: the four keys it acts on
/// itself, and everything else, which belongs to the line editor.
#[derive(Debug, Clone, Copy, PartialEq, Eq, Structural)]
pub enum TermKey {
    Enter,
    CtrlD,
    Up,
    Down,
    Other,
}

/// A terminal event: a key, or something else (resize, mouse), which the
/// session ignores.
#[derive(Debug, Clone, Copy, PartialEq, Eq, Structural)]
pub enum TermInput {
    Key(TermKey),
    NonKey,
}

/// One event on the session's ordered channel.
#[derive(Debug, Clone, PartialEq, Eq)]
pub enum Event {
    /// A terminal event.
    Input(TermInput),
    /// The periodic tick fired.
    Tick,
    /// One line of the traced child's output.
    ChildOutputLine(Vec<u8>),
    /// A source failed to read.
    SourceError,
}

/// What one poll of the live sources reported: the first source that
/// became ready, with what it produced.
#[derive(Debug, Clone, PartialEq, Eq)]
pub enum SourceOutcome {
    /// The terminal produced an event.
    Terminal(TermInput),
    /// Reading the terminal failed.
    TerminalError,
    /// The terminal event stream ended.
    TerminalClosed,
    /// The periodic tick fired.
    TickFired,
    /// The child wrote one line.
    ChildLine(Vec<u8>),
    /// The child's output reached end of stream.
    ChildEof,
    /// Reading the child's output failed.
    ChildError,
}

/// Whether the child-output source is still in the poll set after an
/// outcome: end of stream and read failure remove it, for good.
pub open spec fn mux_active_after(active: bool, outcome: SourceOutcome) -> bool {
    match outcome {
        SourceOutcome::ChildEof => false,
        SourceOutcome::ChildError => false,
        _ => active,
    }
}

/// The event an outcome puts on the channel: terminal events, ticks and
/// child lines pass through; read failures become `SourceError`; a closed
/// terminal stream, a child's end of stream, and child outcomes arriving
/// after the child source was removed produce nothing.
pub open spec fn mux_emits(active: bool, outcome: SourceOutcome) -> Option<Event> {
    match outcome {
        SourceOutcome::Terminal(t) => Some(Event::Input(t)),
        SourceOutcome::TerminalError => Some(Event::SourceError),
        SourceOutcome::TerminalClosed => None,
        SourceOutcome::TickFired => Some(Event::Tick),
        SourceOutcome::ChildLine(line) => if active {
            Some(Event::ChildOutputLine(line))
        } else {
            None
        },
        SourceOutcome::ChildEof => None,
        SourceOutcome::ChildError => if active {
            Some(Event::SourceError)
        } else {
            None
        },
    }
}

/// Law: a child-output source that reaches end of stream goes quietly —
/// no event, no error — and only leaves the poll set; ticks and terminal
/// events still flow afterwards, so the session goes on undisturbed.
pub proof fn lemma_child_eof_is_quiet(active: bool, t: TermInput)
    ensures
        mux_emits(active, SourceOutcome::ChildEof) is None,
        !mux_active_after(active, SourceOutcome::ChildEof),
        mux_emits(
            mux_active_after(active, SourceOutcome::ChildEof),
            SourceOutcome::TickFired,
        ) == Some(Event::Tick),
        mux_emits(
            mux_active_after(active, SourceOutcome::ChildEof),
            SourceOutcome::Terminal(t),
        ) == Some(Event::Input(t)),
{
}

/// The multiplexer's state: whether the child-output source is still in
/// the poll set.
pub struct Mux {
    child_active: bool,
}

impl View for Mux {
    type V = bool;

    closed spec fn view(&self) -> bool {
        self.child_active
    }
}

impl Mux {
    /// A multiplexer whose child-output source is present or absent from
    /// the start.
    pub fn new(child_present: bool) -> (m: Self)
        ensures
            m@ == child_present,
    {
        Mux { child_active: child_present }
    }

    /// Whether the child-output source should still be polled.
    pub fn child_active(&self) -> (r: bool)
        ensures
            r == self@,
    {
        self.child_active
    }

    /// Decide what one readiness outcome emits and what stays in the poll
    /// set, as `mux_emits` and `mux_active_after` say.
    pub fn step(&mut self, outcome: SourceOutcome) -> (r: Option<Event>)
        ensures
            final(self)@ == mux_active_after(old(self)@, outcome),
            r == mux_emits(old(self)@, outcome),
    {
        match outcome {
            SourceOutcome::Terminal(t) => Some(Event::Input(t)),
            SourceOutcome::TerminalError => Some(Event::SourceError),
            SourceOutcome::TerminalClosed => None,
            SourceOutcome::TickFired => Some(Event::Tick),
            SourceOutcome::ChildLine(line) => {
                if self.child_active {
                    Some(Event::ChildOutputLine(line))
                } else {
                    None
                }
            }
            SourceOutcome::ChildEof => {
                self.child_active = false;
                None
            }
            SourceOutcome::ChildError => {
                let was = self.child_active;
                self.child_active = false;
                if was {
                    Some(Event::SourceError)
                } else {
                    None
                }
            }
        }
    }
}

} // verus!
