//! The selection session: a state machine that a driver feeds with keyboard
//! samples and terminal heights and that answers with what to do next.
//!
//! The driver switches the terminal's echo off when the session starts, then
//! repeats: perform the action, report the event it produced. `Finish` and
//! `Abort` end the session; on both the driver switches echo back on.

use vstd::prelude::*;
use crate::compositor::{pad, padded};
use crate::keys::{edges, edges_of, lemma_edge_iff_newly_held, Key};
use crate::record::{CommitRecord, RecordView};
use crate::selection::{move_honored, moved_index, Selection};
use crate::viewport::{frame_text, render};

verus! {

/// Where a session stands.
#[derive(Clone, Copy, Debug, PartialEq, Eq, Structural)]
pub enum Phase {
    /// Keys are read and frames are drawn.
    Active,
    /// The selection was confirmed.
    Confirmed,
    /// The terminal's height could not be read.
    Aborted,
}

/// What the driver reports to the session.
#[derive(Debug)]
pub enum Event {
    /// The keys that are held right now.
    Keys(Vec<Key>),
    /// The number of rows of the terminal, or `None` if it cannot be read.
    Height(Option<u16>),
}

/// What the session asks the driver to do.
#[derive(Debug)]
pub enum Action {
    /// Sample the keyboard and report the keys.
    Poll,
    /// A frame is owed: read the terminal's height and report it.
    Measure,
    /// Print this frame, then sample the keyboard.
    Show(String),
    /// Restore echo and hand this identifier to the caller.
    Finish(String),
    /// Restore echo and fail.
    Abort,
}

/// The mathematical content of a [`Session`].
pub ghost struct SessionView {
    pub phase: Phase,
    pub history: Seq<RecordView>,
    pub index: int,
    pub previous: Seq<Key>,
    pub redraw: bool,
}

/// The state after a keyboard sample. An active session derives the edges
/// from the previous sample, moves the selection, notes that a frame is owed
/// if a move was honoured, and is confirmed if Enter was newly pressed.
pub open spec fn after_keys(s: SessionView, keys: Seq<Key>) -> SessionView {
    if s.phase != Phase::Active {
        s
    } else {
        let pressed = edges_of(s.previous, keys);
        let up = pressed.contains(Key::Up);
        let down = pressed.contains(Key::Down);
        SessionView {
            phase: if pressed.contains(Key::Enter) {
                Phase::Confirmed
            } else {
                Phase::Active
            },
            history: s.history,
            index: moved_index(s.index, s.history.len() as int, up, down),
            previous: keys,
            redraw: s.redraw || move_honored(s.index, up, down),
        }
    }
}

/// The state after a reading of the terminal's height. It matters only to an
/// active session that owes a frame: a known height settles the debt, an
/// unknown one aborts the session.
pub open spec fn after_height(s: SessionView, height: Option<u16>) -> SessionView {
    if s.phase == Phase::Active && s.redraw {
        match height {
            Some(_) => SessionView { redraw: false, ..s },
            None => SessionView { phase: Phase::Aborted, ..s },
        }
    } else {
        s
    }
}

/// The state after `event`.
pub open spec fn next(s: SessionView, event: Event) -> SessionView {
    match event {
        Event::Keys(keys) => after_keys(s, keys@),
        Event::Height(height) => after_height(s, height),
    }
}

/// The state after a run of keyboard samples.
pub open spec fn after_samples(s: SessionView, samples: Seq<Seq<Key>>) -> SessionView
    decreases samples.len(),
{
    if samples.len() == 0 {
        s
    } else {
        after_samples(after_keys(s, samples[0]), samples.skip(1))
    }
}

/// Whether `text` is the frame of `s` on a terminal of `rows` rows, in one
/// of the two ways in which the selected row can come out.
pub open spec fn is_screen(text: Seq<char>, s: SessionView, rows: u16) -> bool {
    ||| text == padded(frame_text(s.history, s.index, false), rows as int)
    ||| text == padded(frame_text(s.history, s.index, true), rows as int)
}

/// Whether `action` is the session's answer to `event` in state `s`.
pub open spec fn answers(s: SessionView, event: Event, action: Action) -> bool {
    let t = next(s, event);
    match t.phase {
        Phase::Confirmed => action matches Action::Finish(identifier) && identifier@
            == t.history[t.index].identifier,
        Phase::Aborted => action is Abort,
        Phase::Active => match event {
            Event::Keys(_) => if t.redraw {
                action is Measure
            } else {
                action is Poll
            },
            Event::Height(Some(rows)) => if s.redraw {
                action matches Action::Show(text) && is_screen(text@, t, rows)
            } else {
                action is Poll
            },
            Event::Height(None) => action is Poll,
        },
    }
}

/// One run of the picker over a history.
#[derive(Debug)]
pub struct Session {
    phase: Phase,
    history: Vec<CommitRecord>,
    selection: Selection,
    previous: Vec<Key>,
    redraw: bool,
}

impl View for Session {
    type V = SessionView;

    closed spec fn view(&self) -> SessionView {
        SessionView {
            phase: self.phase,
            history: self.history.deep_view(),
            index: self.selection.position(),
            previous: self.previous@,
            redraw: self.redraw,
        }
    }
}

impl Session {
    #[verifier::type_invariant]
    spec fn spans_history(self) -> bool {
        self.selection.extent() == self.history.len()
    }

    /// An active session on the first entry of `history`, with no key held
    /// and the first frame owed.
    pub fn new(history: Vec<CommitRecord>) -> (session: Session)
        requires
            history.len() >= 1,
        ensures
            session@ == (SessionView {
                phase: Phase::Active,
                history: history.deep_view(),
                index: 0,
                previous: Seq::empty(),
                redraw: true,
            }),
    {
        let selection = Selection::new(history.len());
        Session { phase: Phase::Active, history, selection, previous: Vec::new(), redraw: true }
    }

    /// Where the session stands.
    pub fn phase(&self) -> (phase: Phase)
        ensures
            phase == self@.phase,
    {
        self.phase
    }

    /// The selected index, which always lies within the history.
    pub fn index(&self) -> (index: usize)
        ensures
            index == self@.index,
            index < self@.history.len(),
    {
        proof {
            use_type_invariant(self);
        }
        self.selection.index()
    }

    /// Whether the terminal's echo is to be off: exactly while the session is
    /// active.
    pub fn echo_suppressed(&self) -> (off: bool)
        ensures
            off == (self@.phase == Phase::Active),
    {
        self.phase == Phase::Active
    }

    /// The identifier of the selected commit.
    pub fn selected_identifier(&self) -> (identifier: String)
        ensures
            identifier@ == self@.history[self@.index].identifier,
    {
        let index = self.index();
        assert(self.history.deep_view()[index as int] == self.history[index as int]@);
        self.history[index].identifier().clone()
    }

    /// Takes one event, moves to the next state and answers with the action
    /// that the driver performs next.
    pub fn step(&mut self, event: Event) -> (action: Action)
        ensures
            final(self)@ == next(old(self)@, event),
            answers(old(self)@, event, action),
            0 <= final(self)@.index < final(self)@.history.len(),
    {
        proof {
            use_type_invariant(&*self);
        }
        let at = self.selection.index();
        match self.phase {
            Phase::Confirmed => {
                return Action::Finish(self.selected_identifier());
            },
            Phase::Aborted => {
                return Action::Abort;
            },
            Phase::Active => {},
        }
        match event {
            Event::Keys(keys) => {
                let pressed = edges(&self.previous, &keys);
                let mut selection = self.selection;
                let step = selection.apply(&pressed);
                self.selection = selection;
                self.previous = keys;
                if step.changed {
                    self.redraw = true;
                }
                if step.confirmed {
                    self.phase = Phase::Confirmed;
                    Action::Finish(self.selected_identifier())
                } else if self.redraw {
                    Action::Measure
                } else {
                    Action::Poll
                }
            },
            Event::Height(height) => {
                if !self.redraw {
                    Action::Poll
                } else {
                    match height {
                        None => {
                            self.phase = Phase::Aborted;
                            Action::Abort
                        },
                        Some(rows) => {
                            let frame = render(&self.history, at);
                            let text = pad(frame.as_str(), rows);
                            self.redraw = false;
                            Action::Show(text)
                        },
                    }
                }
            },
        }
    }
}

impl Action {
    /// Whether the action ends the session, and with it the time during
    /// which echo is off.
    pub fn restores_echo(&self) -> (ends: bool)
        ensures
            ends == (self is Finish || self is Abort),
    {
        match self {
            Action::Finish(_) => true,
            Action::Abort => true,
            _ => false,
        }
    }

    /// The frame to print, if the action carries one.
    pub fn frame(&self) -> (frame: Option<&String>)
        ensures
            match frame {
                Some(text) => *self == Action::Show(*text),
                None => !(self is Show),
            },
    {
        match self {
            Action::Show(text) => Some(text),
            _ => None,
        }
    }

    /// The chosen identifier, if the action carries one.
    pub fn chosen(&self) -> (chosen: Option<&String>)
        ensures
            match chosen {
                Some(identifier) => *self == Action::Finish(*identifier),
                None => !(self is Finish),
            },
    {
        match self {
            Action::Finish(identifier) => Some(identifier),
            _ => None,
        }
    }
}

/// Whether the selected index of `s` lies within its history.
pub open spec fn in_bounds(s: SessionView) -> bool {
    0 <= s.index < s.history.len()
}

/// No event takes the selected index out of the history.
pub proof fn lemma_event_keeps_index_in_bounds(s: SessionView, event: Event)
    requires
        in_bounds(s),
    ensures
        in_bounds(next(s, event)),
        next(s, event).history == s.history,
{
}

/// No run of keyboard samples takes the selected index out of the history.
pub proof fn lemma_samples_keep_index_in_bounds(s: SessionView, samples: Seq<Seq<Key>>)
    requires
        in_bounds(s),
    ensures
        in_bounds(after_samples(s, samples)),
        after_samples(s, samples).history == s.history,
    decreases samples.len(),
{
    if samples.len() > 0 {
        lemma_samples_keep_index_in_bounds(after_keys(s, samples[0]), samples.skip(1));
    }
}

/// A sample that repeats the previous one changes nothing: no key is newly
/// pressed.
pub proof fn lemma_repeated_sample_is_idle(s: SessionView, keys: Seq<Key>)
    requires
        s.previous == keys || s.phase != Phase::Active,
    ensures
        after_keys(s, keys) == s,
{
    lemma_edge_iff_newly_held(keys, keys, Key::Up);
    lemma_edge_iff_newly_held(keys, keys, Key::Down);
    lemma_edge_iff_newly_held(keys, keys, Key::Enter);
}

/// Keys that are held over any number of ticks act once: the state after
/// `ticks` samples of the same keys is the state after the first of them.
pub proof fn lemma_held_keys_act_once(s: SessionView, keys: Seq<Key>, ticks: nat)
    requires
        ticks >= 1,
    ensures
        after_samples(s, Seq::new(ticks, |t: int| keys)) == after_keys(s, keys),
    decreases ticks,
{
    let samples = Seq::new(ticks, |t: int| keys);
    let first = after_keys(s, keys);
    assert(samples[0] == keys);
    if ticks == 1 {
        assert(samples.skip(1).len() == 0);
        assert(after_samples(first, samples.skip(1)) == first);
    } else {
        let fewer = Seq::new((ticks - 1) as nat, |t: int| keys);
        assert(samples.skip(1) == fewer);
        lemma_held_keys_act_once(first, keys, (ticks - 1) as nat);
        lemma_repeated_sample_is_idle(first, keys);
    }
}

/// An active session that owes a frame and cannot learn the terminal's
/// height is aborted, and its answer is `Abort`, which carries no frame.
pub proof fn lemma_unknown_height_aborts(s: SessionView, action: Action)
    requires
        s.phase == Phase::Active,
        s.redraw,
        answers(s, Event::Height(None), action),
    ensures
        next(s, Event::Height(None)).phase == Phase::Aborted,
        action is Abort,
{
}

/// The session leaves the active phase exactly with an answer that restores
/// echo.
pub proof fn lemma_echo_is_restored_on_exit(s: SessionView, event: Event, action: Action)
    requires
        answers(s, event, action),
    ensures
        next(s, event).phase != Phase::Active <==> (action is Finish || action is Abort),
{
}

} // verus!
