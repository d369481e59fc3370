//! The selection: an index into the history that edge events move and clamp.

use vstd::prelude::*;
use crate::keys::{holds, Key};

verus! {

/// The index after one tick in which Up and Down were or were not newly
/// pressed. Up is looked at first and moves only above the first entry;
/// otherwise Down moves, and stops at the last entry.
pub open spec fn moved_index(index: int, length: int, up: bool, down: bool) -> int {
    if up && index > 0 {
        index - 1
    } else if down {
        if index + 1 < length {
            index + 1
        } else {
            length - 1
        }
    } else {
        index
    }
}

/// Whether one tick honours a move, and so asks for a redraw.
pub open spec fn move_honored(index: int, up: bool, down: bool) -> bool {
    (up && index > 0) || down
}

/// The index after a run of ticks, each given by its edge events.
pub open spec fn index_after(index: int, length: int, ticks: Seq<Seq<Key>>) -> int
    decreases ticks.len(),
{
    if ticks.len() == 0 {
        index
    } else {
        index_after(
            moved_index(index, length, ticks[0].contains(Key::Up), ticks[0].contains(Key::Down)),
            length,
            ticks.skip(1),
        )
    }
}

/// What one tick did to the selection.
#[derive(Clone, Copy, Debug, PartialEq, Eq, Structural)]
pub struct Step {
    /// The index after the tick.
    pub index: usize,
    /// Whether a move was honoured.
    pub changed: bool,
    /// Whether the tick confirmed the selection.
    pub confirmed: bool,
}

/// The selected index together with the number of entries it ranges over.
#[derive(Clone, Copy, Debug)]
pub struct Selection {
    index: usize,
    length: usize,
}

impl Selection {
    #[verifier::type_invariant]
    spec fn in_bounds(self) -> bool {
        self.index < self.length
    }

    /// The selected index.
    pub closed spec fn position(self) -> int {
        self.index as int
    }

    /// The number of entries.
    pub closed spec fn extent(self) -> int {
        self.length as int
    }

    /// A selection of the first of `length` entries.
    pub fn new(length: usize) -> (selection: Selection)
        requires
            length >= 1,
        ensures
            selection.position() == 0,
            selection.extent() == length,
    {
        Selection { index: 0, length }
    }

    /// The selected index, which always lies within the entries.
    pub fn index(&self) -> (index: usize)
        ensures
            index == self.position(),
            index < self.extent(),
    {
        proof {
            use_type_invariant(self);
        }
        self.index
    }

    /// The number of entries.
    pub fn length(&self) -> (length: usize)
        ensures
            length == self.extent(),
            length >= 1,
    {
        proof {
            use_type_invariant(self);
        }
        self.length
    }

    /// Applies the edge events of one tick: moves the index and reports
    /// whether a move was honoured and whether Enter was newly pressed.
    pub fn apply(&mut self, edges: &Vec<Key>) -> (step: Step)
        ensures
            final(self).extent() == old(self).extent(),
            final(self).position() == moved_index(
                old(self).position(),
                old(self).extent(),
                edges@.contains(Key::Up),
                edges@.contains(Key::Down),
            ),
            0 <= final(self).position() < final(self).extent(),
            step.index == final(self).position(),
            step.changed == move_honored(
                old(self).position(),
                edges@.contains(Key::Up),
                edges@.contains(Key::Down),
            ),
            step.confirmed == edges@.contains(Key::Enter),
    {
        proof {
            use_type_invariant(&*self);
        }
        let mut changed = false;
        if holds(edges, Key::Up) && self.index > 0 {
            self.index = self.index - 1;
            changed = true;
        } else if holds(edges, Key::Down) {
            if self.index + 1 < self.length {
                self.index = self.index + 1;
            }
            changed = true;
        }
        Step { index: self.index, changed, confirmed: holds(edges, Key::Enter) }
    }
}

/// One tick keeps the index within the entries.
pub proof fn lemma_move_stays_in_bounds(index: int, length: int, up: bool, down: bool)
    requires
        0 <= index < length,
    ensures
        0 <= moved_index(index, length, up, down) < length,
{
}

/// Whatever edge events arrive, and however many, the index stays within the
/// entries.
pub proof fn lemma_index_stays_in_bounds(index: int, length: int, ticks: Seq<Seq<Key>>)
    requires
        0 <= index < length,
    ensures
        0 <= index_after(index, length, ticks) < length,
    decreases ticks.len(),
{
    if ticks.len() > 0 {
        lemma_index_stays_in_bounds(
            moved_index(index, length, ticks[0].contains(Key::Up), ticks[0].contains(Key::Down)),
            length,
            ticks.skip(1),
        );
    }
}

/// Up on the first entry and Down on the last entry leave the index where it
/// is, however often they are pressed. Up on the first entry asks for no
/// redraw either.
pub proof fn lemma_moves_stop_at_the_ends(index: int, length: int, presses: Seq<Seq<Key>>)
    requires
        0 <= index < length,
    ensures
        index == 0 ==> moved_index(index, length, true, false) == index && !move_honored(
            index,
            true,
            false,
        ),
        index == length - 1 ==> moved_index(index, length, false, true) == index,
        index == 0 && (forall|t: int|
            0 <= t < presses.len() ==> !(#[trigger] presses[t]).contains(Key::Down))
            ==> index_after(index, length, presses) == index,
        index == length - 1 && (forall|t: int|
            0 <= t < presses.len() ==> !(#[trigger] presses[t]).contains(Key::Up)) ==> index_after(
            index,
            length,
            presses,
        ) == index,
    decreases presses.len(),
{
    if presses.len() > 0 {
        let rest = presses.skip(1);
        assert forall|t: int| 0 <= t < rest.len() implies rest[t] == presses[t + 1] by {}
        lemma_moves_stop_at_the_ends(index, length, rest);
    }
}

/// When Up and Down are newly pressed in the same tick, Up wins: above the
/// first entry the index goes down by one, and it never goes up. The first
/// of several entries is left out: there Up cannot move, and Down does.
pub proof fn lemma_up_wins_over_down(index: int, length: int)
    requires
        0 <= index < length,
        index > 0 || length == 1,
    ensures
        moved_index(index, length, true, true) <= index,
        index > 0 ==> moved_index(index, length, true, true) == index - 1,
{
}

} // verus!
