//! Keyboard samples and the edge events derived from two consecutive samples.

use vstd::prelude::*;

verus! {

/// A key of the keyboard. The picker reacts to the three named keys; every
/// other key is told apart by its code only.
#[derive(Clone, Copy, Debug, PartialEq, Eq, Structural)]
pub enum Key {
    Up,
    Down,
    Enter,
    Other(u32),
}

/// The keys of `current` that `previous` does not hold, in the order in which
/// `current` lists them.
pub open spec fn edges_of(previous: Seq<Key>, current: Seq<Key>) -> Seq<Key> {
    current.filter(|k: Key| !previous.contains(k))
}

/// Over a run of samples that starts after the sample `before`, the number of
/// ticks at which `key` is an edge.
pub open spec fn edge_count(before: Seq<Key>, samples: Seq<Seq<Key>>, key: Key) -> nat
    decreases samples.len(),
{
    if samples.len() == 0 {
        0
    } else {
        edge_count(samples[0], samples.skip(1), key) + if edges_of(before, samples[0]).contains(
            key,
        ) {
            1nat
        } else {
            0nat
        }
    }
}

/// Tests whether the sample `keys` holds `key`.
pub fn holds(keys: &Vec<Key>, key: Key) -> (found: bool)
    ensures
        found == keys@.contains(key),
{
    let mut i: usize = 0;
    while i < keys.len()
        invariant
            i <= keys.len(),
            forall|j: int| 0 <= j < i ==> keys@[j] != key,
        decreases keys.len() - i,
    {
        if keys[i] == key {
            return true;
        }
        i += 1;
    }
    false
}

/// The keys newly pressed between two samples: `current` without `previous`.
pub fn edges(previous: &Vec<Key>, current: &Vec<Key>) -> (pressed: Vec<Key>)
    ensures
        pressed@ == edges_of(previous@, current@),
{
    let ghost fresh = |k: Key| !previous@.contains(k);
    let mut pressed: Vec<Key> = Vec::new();
    let mut i: usize = 0;
    while i < current.len()
        invariant
            i <= current.len(),
            fresh == |k: Key| !previous@.contains(k),
            pressed@ == current@.take(i as int).filter(fresh),
        decreases current.len() - i,
    {
        proof {
            assert(current@.take(i + 1) == current@.take(i as int).push(current@[i as int]));
            current@.take(i as int).lemma_filter_push(current@[i as int], fresh);
        }
        if !holds(previous, current[i]) {
            pressed.push(current[i]);
        }
        i += 1;
    }
    proof {
        assert(current@.take(current.len() as int) == current@);
    }
    pressed
}

/// An edge is exactly a key that is held now and was not held before.
pub proof fn lemma_edge_iff_newly_held(previous: Seq<Key>, current: Seq<Key>, key: Key)
    ensures
        edges_of(previous, current).contains(key) <==> current.contains(key) && !previous.contains(
            key,
        ),
{
    let fresh = |k: Key| !previous.contains(k);
    if edges_of(previous, current).contains(key) {
        let i = choose|i: int|
            0 <= i < current.filter(fresh).len() && current.filter(fresh)[i] == key;
        current.lemma_filter_pred(fresh, i);
        current.lemma_filter_contains_rev(fresh, key);
    }
    if current.contains(key) && !previous.contains(key) {
        let i = choose|i: int| 0 <= i < current.len() && current[i] == key;
        current.lemma_filter_contains(fresh, i);
    }
}

/// A key that stays held from one tick to the next produces no edge at the
/// later tick.
pub proof fn lemma_held_key_is_no_edge(previous: Seq<Key>, current: Seq<Key>, key: Key)
    requires
        previous.contains(key),
    ensures
        !edges_of(previous, current).contains(key),
{
    lemma_edge_iff_newly_held(previous, current, key);
}

/// A key that is held through every sample of a run is an edge at most once:
/// at the first tick if it was not held before the run, and never otherwise.
pub proof fn lemma_held_key_edges_once(before: Seq<Key>, samples: Seq<Seq<Key>>, key: Key)
    requires
        forall|t: int| 0 <= t < samples.len() ==> (#[trigger] samples[t]).contains(key),
    ensures
        edge_count(before, samples, key) == if samples.len() > 0 && !before.contains(key) {
            1nat
        } else {
            0nat
        },
    decreases samples.len(),
{
    if samples.len() > 0 {
        let rest = samples.skip(1);
        assert forall|t: int| 0 <= t < rest.len() implies (#[trigger] rest[t]).contains(key) by {
            assert(rest[t] == samples[t + 1]);
        }
        lemma_held_key_edges_once(samples[0], rest, key);
        lemma_edge_iff_newly_held(before, samples[0], key);
    }
}

} // verus!
