//! Keyboard state across two frames, and the keys that changed between them.

use std::collections::HashSet;
use vstd::prelude::*;

verus! {

broadcast use vstd::std_specs::hash::group_hash_axioms;

/// The keys that `a` holds and `b` does not.
fn difference(a: &HashSet<i32>, b: &HashSet<i32>) -> (only_a: HashSet<i32>)
    ensures
        only_a@ == a@.difference(b@),
{
    let mut only_a: HashSet<i32> = HashSet::new();
    let ghost mut seen: Seq<i32> = Seq::empty();
    for key in it: a.iter()
        invariant
            it.seq().unref().to_set() == a@,
            seen == it.seq().unref().take(it.index()),
            it.index() == it.seq().len() ==> seen.to_set() == a@,
            only_a@ == seen.to_set().difference(b@),
    {
        proof {
            let keys = it.seq().unref();
            let next = keys.take(it.index() + 1);
            assert(next =~= seen.push(*key));
            seen.lemma_push_to_set_commute(*key);
            assert(seen.to_set().insert(*key).difference(b@) =~= if b@.contains(*key) {
                seen.to_set().difference(b@)
            } else {
                seen.to_set().difference(b@).insert(*key)
            });
            assert(it.index() + 1 == it.seq().len() ==> next =~= keys);
        }
        proof {
            seen = seen.push(*key);
        }
        if !b.contains(key) {
            only_a.insert(*key);
        }
    }
    only_a
}

/// A set with the keys of `a`.
fn copy_of(a: &HashSet<i32>) -> (same: HashSet<i32>)
    ensures
        same@ == a@,
{
    let nothing: HashSet<i32> = HashSet::new();
    let same = difference(a, &nothing);
    assert(same@ =~= a@);
    same
}

/// The keys that were held down when the previous frame ended and the keys
/// that are held down in this frame. A key is an integer code.
///
/// The loop refreshes `current` before the update hook runs and copies it to
/// `previous` after the hook has returned, so the hook sees each change of a
/// key in exactly one frame.
pub struct KeyboardState {
    pub previous: HashSet<i32>,
    pub current: HashSet<i32>,
}

impl KeyboardState {
    /// No key held down in either frame.
    pub fn new() -> (state: KeyboardState)
        ensures
            state.previous@ == Set::<i32>::empty(),
            state.current@ == Set::<i32>::empty(),
    {
        KeyboardState { previous: HashSet::new(), current: HashSet::new() }
    }

    /// The keys pressed in this frame: held down now and not before.
    pub fn new_keys(&self) -> (pressed: HashSet<i32>)
        ensures
            pressed@ == self.current@.difference(self.previous@),
    {
        difference(&self.current, &self.previous)
    }

    /// The keys released in this frame: held down before and not now.
    pub fn old_keys(&self) -> (released: HashSet<i32>)
        ensures
            released@ == self.previous@.difference(self.current@),
    {
        difference(&self.previous, &self.current)
    }

    /// Takes `keys` as the keys held down in the frame that begins.
    pub fn refresh(&mut self, keys: HashSet<i32>)
        ensures
            final(self).current@ == keys@,
            final(self).previous@ == old(self).previous@,
    {
        self.current = keys;
    }

    /// Ends the frame: what is held down now becomes the previous state.
    pub fn commit(&mut self)
        ensures
            final(self).previous@ == old(self).current@,
            final(self).current@ == old(self).current@,
    {
        self.previous = copy_of(&self.current);
    }
}

/// No key is both pressed and released in one frame, a key that is in both
/// snapshots is neither, and once a frame has been committed nothing is
/// pressed or released until the next refresh.
pub proof fn lemma_transitions(previous: Set<i32>, current: Set<i32>)
    ensures
        current.difference(previous).disjoint(previous.difference(current)),
        forall|k: i32|
            previous.contains(k) && current.contains(k) ==> !current.difference(previous).contains(k)
                && !previous.difference(current).contains(k),
        current.difference(current) == Set::<i32>::empty(),
{
    assert(current.difference(current) =~= Set::<i32>::empty());
}

} // verus!
