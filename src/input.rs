//! Keyboard state, advanced one tick per frame.
//!
//! Each tracked key carries the number of ticks since it was pressed.
//! A key released during the current tick carries the sentinel
//! [`RELEASED`] and is forgotten at the next tick.
use std::collections::HashMap;
use vstd::prelude::*;
use vstd::std_specs::hash::spec_hash_map_iter;
use vstd::std_specs::iter::IteratorSpec;

verus! {

broadcast use vstd::std_specs::hash::group_hash_axioms;

/// Tick counter of a key that was released during the current tick.
pub const RELEASED: u32 = 0xffff_ffff;

/// A key code as handed over by the windowing layer.
pub type KeyCode = u32;

/// The key map after one tick: released keys are dropped, every other
/// counter grows by one, wrapping.
pub open spec fn tick_map(m: Map<KeyCode, u32>) -> Map<KeyCode, u32> {
    Map::new(
        |k: KeyCode| m.contains_key(k) && m[k] != RELEASED,
        |k: KeyCode| (m[k] + 1) as u32,
    )
}

/// Keyboard state: for each tracked key, the ticks since its press, or
/// [`RELEASED`].
pub struct Input {
    keyboard: HashMap<KeyCode, u32>,
}

impl View for Input {
    type V = Map<KeyCode, u32>;

    closed spec fn view(&self) -> Map<KeyCode, u32> {
        self.keyboard@
    }
}

impl Default for Input {
    /// No key tracked.
    fn default() -> (r: Input)
        ensures
            r@ == Map::<KeyCode, u32>::empty(),
    {
        Input::new()
    }
}

impl Input {
    /// No key tracked.
    pub fn new() -> (r: Input)
        ensures
            r@ == Map::<KeyCode, u32>::empty(),
    {
        Input { keyboard: HashMap::new() }
    }

    /// Records that `key` went down during this tick.
    pub fn press(&mut self, key: KeyCode)
        ensures
            final(self)@ == old(self)@.insert(key, 0),
    {
        self.keyboard.insert(key, 0);
    }

    /// Records that `key` went up during this tick.
    pub fn release(&mut self, key: KeyCode)
        ensures
            final(self)@ == old(self)@.insert(key, RELEASED),
    {
        self.keyboard.insert(key, RELEASED);
    }

    /// Advances every counter by one tick and forgets keys released
    /// during the tick that ends.
    pub fn next_tick(&mut self)
        ensures
            final(self)@ == tick_map(old(self)@),
    {
        let ghost m = self.keyboard@;
        let ghost entries = spec_hash_map_iter(&self.keyboard).remaining();
        let mut next: HashMap<KeyCode, u32> = HashMap::new();
        let ghost mut seen: Set<KeyCode> = Set::empty();
        for (k, t) in it: self.keyboard.iter()
            invariant
                m == self.keyboard@,
                entries == spec_hash_map_iter(&self.keyboard).remaining(),
                it.seq() == entries,
                entries.no_duplicates(),
                seen == Set::new(
                    |key: KeyCode| exists|j: int| 0 <= j < it.index() && *entries[j].0 == key,
                ),
                next@ == tick_map(m.restrict(seen)),
        {
            let ghost i = it.index();
            assert((k, t) == entries[i]);
            assert(m.contains_key(*entries[i].0) && m[*entries[i].0] == *entries[i].1);
            assert(!seen.contains(*k)) by {
                if seen.contains(*k) {
                    let j = choose|j: int| 0 <= j < i && *entries[j].0 == *k;
                    assert(m.contains_key(*entries[j].0) && m[*entries[j].0] == *entries[j].1);
                    assert(entries[j] == entries[i]);
                }
            }
            if *t != RELEASED {
                next.insert(*k, t.wrapping_add(1));
            }
            proof {
                let seen2 = seen.insert(*k);
                assert(seen2 =~= Set::new(
                    |key: KeyCode| exists|j: int| 0 <= j < i + 1 && *entries[j].0 == key,
                )) by {
                    assert forall|key: KeyCode| seen2.contains(key) implies
                        exists|j: int| 0 <= j < i + 1 && *entries[j].0 == key by {
                        if key == *k {
                            assert(*entries[i].0 == key);
                        } else {
                            assert(seen.contains(key));
                            let j = choose|j: int| 0 <= j < i && *entries[j].0 == key;
                            assert(0 <= j < i + 1 && *entries[j].0 == key);
                        }
                    }
                }
                assert(next@ =~= tick_map(m.restrict(seen2)));
                seen = seen2;
            }
        }
        proof {
            assert(m.restrict(seen) =~= m) by {
                assert forall|key: KeyCode| m.contains_key(key) implies seen.contains(key) by {
                    assert(entries.contains((&key, &m[key])));
                    let j = choose|j: int| 0 <= j < entries.len() && entries[j] == (&key, &m[key]);
                    assert(*entries[j].0 == key);
                }
            }
        }
        self.keyboard = next;
    }

    /// Whether `key` is held down.
    pub fn is_pressed(&self, key: KeyCode) -> (r: bool)
        ensures
            r == (self@.contains_key(key) && self@[key] != RELEASED),
    {
        match self.keyboard.get(&key) {
            Some(t) => *t != RELEASED,
            None => false,
        }
    }

    /// The direction that two opposite keys ask for: 1 when only
    /// `positive` is held, -1 when only `negative` is, 0 otherwise.
    pub fn axis(&self, negative: KeyCode, positive: KeyCode) -> (r: i8)
        ensures
            r == (if self@.contains_key(positive) && self@[positive] != RELEASED {
                1int
            } else {
                0int
            }) - (if self@.contains_key(negative) && self@[negative] != RELEASED {
                1int
            } else {
                0int
            }),
    {
        let mut r: i8 = 0;
        if self.is_pressed(negative) {
            r = r - 1;
        }
        if self.is_pressed(positive) {
            r = r + 1;
        }
        r
    }

    /// Whether `key` went down during the current tick.
    pub fn is_just_pressed(&self, key: KeyCode) -> (r: bool)
        ensures
            r == (self@.contains_key(key) && self@[key] == 0),
    {
        match self.keyboard.get(&key) {
            Some(t) => *t == 0,
            None => false,
        }
    }

    /// Whether `key` went up during the current tick.
    pub fn is_just_released(&self, key: KeyCode) -> (r: bool)
        ensures
            r == (self@.contains_key(key) && self@[key] == RELEASED),
    {
        match self.keyboard.get(&key) {
            Some(t) => *t == RELEASED,
            None => false,
        }
    }
}

} // verus!
