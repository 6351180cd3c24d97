//! The per-emitter handler registry: at most one handler per compound key.
use vstd::prelude::*;
use crate::key::CompoundKey;

verus! {

/// Handlers of one emitter, one per compound key; a later registration under a
/// key replaces the earlier one. Keys are values here rather than types, as in
/// `typemap::TypeMap`: dispatch looks a handler up by the key an envelope
/// carries, which that map offers only through an `unsafe` accessor.
pub struct HandlerRegistry<H> {
    entries: Vec<(CompoundKey, H)>,
    contents: Ghost<Map<CompoundKey, H>>,
}

impl<H: Copy> HandlerRegistry<H> {
    /// The registered handlers, by key.
    pub closed spec fn view(&self) -> Map<CompoundKey, H> {
        self.contents@
    }

    /// Keys are unique and the entries hold exactly the handlers of the view.
    pub closed spec fn wf(&self) -> bool {
        &&& forall|i: int, j: int|
            0 <= i < j < self.entries@.len() ==> #[trigger] self.entries@[i].0
                != #[trigger] self.entries@[j].0
        &&& forall|i: int|
            0 <= i < self.entries@.len() ==> #[trigger] self.contents@.contains_key(
                self.entries@[i].0,
            ) && self.contents@[self.entries@[i].0] == self.entries@[i].1
        &&& forall|k: CompoundKey| #[trigger]
            self.contents@.contains_key(k) ==> exists|i: int|
                0 <= i < self.entries@.len() && #[trigger] self.entries@[i].0 == k
    }

    /// An empty registry.
    pub fn new() -> (r: Self)
        ensures
            r.wf(),
            r@ == Map::<CompoundKey, H>::empty(),
    {
        HandlerRegistry { entries: Vec::new(), contents: Ghost(Map::empty()) }
    }

    /// Position of `key` among the entries, if it is there.
    fn position(&self, key: &CompoundKey) -> (r: Option<usize>)
        requires
            self.wf(),
        ensures
            match r {
                Some(i) => i < self.entries@.len() && self.entries@[i as int].0 == *key,
                None => !self@.contains_key(*key),
            },
    {
        let mut i: usize = 0;
        while i < self.entries.len()
            invariant
                self.wf(),
                i <= self.entries@.len(),
                forall|j: int| 0 <= j < i ==> self.entries@[j].0 != *key,
            decreases self.entries@.len() - i,
        {
            if self.entries[i].0.matches(key) {
                return Some(i);
            }
            i = i + 1;
        }
        None
    }

    /// The handler registered under `key`, if any.
    pub fn find(&self, key: &CompoundKey) -> (r: Option<H>)
        requires
            self.wf(),
        ensures
            r == (if self@.contains_key(*key) {
                Some(self@[*key])
            } else {
                None
            }),
    {
        match self.position(key) {
            Some(i) => Some(self.entries[i].1),
            None => None,
        }
    }

    /// Registers `handler` under `key`, replacing any handler already there.
    pub fn insert(&mut self, key: CompoundKey, handler: H)
        requires
            old(self).wf(),
        ensures
            final(self).wf(),
            final(self)@ == old(self)@.insert(key, handler),
    {
        let ghost before = self.entries@;
        match self.position(&key) {
            Some(i) => {
                self.entries.set(i, (key, handler));
                self.contents = Ghost(self.contents@.insert(key, handler));
                assert forall|a: int, b: int|
                    0 <= a < b < self.entries@.len() implies #[trigger] self.entries@[a].0
                        != #[trigger] self.entries@[b].0 by {
                    assert(before[a].0 != before[b].0);
                }
                assert forall|a: int| 0 <= a < self.entries@.len() implies
                    #[trigger] self.contents@.contains_key(self.entries@[a].0)
                    && self.contents@[self.entries@[a].0] == self.entries@[a].1 by {
                    if a != i {
                        assert(before[a].0 != before[i as int].0);
                    }
                }
                assert forall|k: CompoundKey| #[trigger]
                    self.contents@.contains_key(k) implies exists|j: int|
                        0 <= j < self.entries@.len() && #[trigger] self.entries@[j].0 == k by {
                    if k != key {
                        let j = choose|j: int| 0 <= j < before.len() && #[trigger] before[j].0 == k;
                        assert(self.entries@[j].0 == k);
                    } else {
                        assert(self.entries@[i as int].0 == k);
                    }
                }
            },
            None => {
                self.entries.push((key, handler));
                self.contents = Ghost(self.contents@.insert(key, handler));
                assert forall|a: int, b: int|
                    0 <= a < b < self.entries@.len() implies #[trigger] self.entries@[a].0
                        != #[trigger] self.entries@[b].0 by {
                    if b == before.len() {
                        assert(old(self).contents@.contains_key(before[a].0));
                    } else {
                        assert(before[a].0 != before[b].0);
                    }
                }
                assert forall|a: int| 0 <= a < self.entries@.len() implies
                    #[trigger] self.contents@.contains_key(self.entries@[a].0)
                    && self.contents@[self.entries@[a].0] == self.entries@[a].1 by {
                    if a < before.len() {
                        assert(old(self).contents@.contains_key(before[a].0));
                    }
                }
                assert forall|k: CompoundKey| #[trigger]
                    self.contents@.contains_key(k) implies exists|j: int|
                        0 <= j < self.entries@.len() && #[trigger] self.entries@[j].0 == k by {
                    if k != key {
                        let j = choose|j: int| 0 <= j < before.len() && #[trigger] before[j].0 == k;
                        assert(self.entries@[j].0 == k);
                    } else {
                        assert(self.entries@[before.len() as int].0 == k);
                    }
                }
            },
        }
    }
}

} // verus!
