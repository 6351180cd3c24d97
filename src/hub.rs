//! The hub: the directory of live emitters, their owner counts, and the shared
//! queue through which triggered payloads reach handlers.
use vstd::prelude::*;
use std::collections::HashMap;
use crate::key::CompoundKey;
use crate::laws::lemma_drained_queue;
use crate::model::{Envelope, HubModel, Message, Outcome};
use crate::registry::HandlerRegistry;

verus! {

broadcast use vstd::std_specs::hash::group_hash_axioms;

/// Shared state of a set of emitters. Handling one queued message at a time
/// with [`Hub::step`] drains the queue; a `Deliver` outcome hands the caller the
/// handler to invoke and the payload it receives.
pub struct Hub<H, P> {
    pub(crate) directory: HashMap<u128, HandlerRegistry<H>>,
    pub(crate) owners: HashMap<u128, u64>,
    pub(crate) pending: Vec<Message<P>>,
}

impl<H: Copy, P> View for Hub<H, P> {
    type V = HubModel<H, P>;

    closed spec fn view(&self) -> HubModel<H, P> {
        HubModel {
            directory: self.directory@.map_values(|r: HandlerRegistry<H>| r@),
            owners: self.owners@.map_values(|n: u64| n as nat),
            queue: self.pending@,
        }
    }
}

impl<H: Copy, P> Hub<H, P> {
    /// Every listed emitter's registry is well formed.
    pub closed spec fn wf(&self) -> bool {
        forall|id: u128| #[trigger] self.directory@.contains_key(id) ==> self.directory@[id].wf()
    }

    /// A hub with no emitters and nothing queued.
    pub fn new() -> (r: Self)
        ensures
            r.wf(),
            r@ == HubModel::<H, P>::empty(),
    {
        let r = Hub { directory: HashMap::new(), owners: HashMap::new(), pending: Vec::new() };
        assert(r@.directory =~= Map::empty());
        assert(r@.owners =~= Map::empty());
        r
    }

    /// Whether emitter `id` is in the directory.
    pub fn contains(&self, id: u128) -> (r: bool)
        ensures
            r == self@.directory.contains_key(id),
    {
        self.directory.contains_key(&id)
    }

    /// How many messages wait in the queue.
    pub fn pending(&self) -> (r: usize)
        ensures
            r == self@.queue.len(),
    {
        self.pending.len()
    }

    /// How many owners emitter `id` has, if it has any.
    pub fn owner_count(&self, id: u128) -> (r: Option<u64>)
        ensures
            r == (if self@.owners.contains_key(id) {
                Some(self@.owners[id] as u64)
            } else {
                None
            }),
    {
        match self.owners.get(&id) {
            Some(n) => Some(*n),
            None => None,
        }
    }

    /// Lists emitter `id` with an empty registry and one owner.
    pub(crate) fn create(&mut self, id: u128)
        requires
            old(self).wf(),
        ensures
            final(self).wf(),
            final(self)@ == old(self)@.created(id),
    {
        self.directory.insert(id, HandlerRegistry::new());
        self.owners.insert(id, 1);
        assert(self@.directory =~= old(self)@.directory.insert(id, Map::empty()));
        assert(self@.owners =~= old(self)@.owners.insert(id, 1));
    }

    /// Registers `handler` under `key` on emitter `id`, if it is listed.
    pub(crate) fn register(&mut self, id: u128, key: CompoundKey, handler: H)
        requires
            old(self).wf(),
        ensures
            final(self).wf(),
            final(self)@ == old(self)@.registered(id, key, handler),
    {
        match self.directory.remove(&id) {
            Some(mut registry) => {
                registry.insert(key, handler);
                self.directory.insert(id, registry);
                assert(self@.directory =~= old(self)@.directory.insert(
                    id,
                    old(self)@.directory[id].insert(key, handler),
                ));
            },
            None => {
                assert(self@.directory =~= old(self)@.directory);
            },
        }
    }

    /// Queues `payload` for the handler under `key` of emitter `id`.
    pub(crate) fn publish(&mut self, id: u128, key: CompoundKey, payload: P)
        requires
            old(self).wf(),
        ensures
            final(self).wf(),
            final(self)@ == old(self)@.triggered(id, key, payload),
    {
        self.pending.push(Message::Emit(Envelope { emitter_id: id, key, payload }));
    }

    /// Counts one more owner of emitter `id`.
    pub(crate) fn add_owner(&mut self, id: u128)
        requires
            old(self).wf(),
            old(self)@.owners.contains_key(id) ==> old(self)@.owners[id] < u64::MAX,
        ensures
            final(self).wf(),
            final(self)@ == old(self)@.shared(id),
    {
        match self.owners.get(&id) {
            Some(n) => {
                let n: u64 = *n;
                self.owners.insert(id, n + 1);
                assert(self@.owners =~= old(self)@.owners.insert(id, old(self)@.owners[id] + 1));
            },
            None => {},
        }
    }

    /// Counts one owner of emitter `id` fewer, queueing its removal when the last
    /// owner goes.
    pub(crate) fn drop_owner(&mut self, id: u128)
        requires
            old(self).wf(),
        ensures
            final(self).wf(),
            final(self)@ == old(self)@.released(id),
    {
        match self.owners.get(&id) {
            Some(n) => {
                let n: u64 = *n;
                if n <= 1 {
                    self.owners.remove(&id);
                    self.pending.push(Message::Dropped(id));
                    assert(self@.owners =~= old(self)@.owners.remove(id));
                } else {
                    self.owners.insert(id, n - 1);
                    assert(self@.owners =~= old(self)@.owners.insert(
                        id,
                        (old(self)@.owners[id] - 1) as nat,
                    ));
                }
            },
            None => {},
        }
    }

    /// Handles the oldest queued message. A removal takes the emitter out of
    /// the directory; an envelope is routed by emitter id, then by key. An
    /// envelope that finds no emitter or no handler has its payload released
    /// here, before this returns. `None` when the queue is empty.
    pub fn step(&mut self) -> (r: Option<Outcome<H, P>>)
        requires
            old(self).wf(),
        ensures
            final(self).wf(),
            (final(self)@, r) == old(self)@.stepped(),
    {
        if self.pending.len() == 0 {
            return None;
        }
        let message = self.pending.remove(0);
        assert(self.pending@ =~= old(self).pending@.drop_first());
        match message {
            Message::Dropped(id) => {
                self.directory.remove(&id);
                assert(self@.directory =~= old(self)@.directory.remove(id));
                Some(Outcome::Removed(id))
            },
            Message::Emit(envelope) => {
                let Envelope { emitter_id, key, payload } = envelope;
                match self.directory.get(&emitter_id) {
                    None => Some(Outcome::NoEmitter),
                    Some(registry) => match registry.find(&key) {
                        Some(handler) => Some(Outcome::Deliver(handler, payload)),
                        None => Some(Outcome::NoHandler),
                    },
                }
            },
        }
    }

    /// Handles every message queued at the call, oldest first, and returns what
    /// each came to, in order. The queue is then empty.
    pub fn drain(&mut self) -> (r: Vec<Outcome<H, P>>)
        requires
            old(self).wf(),
        ensures
            final(self).wf(),
            final(self)@ == old(self)@.drained(old(self)@.queue.len()),
            r@ == old(self)@.outcomes(old(self)@.queue.len()),
            final(self)@.queue.len() == 0,
    {
        let ghost start = self@;
        let n = self.pending.len();
        let mut out: Vec<Outcome<H, P>> = Vec::new();
        let mut i: usize = 0;
        proof {
            lemma_drained_queue(start, 0);
        }
        while i < n
            invariant
                self.wf(),
                n == start.queue.len(),
                i <= n,
                self@ == start.drained(i as nat),
                out@ == start.outcomes(i as nat),
                self@.queue.len() == n - i,
            decreases n - i,
        {
            proof {
                lemma_drained_queue(start, (i + 1) as nat);
            }
            match self.step() {
                Some(o) => out.push(o),
                None => {},
            }
            i = i + 1;
        }
        out
    }
}

} // verus!
