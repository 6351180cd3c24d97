//! The mathematical state of a hub and how each operation changes it.
use vstd::prelude::*;
use crate::key::CompoundKey;

verus! {

/// A triggered payload on its way to one emitter's handler.
pub struct Envelope<P> {
    pub emitter_id: u128,
    pub key: CompoundKey,
    pub payload: P,
}

/// What waits in the shared queue.
pub enum Message<P> {
    /// A payload for the handler under `key` of emitter `emitter_id`.
    Emit(Envelope<P>),
    /// The emitter with this id lost its last owner.
    Dropped(u128),
}

/// What handling one queued message came to.
pub enum Outcome<H, P> {
    /// The handler is to be invoked with the payload, which it then owns.
    Deliver(H, P),
    /// The emitter has no handler under the key: the payload was released.
    NoHandler,
    /// No emitter with that id is in the directory: the payload was released.
    NoEmitter,
    /// The emitter with this id was removed from the directory.
    Removed(u128),
}

/// A hub as mathematics: the directory of live emitters with their handlers,
/// the number of owners of each emitter, and the queue of messages.
pub struct HubModel<H, P> {
    pub directory: Map<u128, Map<CompoundKey, H>>,
    pub owners: Map<u128, nat>,
    pub queue: Seq<Message<P>>,
}

impl<H, P> HubModel<H, P> {
    /// No emitters, nothing queued.
    pub open spec fn empty() -> Self {
        HubModel { directory: Map::empty(), owners: Map::empty(), queue: Seq::empty() }
    }

    /// A new emitter `id`: listed with no handlers, held by one owner.
    pub open spec fn created(self, id: u128) -> Self {
        HubModel {
            directory: self.directory.insert(id, Map::empty()),
            owners: self.owners.insert(id, 1),
            queue: self.queue,
        }
    }

    /// `handler` registered under `key` on emitter `id`, replacing any earlier one;
    /// nothing changes for an emitter that is not listed.
    pub open spec fn registered(self, id: u128, key: CompoundKey, handler: H) -> Self {
        if self.directory.contains_key(id) {
            HubModel {
                directory: self.directory.insert(id, self.directory[id].insert(key, handler)),
                ..self
            }
        } else {
            self
        }
    }

    /// `payload` queued for the handler under `key` of emitter `id`.
    pub open spec fn triggered(self, id: u128, key: CompoundKey, payload: P) -> Self {
        HubModel {
            queue: self.queue.push(
                Message::Emit(Envelope { emitter_id: id, key: key, payload: payload }),
            ),
            ..self
        }
    }

    /// One more owner of emitter `id`, if it has owners.
    pub open spec fn shared(self, id: u128) -> Self {
        if self.owners.contains_key(id) {
            HubModel { owners: self.owners.insert(id, self.owners[id] + 1), ..self }
        } else {
            self
        }
    }

    /// One owner of emitter `id` fewer; when the last one goes, the emitter has no
    /// owners left and its removal is queued.
    pub open spec fn released(self, id: u128) -> Self {
        if !self.owners.contains_key(id) {
            self
        } else if self.owners[id] <= 1 {
            HubModel {
                owners: self.owners.remove(id),
                queue: self.queue.push(Message::Dropped(id)),
                ..self
            }
        } else {
            HubModel { owners: self.owners.insert(id, (self.owners[id] - 1) as nat), ..self }
        }
    }

    /// Where an envelope goes: the handler of its key on its emitter, if both exist.
    pub open spec fn route(self, env: Envelope<P>) -> Outcome<H, P> {
        if !self.directory.contains_key(env.emitter_id) {
            Outcome::NoEmitter
        } else if !self.directory[env.emitter_id].contains_key(env.key) {
            Outcome::NoHandler
        } else {
            Outcome::Deliver(self.directory[env.emitter_id][env.key], env.payload)
        }
    }

    /// The state after handling the oldest queued message, and what it came to;
    /// `None` when nothing is queued.
    pub open spec fn stepped(self) -> (Self, Option<Outcome<H, P>>) {
        if self.queue.len() == 0 {
            (self, None)
        } else {
            let rest = HubModel { queue: self.queue.drop_first(), ..self };
            match self.queue[0] {
                Message::Dropped(id) => (
                    HubModel { directory: self.directory.remove(id), ..rest },
                    Some(Outcome::Removed(id)),
                ),
                Message::Emit(env) => (rest, Some(self.route(env))),
            }
        }
    }

    /// The state after handling the `n` oldest queued messages one by one.
    pub open spec fn drained(self, n: nat) -> Self
        decreases n,
    {
        if n == 0 {
            self
        } else {
            self.drained((n - 1) as nat).stepped().0
        }
    }

    /// What handling the `n` oldest queued messages one by one came to, in order.
    pub open spec fn outcomes(self, n: nat) -> Seq<Outcome<H, P>>
        decreases n,
    {
        if n == 0 {
            Seq::empty()
        } else {
            match self.drained((n - 1) as nat).stepped().1 {
                Some(o) => self.outcomes((n - 1) as nat).push(o),
                None => self.outcomes((n - 1) as nat),
            }
        }
    }
}

} // verus!
