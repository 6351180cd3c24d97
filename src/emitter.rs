//! The emitter façade: subscribe with `on`, publish with `trigger`.
use vstd::prelude::*;
use crate::hub::Hub;
use crate::key::CompoundKey;
use crate::model::Outcome;

verus! {

/// Relies on `uuid::Uuid::new_v4` for a random identifier, read as its 128-bit
/// value. Nothing is promised of the value.
#[verifier::external_body]
fn fresh_id() -> (r: u128) {
    uuid::Uuid::new_v4().as_u128()
}

/// An owning handle on one emitter of a hub. Handles are made by [`EventEmitter::new`]
/// and [`EventEmitter::share`]; when the last one is released, the emitter's
/// removal from the directory is queued.
pub struct EventEmitter {
    id: u128,
}

impl View for EventEmitter {
    type V = u128;

    closed spec fn view(&self) -> u128 {
        self.id
    }
}

impl EventEmitter {
    /// Makes a new emitter with a fresh id. Every message queued at the call is
    /// handled first, oldest first; then the emitter is listed in the hub's
    /// directory with no handlers and one owner. Returns that owner, and what
    /// each queued message came to, in order: the caller invokes the handler of
    /// each `Deliver` with its payload.
    pub fn new<H: Copy, P>(hub: &mut Hub<H, P>) -> (r: (EventEmitter, Vec<Outcome<H, P>>))
        requires
            old(hub).wf(),
        ensures
            final(hub).wf(),
            final(hub)@ == old(hub)@.drained(old(hub)@.queue.len()).created(r.0@),
            r.1@ == old(hub)@.outcomes(old(hub)@.queue.len()),
            final(hub)@.queue.len() == 0,
            final(hub)@.directory.contains_key(r.0@),
    {
        let outcomes = hub.drain();
        let id = fresh_id();
        hub.create(id);
        (EventEmitter { id }, outcomes)
    }

    /// The emitter's id.
    pub fn id(&self) -> (r: u128)
        ensures
            r == self@,
    {
        self.id
    }

    /// Registers `handler` for events of kind `K` with payloads of type `X`,
    /// replacing a handler registered earlier for the same pair.
    pub fn on<K: 'static, X: 'static, H: Copy, P>(&self, hub: &mut Hub<H, P>, handler: H)
        requires
            old(hub).wf(),
        ensures
            final(hub).wf(),
            exists|key: CompoundKey| final(hub)@ == old(hub)@.registered(self@, key, handler),
    {
        self.on_key(hub, CompoundKey::of::<K, X>(), handler);
    }

    /// Registers `handler` under `key`, replacing a handler registered earlier
    /// under it. Nothing changes if the emitter is no longer listed.
    pub fn on_key<H: Copy, P>(&self, hub: &mut Hub<H, P>, key: CompoundKey, handler: H)
        requires
            old(hub).wf(),
        ensures
            final(hub).wf(),
            final(hub)@ == old(hub)@.registered(self@, key, handler),
    {
        hub.register(self.id, key, handler);
    }

    /// Queues `payload` for this emitter's handler of kind `K` and payload type
    /// `X`. Nothing is delivered until the hub's queue is drained.
    pub fn trigger<K: 'static, X: 'static, H: Copy, P>(&self, hub: &mut Hub<H, P>, payload: P)
        requires
            old(hub).wf(),
        ensures
            final(hub).wf(),
            exists|key: CompoundKey| final(hub)@ == old(hub)@.triggered(self@, key, payload),
    {
        self.trigger_key(hub, CompoundKey::of::<K, X>(), payload);
    }

    /// Queues `payload` for this emitter's handler under `key`.
    pub fn trigger_key<H: Copy, P>(&self, hub: &mut Hub<H, P>, key: CompoundKey, payload: P)
        requires
            old(hub).wf(),
        ensures
            final(hub).wf(),
            final(hub)@ == old(hub)@.triggered(self@, key, payload),
    {
        hub.publish(self.id, key, payload);
    }

    /// Another owner of the same emitter.
    pub fn share<H: Copy, P>(&self, hub: &mut Hub<H, P>) -> (r: EventEmitter)
        requires
            old(hub).wf(),
            old(hub)@.owners.contains_key(self@) ==> old(hub)@.owners[self@] < u64::MAX,
        ensures
            final(hub).wf(),
            final(hub)@ == old(hub)@.shared(self@),
            r@ == self@,
    {
        hub.add_owner(self.id);
        EventEmitter { id: self.id }
    }

    /// Gives up this owner; when it was the last, the emitter's removal is queued.
    pub fn release<H: Copy, P>(self, hub: &mut Hub<H, P>)
        requires
            old(hub).wf(),
        ensures
            final(hub).wf(),
            final(hub)@ == old(hub)@.released(self@),
    {
        hub.drop_owner(self.id);
    }
}

} // verus!
