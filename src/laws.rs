//! What holds of every hub, stated over its model and proved.
use vstd::prelude::*;
use crate::key::CompoundKey;
use crate::model::{Envelope, HubModel, Message, Outcome};

verus! {

/// A newly made emitter is found in the directory at once.
pub proof fn lemma_created_is_listed<H, P>(m: HubModel<H, P>, id: u128)
    ensures
        m.created(id).directory.contains_key(id),
        m.created(id).directory[id] == Map::<CompoundKey, H>::empty(),
{
}

/// Handling queued messages takes them from the front, in order: after `k` of
/// them, the rest wait as they were.
pub proof fn lemma_drained_queue<H, P>(m: HubModel<H, P>, k: nat)
    requires
        k <= m.queue.len(),
    ensures
        m.drained(k).queue =~= m.queue.subrange(k as int, m.queue.len() as int),
    decreases k,
{
    if k > 0 {
        lemma_drained_queue(m, (k - 1) as nat);
    }
}

/// Handling queued messages never lists an emitter that was not listed.
pub proof fn lemma_drain_never_lists<H, P>(m: HubModel<H, P>, n: nat, id: u128)
    requires
        !m.directory.contains_key(id),
    ensures
        !m.drained(n).directory.contains_key(id),
    decreases n,
{
    if n > 0 {
        lemma_drain_never_lists(m, (n - 1) as nat, id);
    }
}

/// Once the queue has been drained past a removal of emitter `id`, the emitter
/// is not listed.
pub proof fn lemma_drain_past_removal<H, P>(m: HubModel<H, P>, n: nat, j: int, id: u128)
    requires
        0 <= j < n,
        j < m.queue.len(),
        m.queue[j] == Message::<P>::Dropped(id),
    ensures
        !m.drained(n).directory.contains_key(id),
    decreases n,
{
    if n == j + 1 {
        lemma_drained_queue(m, j as nat);
        assert(m.drained(j as nat).queue[0] == m.queue[j]);
    } else {
        lemma_drain_past_removal(m, (n - 1) as nat, j, id);
    }
}

/// When the last owner of an emitter is released and the queue is drained, the
/// emitter is no longer found in the directory.
pub proof fn lemma_last_release_removes<H, P>(m: HubModel<H, P>, id: u128)
    requires
        m.owners.contains_key(id),
        m.owners[id] == 1,
    ensures
        !m.released(id).drained(m.queue.len() + 1).directory.contains_key(id),
{
    let r = m.released(id);
    assert(r.queue[m.queue.len() as int] == Message::<P>::Dropped(id));
    lemma_drain_past_removal(r, m.queue.len() + 1, m.queue.len() as int, id);
}

/// Handling the messages queued before another message gives the same states
/// and outcomes as without it; that message waits behind them.
pub proof fn lemma_queued_message_waits<H, P>(m: HubModel<H, P>, msg: Message<P>, k: nat)
    requires
        k <= m.queue.len(),
    ensures
        (HubModel { queue: m.queue.push(msg), ..m }).drained(k) == (HubModel {
            queue: m.drained(k).queue.push(msg),
            ..m.drained(k)
        }),
        (HubModel { queue: m.queue.push(msg), ..m }).outcomes(k) == m.outcomes(k),
    decreases k,
{
    if k > 0 {
        lemma_queued_message_waits(m, msg, (k - 1) as nat);
        lemma_drained_queue(m, (k - 1) as nat);
        let d = m.drained((k - 1) as nat);
        assert((HubModel { queue: d.queue.push(msg), ..d }).queue[0] == d.queue[0]);
        assert((HubModel { queue: d.queue.push(msg), ..d }).queue.drop_first()
            =~= d.queue.drop_first().push(msg));
    }
}

/// A payload triggered on emitter `id` is routed after every message queued
/// before it, by the directory as handling those leaves it; the hub is then as
/// handling those alone leaves it.
pub proof fn lemma_trigger_routed_after_queue<H, P>(
    m: HubModel<H, P>,
    id: u128,
    key: CompoundKey,
    payload: P,
)
    ensures
        m.triggered(id, key, payload).drained(m.queue.len() + 1) == m.drained(m.queue.len()),
        m.triggered(id, key, payload).outcomes(m.queue.len() + 1) == m.outcomes(
            m.queue.len(),
        ).push(m.drained(m.queue.len()).route(Envelope { emitter_id: id, key, payload })),
{
    let n = m.queue.len();
    let msg = Message::Emit(Envelope { emitter_id: id, key, payload });
    lemma_queued_message_waits(m, msg, n);
    lemma_drained_queue(m, n);
    let d = m.drained(n);
    assert((HubModel { queue: d.queue.push(msg), ..d }).queue.drop_first() =~= d.queue);
    assert(m.triggered(id, key, payload) == (HubModel { queue: m.queue.push(msg), ..m }));
}

/// Handling queued messages never changes a listed emitter's handlers; an
/// emitter still listed afterwards was listed before, with the same handlers.
pub proof fn lemma_drain_keeps_handlers<H, P>(m: HubModel<H, P>, n: nat, id: u128)
    ensures
        m.drained(n).directory.contains_key(id) ==> m.directory.contains_key(id)
            && m.drained(n).directory[id] == m.directory[id],
    decreases n,
{
    if n > 0 {
        lemma_drain_keeps_handlers(m, (n - 1) as nat, id);
    }
}

/// A payload triggered on a registered key reaches that key's handler, once,
/// after the messages queued before it, provided the emitter is still listed
/// when its turn comes; nothing is left to handle afterwards.
pub proof fn lemma_trigger_reaches_handler<H, P>(
    m: HubModel<H, P>,
    id: u128,
    key: CompoundKey,
    handler: H,
    payload: P,
)
    requires
        m.registered(id, key, handler).drained(m.queue.len()).directory.contains_key(id),
    ensures
        m.registered(id, key, handler).triggered(id, key, payload).outcomes(m.queue.len() + 1)
            == m.registered(id, key, handler).outcomes(m.queue.len()).push(
            Outcome::Deliver(handler, payload),
        ),
        m.registered(id, key, handler).triggered(id, key, payload).drained(
            m.queue.len() + 1,
        ).queue.len() == 0,
{
    let r = m.registered(id, key, handler);
    lemma_trigger_routed_after_queue(r, id, key, payload);
    lemma_drain_keeps_handlers(r, r.queue.len(), id);
    lemma_drained_queue(r, r.queue.len());
}

/// A second registration under a key replaces the first: a later trigger
/// reaches only the second handler.
pub proof fn lemma_registration_replaces<H, P>(
    m: HubModel<H, P>,
    id: u128,
    key: CompoundKey,
    first: H,
    second: H,
    payload: P,
)
    requires
        m.registered(id, key, first).registered(id, key, second).drained(
            m.queue.len(),
        ).directory.contains_key(id),
    ensures
        m.registered(id, key, first).registered(id, key, second).triggered(
            id,
            key,
            payload,
        ).outcomes(m.queue.len() + 1) == m.registered(id, key, first).registered(
            id,
            key,
            second,
        ).outcomes(m.queue.len()).push(Outcome::Deliver(second, payload)),
{
    let r = m.registered(id, key, first).registered(id, key, second);
    lemma_trigger_routed_after_queue(r, id, key, payload);
    lemma_drain_keeps_handlers(r, r.queue.len(), id);
    assert(r.directory[id] == m.directory[id].insert(key, first).insert(key, second));
}

/// Triggering a key that has no handler invokes nothing: its turn comes to
/// `NoHandler`, and the hub is as handling the earlier messages leaves it.
pub proof fn lemma_unhandled_trigger_is_void<H, P>(
    m: HubModel<H, P>,
    id: u128,
    key: CompoundKey,
    payload: P,
)
    requires
        m.drained(m.queue.len()).directory.contains_key(id),
        !m.directory[id].contains_key(key),
    ensures
        m.triggered(id, key, payload).outcomes(m.queue.len() + 1) == m.outcomes(
            m.queue.len(),
        ).push(Outcome::NoHandler),
        m.triggered(id, key, payload).drained(m.queue.len() + 1) == m.drained(m.queue.len()),
{
    lemma_trigger_routed_after_queue(m, id, key, payload);
    lemma_drain_keeps_handlers(m, m.queue.len(), id);
}

/// Triggering on an emitter that is no longer listed when its turn comes
/// invokes nothing: its turn comes to `NoEmitter`, and the hub is as handling
/// the earlier messages leaves it.
pub proof fn lemma_unlisted_trigger_is_void<H, P>(
    m: HubModel<H, P>,
    id: u128,
    key: CompoundKey,
    payload: P,
)
    requires
        !m.drained(m.queue.len()).directory.contains_key(id),
    ensures
        m.triggered(id, key, payload).outcomes(m.queue.len() + 1) == m.outcomes(
            m.queue.len(),
        ).push(Outcome::NoEmitter),
        m.triggered(id, key, payload).drained(m.queue.len() + 1) == m.drained(m.queue.len()),
{
    lemma_trigger_routed_after_queue(m, id, key, payload);
}

/// Two emitters with handlers under the same key each receive only what is
/// triggered on them.
pub proof fn lemma_emitters_are_isolated<H, P>(
    m: HubModel<H, P>,
    first: u128,
    second: u128,
    key: CompoundKey,
    first_handler: H,
    second_handler: H,
    payload: P,
)
    requires
        first != second,
        m.registered(first, key, first_handler).registered(
            second,
            key,
            second_handler,
        ).drained(m.queue.len()).directory.contains_key(first),
        m.registered(first, key, first_handler).registered(
            second,
            key,
            second_handler,
        ).drained(m.queue.len()).directory.contains_key(second),
    ensures
        m.registered(first, key, first_handler).registered(
            second,
            key,
            second_handler,
        ).triggered(first, key, payload).outcomes(m.queue.len() + 1).last() == Outcome::<
            H,
            P,
        >::Deliver(first_handler, payload),
        m.registered(first, key, first_handler).registered(
            second,
            key,
            second_handler,
        ).triggered(second, key, payload).outcomes(m.queue.len() + 1).last() == Outcome::<
            H,
            P,
        >::Deliver(second_handler, payload),
{
    let r = m.registered(first, key, first_handler).registered(second, key, second_handler);
    lemma_trigger_routed_after_queue(r, first, key, payload);
    lemma_trigger_routed_after_queue(r, second, key, payload);
    lemma_drain_keeps_handlers(r, r.queue.len(), first);
    lemma_drain_keeps_handlers(r, r.queue.len(), second);
}

} // verus!
