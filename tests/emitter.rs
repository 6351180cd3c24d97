use emitter::{CompoundKey, EventEmitter, HandlerRegistry, Hub, Outcome};

struct Left;

struct Greeted;
struct Farewell;

/// Drains the hub, returning every (handler, payload) delivery in order.
fn drain(hub: &mut Hub<usize, String>) -> Vec<(usize, String)> {
    let mut delivered = Vec::new();
    while let Some(outcome) = hub.step() {
        if let Outcome::Deliver(handler, payload) = outcome {
            delivered.push((handler, payload));
        }
    }
    delivered
}

#[test]
fn created_emitter_is_listed() {
    let mut hub: Hub<usize, String> = Hub::new();
    let (e, _) = EventEmitter::new(&mut hub);
    assert!(hub.contains(e.id()));
    assert_eq!(hub.pending(), 0);
}

#[test]
fn released_emitter_is_removed_after_drain() {
    let mut hub: Hub<usize, String> = Hub::new();
    let (e, _) = EventEmitter::new(&mut hub);
    let id = e.id();
    e.release(&mut hub);
    assert!(hub.contains(id));
    assert_eq!(hub.pending(), 1);
    assert!(matches!(hub.step(), Some(Outcome::Removed(r)) if r == id));
    assert!(!hub.contains(id));
}

#[test]
fn shared_emitter_lives_until_last_release() {
    let mut hub: Hub<usize, String> = Hub::new();
    let (e, _) = EventEmitter::new(&mut hub);
    let id = e.id();
    let copy = e.share(&mut hub);
    assert_eq!(copy.id(), id);
    e.release(&mut hub);
    assert!(drain(&mut hub).is_empty());
    assert!(hub.contains(id));
    copy.release(&mut hub);
    drain(&mut hub);
    assert!(!hub.contains(id));
}

#[test]
fn trigger_reaches_handler_once() {
    let mut hub: Hub<usize, String> = Hub::new();
    let (e, _) = EventEmitter::new(&mut hub);
    e.on::<Greeted, String, _, _>(&mut hub, 7);
    e.on::<Farewell, String, _, _>(&mut hub, 8);
    e.trigger::<Greeted, String, _, _>(&mut hub, "hi".to_string());
    assert_eq!(drain(&mut hub), vec![(7, "hi".to_string())]);
}

#[test]
fn nothing_is_delivered_before_drain() {
    let mut hub: Hub<usize, String> = Hub::new();
    let (e, _) = EventEmitter::new(&mut hub);
    e.on::<Greeted, String, _, _>(&mut hub, 1);
    e.trigger::<Greeted, String, _, _>(&mut hub, "a".to_string());
    e.trigger::<Greeted, String, _, _>(&mut hub, "b".to_string());
    assert_eq!(hub.pending(), 2);
    assert_eq!(drain(&mut hub), vec![(1, "a".to_string()), (1, "b".to_string())]);
    assert_eq!(hub.pending(), 0);
}

#[test]
fn reregistration_replaces_handler() {
    let mut hub: Hub<usize, String> = Hub::new();
    let (e, _) = EventEmitter::new(&mut hub);
    e.on::<Greeted, String, _, _>(&mut hub, 1);
    e.on::<Greeted, String, _, _>(&mut hub, 2);
    e.trigger::<Greeted, String, _, _>(&mut hub, "x".to_string());
    assert_eq!(drain(&mut hub), vec![(2, "x".to_string())]);
}

#[test]
fn unhandled_trigger_invokes_nothing() {
    let mut hub: Hub<usize, String> = Hub::new();
    let (e, _) = EventEmitter::new(&mut hub);
    e.on::<Farewell, String, _, _>(&mut hub, 1);
    e.trigger::<Greeted, String, _, _>(&mut hub, "lost".to_string());
    assert!(matches!(hub.step(), Some(Outcome::NoHandler)));
    assert!(hub.step().is_none());
}

#[test]
fn payload_type_is_part_of_the_key() {
    let mut hub: Hub<usize, String> = Hub::new();
    let (e, _) = EventEmitter::new(&mut hub);
    e.on::<Greeted, String, _, _>(&mut hub, 1);
    e.on::<Greeted, u32, _, _>(&mut hub, 2);
    e.trigger::<Greeted, u32, _, _>(&mut hub, "n".to_string());
    assert_eq!(drain(&mut hub), vec![(2, "n".to_string())]);
}

#[test]
fn trigger_on_unlisted_emitter_is_void() {
    let mut hub: Hub<usize, String> = Hub::new();
    let mut other: Hub<usize, String> = Hub::new();
    let (e, _) = EventEmitter::new(&mut hub);
    e.on::<Greeted, String, _, _>(&mut hub, 1);
    assert!(!other.contains(e.id()));
    e.trigger::<Greeted, String, _, _>(&mut other, "x".to_string());
    assert!(matches!(other.step(), Some(Outcome::NoEmitter)));
    assert!(other.step().is_none());
    assert_eq!(hub.pending(), 0);
}

#[test]
fn trigger_queued_before_last_release_is_delivered() {
    let mut hub: Hub<usize, String> = Hub::new();
    let (e, _) = EventEmitter::new(&mut hub);
    let id = e.id();
    e.on::<Greeted, String, _, _>(&mut hub, 1);
    e.trigger::<Greeted, String, _, _>(&mut hub, "late".to_string());
    e.release(&mut hub);
    assert_eq!(drain(&mut hub), vec![(1, "late".to_string())]);
    assert!(!hub.contains(id));
}

#[test]
fn emitters_are_isolated() {
    let mut hub: Hub<usize, String> = Hub::new();
    let (e1, _) = EventEmitter::new(&mut hub);
    let (e2, _) = EventEmitter::new(&mut hub);
    assert_ne!(e1.id(), e2.id());
    e1.on::<Greeted, String, _, _>(&mut hub, 1);
    e2.on::<Greeted, String, _, _>(&mut hub, 2);
    e2.trigger::<Greeted, String, _, _>(&mut hub, "two".to_string());
    e1.trigger::<Greeted, String, _, _>(&mut hub, "one".to_string());
    assert_eq!(
        drain(&mut hub),
        vec![(2, "two".to_string()), (1, "one".to_string())]
    );
}

#[test]
fn greeted_scenario() {
    let mut hub: Hub<usize, String> = Hub::new();
    let (e1, _) = EventEmitter::new(&mut hub);
    e1.on::<Greeted, String, _, _>(&mut hub, 0);
    e1.trigger::<Greeted, String, _, _>(&mut hub, "hi".to_string());
    let recorded = drain(&mut hub);
    assert_eq!(recorded, vec![(0, "hi".to_string())]);
    let (e2, _) = EventEmitter::new(&mut hub);
    e2.trigger::<Greeted, String, _, _>(&mut hub, "ignored".to_string());
    assert!(drain(&mut hub).is_empty());
    assert_eq!(recorded.len(), 1);
}

#[test]
fn compound_keys_follow_both_types() {
    let a = CompoundKey::of::<Greeted, String>();
    assert!(a.matches(&CompoundKey::of::<Greeted, String>()));
    assert!(!a.matches(&CompoundKey::of::<Farewell, String>()));
    assert!(!a.matches(&CompoundKey::of::<Greeted, u8>()));
    assert!(!a.matches(&CompoundKey::of::<String, Greeted>()));
}

#[test]
fn registry_overwrites_and_finds() {
    let mut r: HandlerRegistry<u32> = HandlerRegistry::new();
    let k = CompoundKey::of::<Greeted, String>();
    let other = CompoundKey::of::<Farewell, String>();
    assert_eq!(r.find(&k), None);
    r.insert(k, 3);
    r.insert(other, 4);
    r.insert(k, 5);
    assert_eq!(r.find(&k), Some(5));
    assert_eq!(r.find(&other), Some(4));
}

#[test]
fn new_emitter_drains_the_queue_first() {
    let mut hub: Hub<usize, String> = Hub::new();
    let (e1, _) = EventEmitter::new(&mut hub);
    e1.on::<Greeted, String, _, _>(&mut hub, 4);
    e1.trigger::<Greeted, String, _, _>(&mut hub, "queued".to_string());
    e1.trigger::<Left, String, _, _>(&mut hub, "unheard".to_string());
    assert_eq!(hub.pending(), 2);
    let (e2, outcomes) = EventEmitter::new(&mut hub);
    assert_eq!(hub.pending(), 0);
    assert!(hub.contains(e2.id()));
    assert_eq!(outcomes.len(), 2);
    assert!(matches!(&outcomes[0], Outcome::Deliver(4, p) if p == "queued"));
    assert!(matches!(&outcomes[1], Outcome::NoHandler));
}

#[test]
fn new_emitter_after_pending_removal_stays_listed() {
    let mut hub: Hub<usize, String> = Hub::new();
    let (e1, _) = EventEmitter::new(&mut hub);
    let id1 = e1.id();
    e1.release(&mut hub);
    let (e2, outcomes) = EventEmitter::new(&mut hub);
    assert!(matches!(&outcomes[..], [Outcome::Removed(r)] if *r == id1));
    assert!(!hub.contains(id1));
    assert!(hub.contains(e2.id()));
}

#[test]
fn owner_count_follows_share_and_release() {
    let mut hub: Hub<usize, String> = Hub::new();
    let (e, _) = EventEmitter::new(&mut hub);
    let id = e.id();
    assert_eq!(hub.owner_count(id), Some(1));
    let copy = e.share(&mut hub);
    assert_eq!(hub.owner_count(id), Some(2));
    e.release(&mut hub);
    assert_eq!(hub.owner_count(id), Some(1));
    copy.release(&mut hub);
    assert_eq!(hub.owner_count(id), None);
}

#[test]
fn hub_drain_reports_each_outcome_in_order() {
    let mut hub: Hub<usize, String> = Hub::new();
    let (e, _) = EventEmitter::new(&mut hub);
    e.on::<Greeted, String, _, _>(&mut hub, 2);
    e.trigger::<Greeted, String, _, _>(&mut hub, "one".to_string());
    e.trigger::<Left, String, _, _>(&mut hub, "two".to_string());
    let outcomes = hub.drain();
    assert_eq!(outcomes.len(), 2);
    assert!(matches!(&outcomes[0], Outcome::Deliver(2, p) if p == "one"));
    assert!(matches!(&outcomes[1], Outcome::NoHandler));
    assert_eq!(hub.pending(), 0);
}
