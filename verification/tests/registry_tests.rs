use node_network::ids::{IdError, OverlayShortId};
use node_network::registry::{CacheStep, PublishOutcome, Registry, publish_decision};

fn id_of(byte: u8) -> OverlayShortId {
    OverlayShortId::from_bytes(vec![byte; 32]).unwrap()
}

#[test]
fn id_rejects_wrong_length() {
    assert_eq!(OverlayShortId::from_bytes(vec![0u8; 31]).err(), Some(IdError::WrongLength));
    assert_eq!(OverlayShortId::from_bytes(vec![0u8; 0]).err(), Some(IdError::WrongLength));
    assert!(OverlayShortId::from_bytes(vec![0u8; 32]).is_ok());
}

#[test]
fn publish_creates_when_slot_empty() {
    let mut reg = Registry::new();
    let id = id_of(1);
    assert_eq!(reg.lookup(&id), None);
    assert_eq!(reg.publish(&id, 77), PublishOutcome::Created);
    assert_eq!(reg.lookup(&id), Some(77));
}

#[test]
fn publish_discards_second_candidate() {
    let mut reg = Registry::new();
    let id = id_of(2);
    assert_eq!(reg.publish(&id, 10), PublishOutcome::Created);
    // A concurrently built candidate for the same id loses the race:
    // it is discarded whole and the resident instance is reported.
    assert_eq!(reg.publish(&id, 11), PublishOutcome::Discarded(10));
    assert_eq!(reg.lookup(&id), Some(10));
    // The loser is observable nowhere, in either publish order.
    let mut reg2 = Registry::new();
    assert_eq!(reg2.publish(&id, 11), PublishOutcome::Created);
    assert_eq!(reg2.publish(&id, 10), PublishOutcome::Discarded(11));
    assert_eq!(reg2.lookup(&id), Some(11));
}

#[test]
fn resident_entry_is_permanent() {
    let mut reg = Registry::new();
    let a = id_of(3);
    let b = id_of(4);
    assert_eq!(reg.publish(&a, 1), PublishOutcome::Created);
    assert_eq!(reg.publish(&b, 2), PublishOutcome::Created);
    assert_eq!(reg.publish(&a, 9), PublishOutcome::Discarded(1));
    assert_eq!(reg.publish(&b, 9), PublishOutcome::Discarded(2));
    assert_eq!(reg.lookup(&a), Some(1));
    assert_eq!(reg.lookup(&b), Some(2));
}

#[test]
fn slots_of_different_overlays_are_independent() {
    let mut reg = Registry::new();
    let a = id_of(5);
    let b = id_of(6);
    assert_eq!(reg.publish(&a, 40), PublishOutcome::Created);
    assert_eq!(reg.lookup(&b), None);
    assert_eq!(reg.publish(&b, 41), PublishOutcome::Created);
    assert_eq!(reg.lookup(&a), Some(40));
    assert_eq!(reg.lookup(&b), Some(41));
}

#[test]
fn cache_callback_protocol() {
    // An updated pair means another attempt won: discard.
    assert_eq!(publish_decision(false, true), CacheStep::Discard);
    assert_eq!(publish_decision(true, true), CacheStep::Discard);
    // Our own value from a previous generation: the insert landed.
    assert_eq!(publish_decision(true, false), CacheStep::Keep);
    // Empty slot: claim it.
    assert_eq!(publish_decision(false, false), CacheStep::TryInsert);
}
