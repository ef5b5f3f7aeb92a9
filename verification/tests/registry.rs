use terrahub::registry::{ClaimState, DeviceRecord, DeviceRegistry};

fn record(identity: &str, routing_addr: u16, claim: ClaimState) -> DeviceRecord {
    DeviceRecord {
        identity: identity.into(),
        routing_addr,
        claim,
        last_seen_seq: 1,
        node_class: None,
    }
}

#[test]
fn mark_claimed_updates_addr() {
    let mut reg = DeviceRegistry::new();
    reg.upsert(DeviceRecord {
        identity: "TL-1".into(),
        routing_addr: 0,
        claim: ClaimState::Pending,
        last_seen_seq: 1,
        node_class: Some(1),
    });
    assert!(reg.mark_claimed("TL-1", 42));
    let rec = reg.get("TL-1").unwrap();
    assert_eq!(rec.claim, ClaimState::Claimed);
    assert_eq!(rec.routing_addr, 42);
    assert!(!reg.mark_claimed("missing", 1));
}

#[test]
fn upsert_replaces_same_identity() {
    let mut reg = DeviceRegistry::new();
    reg.upsert(record("TL-1", 1, ClaimState::Claimed));
    reg.upsert(record("TL-2", 2, ClaimState::Pending));
    reg.upsert(record("TL-1", 9, ClaimState::Pending));
    let list = reg.list();
    assert_eq!(list.len(), 2);
    let rec = reg.get("TL-1").unwrap();
    assert_eq!(rec.routing_addr, 9);
    assert_eq!(rec.claim, ClaimState::Pending);
    assert!(reg.get("TL-3").is_none());
}

#[test]
fn pending_lists_only_unclaimed() {
    let mut reg = DeviceRegistry::new();
    reg.upsert(record("A", 1, ClaimState::Pending));
    reg.upsert(record("B", 2, ClaimState::Pending));
    reg.upsert(record("C", 3, ClaimState::Claimed));
    assert!(reg.mark_claimed("A", 10));
    let mut names: Vec<String> = reg.pending().into_iter().map(|r| r.identity).collect();
    names.sort();
    assert_eq!(names, vec!["B".to_string()]);
    let mut all: Vec<String> = reg.list().into_iter().map(|r| r.identity).collect();
    all.sort();
    assert_eq!(all, vec!["A".to_string(), "B".to_string(), "C".to_string()]);
}

#[test]
fn mark_claimed_keeps_other_fields() {
    let mut reg = DeviceRegistry::new();
    reg.upsert(DeviceRecord {
        identity: "N".into(),
        routing_addr: 5,
        claim: ClaimState::Pending,
        last_seen_seq: 77,
        node_class: Some(3),
    });
    assert!(reg.mark_claimed("N", 6));
    let rec = reg.get("N").unwrap();
    assert_eq!(rec.last_seen_seq, 77);
    assert_eq!(rec.node_class, Some(3));
    assert_eq!(rec.routing_addr, 6);
}

#[test]
fn empty_registry() {
    let reg = DeviceRegistry::new();
    assert!(reg.list().is_empty());
    assert!(reg.pending().is_empty());
    assert!(reg.get("x").is_none());
}
