use peercore::relay::RelayRegistry;

#[test]
fn test_register_and_list() {
    let mut registry = RelayRegistry::new();

    registry.register(
        "peer1".to_string(),
        vec!["/ip4/1.2.3.4/tcp/4001".to_string()],
        Some("relay1".to_string()),
        900,
        1000,
    );

    let relays = registry.list();
    assert_eq!(relays.len(), 1);
    assert_eq!(relays[0].peer_id, "peer1");
    assert_eq!(relays[0].alias, Some("relay1".to_string()));
    assert_eq!(relays[0].health_score, 900);
}

#[test]
fn test_prune_stale() {
    let mut registry = RelayRegistry::new();

    registry.register(
        "old_peer".to_string(),
        vec!["/ip4/1.2.3.4/tcp/4001".to_string()],
        None,
        800,
        1000,
    );

    registry.register(
        "new_peer".to_string(),
        vec!["/ip4/5.6.7.8/tcp/4001".to_string()],
        None,
        900,
        9800,
    );

    // At time 10000 the old entry is 9000 seconds stale, the new one 200.
    let removed = registry.prune_stale(10000, 300);

    assert_eq!(removed, 1);
    assert_eq!(registry.count(), 1);

    let relays = registry.list();
    assert_eq!(relays[0].peer_id, "new_peer");
}

#[test]
fn test_health_score_sorting() {
    let mut registry = RelayRegistry::new();

    registry.register("peer1".to_string(), vec![], Some("low".to_string()), 300, 1000);
    registry.register("peer2".to_string(), vec![], Some("high".to_string()), 900, 1000);
    registry.register("peer3".to_string(), vec![], Some("medium".to_string()), 600, 1000);

    let relays = registry.list();
    assert_eq!(relays.len(), 3);
    assert_eq!(relays[0].alias, Some("high".to_string()));
    assert_eq!(relays[1].alias, Some("medium".to_string()));
    assert_eq!(relays[2].alias, Some("low".to_string()));
}

#[test]
fn test_get_and_contains() {
    let mut registry = RelayRegistry::new();

    registry.register(
        "test_peer".to_string(),
        vec!["/ip4/1.2.3.4/tcp/4001".to_string()],
        Some("test".to_string()),
        800,
        1000,
    );

    assert!(registry.contains(&"test_peer".to_string()));
    assert!(!registry.contains(&"non_existent".to_string()));

    let relay = registry.get(&"test_peer".to_string());
    assert!(relay.is_some());
    assert_eq!(relay.unwrap().alias, Some("test".to_string()));

    assert!(registry.get(&"non_existent".to_string()).is_none());
}

#[test]
fn test_remove() {
    let mut registry = RelayRegistry::new();

    registry.register("peer_to_remove".to_string(), vec![], None, 800, 1000);

    assert_eq!(registry.count(), 1);

    let removed = registry.remove(&"peer_to_remove".to_string());
    assert!(removed);
    assert_eq!(registry.count(), 0);

    let removed_again = registry.remove(&"peer_to_remove".to_string());
    assert!(!removed_again);
}

#[test]
fn register_clamps_health_score() {
    let mut registry = RelayRegistry::new();

    registry.register("hot".to_string(), vec![], None, 1500, 1000);
    registry.register("cold".to_string(), vec![], None, -200, 1000);

    assert_eq!(registry.get(&"hot".to_string()).unwrap().health_score, 1000);
    assert_eq!(registry.get(&"cold".to_string()).unwrap().health_score, 0);
}

#[test]
fn register_updates_existing_entry_in_place() {
    let mut registry = RelayRegistry::new();

    registry.register("peer1".to_string(), vec![], Some("before".to_string()), 500, 1000);
    registry.register("peer2".to_string(), vec![], None, 400, 1000);
    registry.register("peer1".to_string(), vec![], Some("after".to_string()), 700, 2000);

    assert_eq!(registry.count(), 2);
    let entry = registry.get(&"peer1".to_string()).unwrap();
    assert_eq!(entry.alias, Some("after".to_string()));
    assert_eq!(entry.health_score, 700);
    assert_eq!(entry.last_seen, 2000);
}

#[test]
fn remove_nonexistent_leaves_count_unchanged() {
    let mut registry = RelayRegistry::new();
    registry.register("kept".to_string(), vec![], None, 500, 1000);

    assert!(!registry.remove(&"absent".to_string()));
    assert_eq!(registry.count(), 1);
}

#[test]
fn prune_keeps_entry_seen_in_the_future() {
    let mut registry = RelayRegistry::new();
    // Clock skew: last_seen after `now` counts as age zero.
    registry.register("skewed".to_string(), vec![], None, 500, 2000);

    let removed = registry.prune_stale(1000, 300);
    assert_eq!(removed, 0);
    assert_eq!(registry.count(), 1);
}

#[test]
fn ties_keep_registration_order() {
    let mut registry = RelayRegistry::new();
    registry.register("a".to_string(), vec![], None, 500, 1000);
    registry.register("b".to_string(), vec![], None, 500, 1000);
    registry.register("c".to_string(), vec![], None, 900, 1000);

    let relays = registry.list();
    assert_eq!(relays[0].peer_id, "c");
    assert_eq!(relays[1].peer_id, "a");
    assert_eq!(relays[2].peer_id, "b");
}

#[test]
fn clear_empties_the_registry() {
    let mut registry = RelayRegistry::new();
    registry.register("a".to_string(), vec![], None, 500, 1000);
    registry.register("b".to_string(), vec![], None, 600, 1000);

    registry.clear();
    assert_eq!(registry.count(), 0);
    assert!(registry.list().is_empty());
}
