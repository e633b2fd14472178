use chat_relay::{ChatMessage, PeerRegistry};
use tokio::sync::mpsc::unbounded_channel;

fn msg(u: &str, c: &str) -> ChatMessage {
    ChatMessage::new(u.to_string(), c.to_string())
}

#[test]
fn distinct_peers_each_get_one_entry() {
    let mut reg = PeerRegistry::new();
    let mut keep = Vec::new();
    for i in 0..5 {
        let (tx, rx) = unbounded_channel::<String>();
        keep.push(rx);
        assert!(!reg.register(format!("10.0.0.{}:4000", i), tx));
        assert_eq!(reg.len(), i + 1);
    }
    for i in 0..5 {
        assert!(reg.contains(&format!("10.0.0.{}:4000", i)));
    }
    assert!(!reg.contains("10.0.0.9:4000"));
}

#[test]
fn registering_a_known_id_replaces_its_endpoint() {
    let mut reg = PeerRegistry::new();
    let (tx1, mut rx1) = unbounded_channel::<String>();
    let (tx2, mut rx2) = unbounded_channel::<String>();
    assert!(!reg.register("p".to_string(), tx1));
    assert!(reg.register("p".to_string(), tx2));
    assert_eq!(reg.len(), 1);
    let report = reg.broadcast("other", &msg("x", "y"));
    assert_eq!(report.deliveries.len(), 1);
    assert!(rx1.try_recv().is_err());
    assert_eq!(rx2.try_recv().unwrap(), report.frame);
}

#[test]
fn broadcast_skips_the_sender_and_reaches_each_other_peer_once() {
    let mut reg = PeerRegistry::new();
    let (ta, mut ra) = unbounded_channel::<String>();
    let (tb, mut rb) = unbounded_channel::<String>();
    let (tc, mut rc) = unbounded_channel::<String>();
    reg.register("A".to_string(), ta);
    reg.register("B".to_string(), tb);
    reg.register("C".to_string(), tc);
    let report = reg.broadcast("A", &msg("alice", "x"));
    let peers: Vec<&str> = report.deliveries.iter().map(|d| d.peer.as_str()).collect();
    assert_eq!(peers, vec!["B", "C"]);
    assert!(report.deliveries.iter().all(|d| d.accepted));
    assert_eq!(report.frame, "{\"username\":\"alice\",\"content\":\"x\"}");
    assert_eq!(rb.try_recv().unwrap(), report.frame);
    assert_eq!(rc.try_recv().unwrap(), report.frame);
    assert!(rb.try_recv().is_err());
    assert!(rc.try_recv().is_err());
    assert!(ra.try_recv().is_err());
}

#[test]
fn closed_endpoint_does_not_stop_other_deliveries() {
    let mut reg = PeerRegistry::new();
    let (tb, rb) = unbounded_channel::<String>();
    let (tc, mut rc) = unbounded_channel::<String>();
    reg.register("B".to_string(), tb);
    reg.register("C".to_string(), tc);
    drop(rb);
    let report = reg.broadcast("A", &msg("a", "m"));
    assert_eq!(report.deliveries.len(), 2);
    assert_eq!(report.deliveries[0].peer, "B");
    assert!(!report.deliveries[0].accepted);
    assert_eq!(report.deliveries[1].peer, "C");
    assert!(report.deliveries[1].accepted);
    assert_eq!(rc.try_recv().unwrap(), report.frame);
}

#[test]
fn unregister_is_idempotent() {
    let mut reg = PeerRegistry::new();
    let (ta, _ra) = unbounded_channel::<String>();
    let (tb, mut rb) = unbounded_channel::<String>();
    reg.register("A".to_string(), ta);
    reg.register("B".to_string(), tb);
    assert!(reg.unregister("B"));
    assert!(!reg.unregister("B"));
    assert!(!reg.unregister("never"));
    assert_eq!(reg.len(), 1);
    assert!(!reg.contains("B"));
    let report = reg.broadcast("A", &msg("a", "bye"));
    assert!(report.deliveries.is_empty());
    assert!(rb.try_recv().is_err());
}

#[test]
fn empty_registry_broadcasts_to_nobody() {
    let reg = PeerRegistry::new();
    assert_eq!(reg.len(), 0);
    let report = reg.broadcast("A", &msg("a", "hello"));
    assert!(report.deliveries.is_empty());
}
