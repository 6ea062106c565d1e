use mdns_rr::stats::{Stats, SWARM_GOSSIP_SENT, WS_MESSAGES_SENT};

#[test]
fn defaults_read_zero() {
    let s = Stats::swarm_defaults();
    assert_eq!(s.get("event_tx:MessageReceived"), Some("0".to_string()));
    assert_eq!(s.get("gossip_sent"), Some("0".to_string()));
    assert_eq!(s.get("gossip_received"), Some("0".to_string()));
    assert_eq!(s.get("other"), None);
    let w = Stats::ws_defaults();
    assert_eq!(w.count("event_rx:MessageReceived"), 0);
    assert_eq!(w.count(WS_MESSAGES_SENT), 0);
    assert_eq!(w.count("messages_received"), 0);
}

#[test]
fn increase_adds_one_and_keeps_others() {
    let mut s = Stats::swarm_defaults();
    s.increase_sw_gossip_sent();
    s.increase_sw_gossip_sent();
    s.increase_sw_gossip_received();
    assert_eq!(s.get(SWARM_GOSSIP_SENT), Some("2".to_string()));
    assert_eq!(s.count("gossip_received"), 1);
    assert_eq!(s.count("event_tx:MessageReceived"), 0);
    s.increase_sw_tx_message_received();
    assert_eq!(s.count("event_tx:MessageReceived"), 1);
}

#[test]
fn unknown_key_starts_at_one() {
    let mut s = Stats::ws_defaults();
    s.increase_stats("custom");
    assert_eq!(s.get("custom"), Some("1".to_string()));
    s.increase_ws_messages_sent();
    s.increase_ws_messages_received();
    s.increase_ws_rx_message_received();
    assert_eq!(s.count("messages_sent"), 1);
    assert_eq!(s.count("messages_received"), 1);
    assert_eq!(s.count("event_rx:MessageReceived"), 1);
}

#[test]
fn stats_as_json() {
    let mut s = Stats::swarm_defaults();
    s.increase_sw_gossip_received();
    assert_eq!(s.to_json(), r#"{"event_tx:MessageReceived":"0","gossip_sent":"0","gossip_received":"1"}"#);
    let parsed: std::collections::HashMap<String, String> = serde_json::from_str(&s.to_json()).unwrap();
    assert_eq!(parsed.get("gossip_received").map(String::as_str), Some("1"));
}
