use mdns_rr::message::{random_uuid_text, MyMessage};
use mdns_rr::settings::WebSocketServerConfig;

#[test]
fn websocket_listen_address() {
    let c = WebSocketServerConfig { host: "0.0.0.0".to_string(), port: 3001, max_clients: 10, heartbeat_interval: 5 };
    assert_eq!(c.listen_address(), "0.0.0.0:3001");
    let c = WebSocketServerConfig { port: 0, ..c };
    assert_eq!(c.listen_address(), "0.0.0.0:0");
}

#[test]
fn messages_get_fresh_ids() {
    let a = MyMessage::new("me".to_string(), "hello".to_string());
    let b = MyMessage::new("me".to_string(), "hello".to_string());
    assert_eq!(a.sender, "me");
    assert_eq!(a.content, "hello");
    assert_eq!(a.id.len(), 36);
    assert_eq!(a.id.chars().filter(|c| *c == '-').count(), 4);
    assert!(uuid::Uuid::parse_str(&a.id).is_ok());
    assert_ne!(a.id, b.id);
    assert_eq!(a.timestamp, 0);
}

#[test]
fn random_ids_are_version_4_uuids() {
    for _ in 0..50 {
        let id = random_uuid_text();
        let chars: Vec<char> = id.chars().collect();
        assert_eq!(chars.len(), 36);
        assert_eq!(chars[14], '4');
        assert!(matches!(chars[19], '8' | '9' | 'a' | 'b'));
        let parsed = uuid::Uuid::parse_str(&id).unwrap();
        assert_eq!(parsed.get_version_num(), 4);
        assert_eq!(parsed.to_string(), id);
    }
}
