use mdns_rr::events::{KafkaConsumerCmd, SwarmCommand, WebSocketCommand};
use mdns_rr::kafka::{consumer_config, payload_text, relay_commands, stamp, KafkaConsumerManager, ManagerAction, MarketData, PayloadText};
use mdns_rr::settings::KafkaConfig;

#[test]
fn payloads_are_read_as_text() {
    assert!(matches!(payload_text(None), PayloadText::Missing));
    assert!(matches!(payload_text(Some(vec![0xc3, 0x28])), PayloadText::NotUtf8));
    match payload_text(Some(b"{\"a\":1}".to_vec())) {
        PayloadText::Text(t) => assert_eq!(t, "{\"a\":1}"),
        _ => panic!("valid UTF-8 is text"),
    }
}

#[test]
fn records_are_stamped_and_relayed_twice() {
    let data = MarketData { client_id: "c".to_string(), round: 1, c: 2, ts: None, content: Some("z".to_string()) };
    let stamped = stamp(data.clone(), 1234);
    assert_eq!(stamped, MarketData { ts: Some(1234), ..data });
    let (swarm, ws) = relay_commands("{}".to_string());
    assert_eq!(swarm, SwarmCommand::BroadcastGossipMessage { content: "{}".to_string() });
    assert_eq!(ws, WebSocketCommand::BroadcastToAll { content: "{}".to_string() });
}

#[test]
fn manager_spawns_on_subscribe_and_records() {
    let mut m: KafkaConsumerManager<u32> = KafkaConsumerManager::new();
    match m.command_handler(KafkaConsumerCmd::Subscribe("prices".to_string())) {
        ManagerAction::Spawn { topic } => assert_eq!(topic, "prices"),
        _ => panic!("subscribe spawns"),
    }
    match m.command_handler(KafkaConsumerCmd::Unsubscribe("prices".to_string())) {
        ManagerAction::Stop { topic, task } => {
            assert_eq!(topic, "prices");
            assert_eq!(task, None);
        }
        _ => panic!("unsubscribe stops"),
    }
    assert_eq!(m.record_task("prices".to_string(), 1), None);
    assert_eq!(m.record_task("prices".to_string(), 2), Some(1));
    assert!(m.has_task("prices"));
    assert_eq!(m.task_count(), 1);
}

#[test]
fn consumer_configuration() {
    let mut config = KafkaConfig::default();
    config.bootstrap_servers = "localhost:9092".to_string();
    config.consumer.group_id = "g".to_string();
    let client = consumer_config(&config);
    let expected = [
        ("group.id", "g"),
        ("bootstrap.servers", "localhost:9092"),
        ("enable.partition.eof", "false"),
        ("session.timeout.ms", "6000"),
        ("enable.auto.commit", "true"),
        ("auto.offset.reset", "latest"),
    ];
    for (key, value) in expected {
        assert_eq!(client.get(key), Some(value));
    }
    assert_eq!(client.config_map().len(), expected.len());
}

#[test]
fn unsubscribe_stops_the_topic_task() {
    let mut m: KafkaConsumerManager<u32> = KafkaConsumerManager::new();
    assert_eq!(m.record_task("prices".to_string(), 7), None);
    assert_eq!(m.record_task("trades".to_string(), 8), None);
    match m.command_handler(KafkaConsumerCmd::Unsubscribe("prices".to_string())) {
        ManagerAction::Stop { topic, task } => {
            assert_eq!(topic, "prices");
            assert_eq!(task, Some(7));
        }
        _ => panic!("unsubscribe stops"),
    }
    assert!(!m.has_task("prices"));
    assert!(m.has_task("trades"));
    assert_eq!(m.task_count(), 1);
}
