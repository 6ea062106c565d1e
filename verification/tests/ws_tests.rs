use mdns_rr::events::{AppEvent, AppSwarmEvent, KafkaConsumerEvent, WebSocketCommand, WebSocketEvent};
use mdns_rr::kafka::MarketData;
use mdns_rr::string_map::StringMap;
use mdns_rr::ws_server::{
    broadcast_failure_line, broadcast_failure_log, client_frame, deliveries_to_all, ClientFrame, Delivery,
    WebSocketServer, BROADCAST_FAILURE_LOG,
};
use tokio::sync::mpsc::{unbounded_channel, UnboundedSender};

fn disconnected(id: &str) -> WebSocketEvent {
    WebSocketEvent::ClientDisconnected { client_id: id.to_string() }
}

fn delivery(id: &str, text: &str) -> Delivery {
    Delivery { client_id: id.to_string(), text: text.to_string() }
}

/// Hands each delivery of the command to its channel and completes the command.
fn run(server: &mut WebSocketServer<UnboundedSender<String>>, command: WebSocketCommand) -> (Vec<Delivery>, Vec<bool>, mdns_rr::ws_server::CommandReport) {
    let deliveries = server.deliveries(&command);
    let delivered: Vec<bool> = deliveries
        .iter()
        .map(|d| server.sender(&d.client_id).map_or(false, |tx| tx.send(d.text.clone()).is_ok()))
        .collect();
    let report = server.complete_command(&command, &delivered);
    (deliveries, delivered, report)
}

#[test]
fn register_reports_connection() {
    let mut server = WebSocketServer::new();
    let (tx, _rx) = unbounded_channel::<String>();
    let event = server.register_client("127.0.0.1:1".to_string(), tx);
    assert_eq!(event, WebSocketEvent::ClientConnected { client_id: "127.0.0.1:1".to_string() });
    assert!(server.has_client("127.0.0.1:1"));
    assert!(server.sender("127.0.0.1:1").is_some());
    assert!(server.sender("127.0.0.1:2").is_none());
    assert_eq!(server.client_count(), 1);
}

#[test]
fn broadcast_hands_content_to_every_client() {
    let mut server: WebSocketServer<u8> = WebSocketServer::new();
    server.register_client("a".to_string(), 1);
    server.register_client("b".to_string(), 2);
    server.register_client("a".to_string(), 3);
    let command = WebSocketCommand::BroadcastToAll { content: "hello".to_string() };
    assert_eq!(server.deliveries(&command), vec![delivery("a", "hello"), delivery("b", "hello")]);
    assert_eq!(server.sender("a"), Some(&3));
}

#[test]
fn broadcast_drops_unreachable_clients() {
    let mut server = WebSocketServer::new();
    let (tx_a, mut rx_a) = unbounded_channel::<String>();
    let (tx_b, rx_b) = unbounded_channel::<String>();
    let (tx_c, mut rx_c) = unbounded_channel::<String>();
    server.register_client("a".to_string(), tx_a);
    server.register_client("b".to_string(), tx_b);
    server.register_client("c".to_string(), tx_c);
    drop(rx_b);
    let (deliveries, delivered, report) = run(&mut server, WebSocketCommand::BroadcastToAll { content: "hello".to_string() });
    assert_eq!(deliveries, vec![delivery("a", "hello"), delivery("b", "hello"), delivery("c", "hello")]);
    assert_eq!(delivered, vec![true, false, true]);
    assert_eq!(report.failed, vec!["b".to_string()]);
    assert_eq!(report.events, vec![disconnected("b")]);
    assert!(!server.has_client("b"));
    assert_eq!(server.client_count(), 2);
    assert_eq!(rx_a.try_recv().unwrap(), "hello");
    assert!(rx_a.try_recv().is_err());
    assert_eq!(rx_c.try_recv().unwrap(), "hello");
}

#[test]
fn send_to_one_client() {
    let mut server = WebSocketServer::new();
    let (tx, mut rx) = unbounded_channel::<String>();
    server.register_client("a".to_string(), tx);
    let (deliveries, _, report) =
        run(&mut server, WebSocketCommand::SendToClient { client_id: "a".to_string(), content: "x".to_string() });
    assert_eq!(deliveries, vec![delivery("a", "x")]);
    assert!(report.events.is_empty() && report.failed.is_empty());
    assert_eq!(rx.try_recv().unwrap(), "x");
    let (deliveries, _, report) =
        run(&mut server, WebSocketCommand::SendToClient { client_id: "zz".to_string(), content: "x".to_string() });
    assert!(deliveries.is_empty());
    assert!(report.events.is_empty());
    assert!(server.has_client("a"));
    drop(rx);
    let (_, delivered, report) =
        run(&mut server, WebSocketCommand::SendToClient { client_id: "a".to_string(), content: "y".to_string() });
    assert_eq!(delivered, vec![false]);
    assert!(report.events.is_empty() && report.failed.is_empty());
    assert!(!server.has_client("a"));
}

#[test]
fn disconnect_reports_only_known_clients() {
    let mut server = WebSocketServer::new();
    let (tx, _rx) = unbounded_channel::<String>();
    server.register_client("a".to_string(), tx);
    let (deliveries, _, report) = run(&mut server, WebSocketCommand::DisconnectClient { client_id: "a".to_string() });
    assert!(deliveries.is_empty());
    assert_eq!(report.events, vec![disconnected("a")]);
    assert!(!server.has_client("a"));
    let (_, _, report) = run(&mut server, WebSocketCommand::DisconnectClient { client_id: "a".to_string() });
    assert!(report.events.is_empty());
}

#[test]
fn bus_messages_are_relayed() {
    let server: WebSocketServer<u8> = WebSocketServer::new();
    let r = server.handle_app_event(AppEvent::Swarm(AppSwarmEvent::MessageReceived {
        from: "p".to_string(),
        content: "from swarm".to_string(),
    }));
    assert!(r.count_rx);
    assert_eq!(r.relay, Some(WebSocketCommand::BroadcastToAll { content: "from swarm".to_string() }));
    let r = server.handle_app_event(AppEvent::KafkaConsumer(KafkaConsumerEvent::MessageReceived {
        topic: "t".to_string(),
        content: "from kafka".to_string(),
    }));
    assert!(!r.count_rx);
    assert_eq!(r.relay, Some(WebSocketCommand::BroadcastToAll { content: "from kafka".to_string() }));
    let r = server.handle_app_event(AppEvent::Swarm(AppSwarmEvent::PeerDisconnected { peer_id: "p".to_string() }));
    assert!(!r.count_rx);
    assert!(r.relay.is_none());
}

#[test]
fn client_frames() {
    let id = "1.2.3.4:5".to_string();
    let r = client_frame(&id, ClientFrame::Text("hi".to_string()));
    assert!(!r.stop);
    assert_eq!(r.event, Some(WebSocketEvent::MessageFromClient { client_id: id.clone(), content: "hi".to_string() }));
    let r = client_frame(&id, ClientFrame::Close);
    assert!(r.stop);
    assert_eq!(r.event, Some(disconnected("1.2.3.4:5")));
    let r = client_frame(&id, ClientFrame::Ended);
    assert!(r.stop && r.event.is_some());
    let r = client_frame(&id, ClientFrame::Error);
    assert!(r.stop && r.event.is_none());
    let r = client_frame(&id, ClientFrame::Other);
    assert!(!r.stop && r.event.is_none());
}

#[test]
fn failure_records() {
    let data = MarketData { client_id: "x".to_string(), round: 3, c: -4, ts: Some(1700000000123), content: None };
    assert_eq!(broadcast_failure_line("1.2.3.4:5", &data), "1.2.3.4:5,3,-4,1700000000123\n");
    let data = MarketData { ts: None, ..data };
    assert_eq!(broadcast_failure_line("c", &data), "c,3,-4,0\n");
    assert_eq!(BROADCAST_FAILURE_LOG, "logs/ws-fail-123.csv");
}

#[test]
fn failure_log_has_a_line_per_failed_client() {
    let data = MarketData { client_id: "x".to_string(), round: 1, c: 2, ts: Some(5), content: None };
    assert_eq!(broadcast_failure_log(&vec!["a".to_string(), "b".to_string()], &data), "a,1,2,5\nb,1,2,5\n");
    assert_eq!(broadcast_failure_log(&vec![], &data), "");
}

#[test]
fn console_broadcast_reaches_live_clients() {
    let mut clients = StringMap::new();
    let (tx_a, _rx_a) = unbounded_channel::<String>();
    let (tx_b, _rx_b) = unbounded_channel::<String>();
    clients.insert("a".to_string(), tx_a);
    clients.insert("b".to_string(), tx_b);
    assert_eq!(deliveries_to_all(&clients, &"m".to_string()), vec![delivery("a", "m"), delivery("b", "m")]);
    assert_eq!(clients.len(), 2);
}
