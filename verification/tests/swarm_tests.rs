use mdns_rr::events::{AppEvent, AppSwarmEvent, SwarmCommand};
use mdns_rr::swarm::{count_after, SwarmAction, SwarmInput, SwarmServer};

fn server() -> SwarmServer {
    SwarmServer::new("local".to_string())
}

fn received(content: &str) -> AppEvent {
    AppEvent::Swarm(AppSwarmEvent::MessageReceived { from: "local".to_string(), content: content.to_string() })
}

#[test]
fn discovery_records_peers_and_makes_them_explicit() {
    let mut s = server();
    let actions = s.handle_swarm_event(SwarmInput::Discovered {
        peers: vec![("p1".to_string(), "/ip4/1.1.1.1".to_string()), ("p2".to_string(), "/ip4/2.2.2.2".to_string())],
    });
    assert_eq!(
        actions,
        vec![
            SwarmAction::AddExplicitPeer { peer: "p1".to_string() },
            SwarmAction::AddExplicitPeer { peer: "p2".to_string() }
        ]
    );
    assert_eq!(s.peer_count(), 2);
    assert_eq!(s.peer_address("p2"), Some("/ip4/2.2.2.2".to_string()));
}

#[test]
fn expiry_forgets_and_reports() {
    let mut s = server();
    s.handle_swarm_event(SwarmInput::Discovered { peers: vec![("p1".to_string(), "a".to_string())] });
    let actions = s.handle_swarm_event(SwarmInput::Expired { peers: vec!["p1".to_string()] });
    assert_eq!(
        actions,
        vec![
            SwarmAction::RemoveExplicitPeer { peer: "p1".to_string() },
            SwarmAction::Emit {
                event: AppEvent::Swarm(AppSwarmEvent::PeerDisconnected { peer_id: "p1".to_string() })
            }
        ]
    );
    assert_eq!(s.peer_count(), 0);
}

#[test]
fn connections_update_peers() {
    let mut s = server();
    let actions = s.handle_swarm_event(SwarmInput::ConnectionEstablished {
        peer: "p".to_string(),
        address: "/ip4/9.9.9.9/tcp/1".to_string(),
    });
    assert!(actions.is_empty());
    assert_eq!(s.peer_address("p"), Some("/ip4/9.9.9.9/tcp/1".to_string()));
    let actions = s.handle_swarm_event(SwarmInput::ConnectionClosed { peer: "p".to_string() });
    assert_eq!(
        actions,
        vec![SwarmAction::Emit { event: AppEvent::Swarm(AppSwarmEvent::PeerDisconnected { peer_id: "p".to_string() }) }]
    );
    assert_eq!(s.peer_address("p"), None);
}

#[test]
fn requests_and_gossip_reach_the_bus() {
    let mut s = server();
    let actions = s.handle_swarm_event(SwarmInput::Request { content: "ping".to_string() });
    assert_eq!(actions, vec![SwarmAction::EmitCounted { event: received("ping") }, SwarmAction::RespondEmpty]);
    let actions = s.handle_swarm_event(SwarmInput::GossipMessage { data: "héllo".as_bytes().to_vec() });
    assert_eq!(
        actions,
        vec![
            SwarmAction::Count { key: "gossip_received".to_string() },
            SwarmAction::EmitCounted { event: received("héllo") }
        ]
    );
    let actions = s.handle_swarm_event(SwarmInput::GossipMessage { data: vec![0xff, 0xfe] });
    assert_eq!(actions, vec![SwarmAction::Count { key: "gossip_received".to_string() }]);
    for quiet in [
        SwarmInput::OtherRequestResponse,
        SwarmInput::Subscribed,
        SwarmInput::SlowPeer,
        SwarmInput::NewListenAddr,
        SwarmInput::Other,
    ] {
        assert!(s.handle_swarm_event(quiet).is_empty());
    }
}

#[test]
fn commands_become_swarm_actions() {
    let mut s = server();
    s.handle_swarm_event(SwarmInput::Discovered {
        peers: vec![("p1".to_string(), "a".to_string()), ("p2".to_string(), "b".to_string())],
    });
    assert_eq!(
        s.handle_command(&SwarmCommand::BroadcastRRMessage { content: "x".to_string() }),
        vec![
            SwarmAction::SendRequest { peer: "p1".to_string(), content: "x".to_string() },
            SwarmAction::SendRequest { peer: "p2".to_string(), content: "x".to_string() }
        ]
    );
    assert_eq!(
        s.handle_command(&SwarmCommand::BroadcastGossipMessage { content: "g".to_string() }),
        vec![SwarmAction::Publish { topic: "broadcast".to_string(), content: "g".to_string() }]
    );
    assert_eq!(
        s.handle_command(&SwarmCommand::PublishTopic { topic: "t".to_string(), content: "c".to_string() }),
        vec![SwarmAction::Publish { topic: "t".to_string(), content: "c".to_string() }]
    );
    assert_eq!(
        s.handle_command(&SwarmCommand::SubscribeTopic { topic: "t".to_string() }),
        vec![SwarmAction::Subscribe { topic: "t".to_string() }]
    );
    assert_eq!(
        s.handle_command(&SwarmCommand::SendRRMessage { to: "p1".to_string(), content: "c".to_string() }),
        vec![
            SwarmAction::SendRequest { peer: "p1".to_string(), content: "c".to_string() },
            SwarmAction::Emit {
                event: AppEvent::Swarm(AppSwarmEvent::MessageSent { to: "p1".to_string(), content: "c".to_string() })
            }
        ]
    );
    assert_eq!(
        s.handle_command(&SwarmCommand::ConnectToPeer { peer_id: "p3".to_string(), address: "/ip4/3.3.3.3".to_string() }),
        vec![SwarmAction::Dial { peer: "p3".to_string(), address: "/ip4/3.3.3.3".to_string() }]
    );
    assert_eq!(s.peer_count(), 2);
}

#[test]
fn disconnect_command_forgets_the_peer() {
    let mut s = server();
    s.handle_swarm_event(SwarmInput::Discovered {
        peers: vec![("p1".to_string(), "a".to_string()), ("p2".to_string(), "b".to_string())],
    });
    assert_eq!(
        s.handle_command(&SwarmCommand::DisconnectFromPeer { peer_id: "p1".to_string() }),
        vec![
            SwarmAction::Disconnect { peer: "p1".to_string() },
            SwarmAction::Emit { event: AppEvent::Swarm(AppSwarmEvent::PeerDisconnected { peer_id: "p1".to_string() }) }
        ]
    );
    assert_eq!(s.peer_address("p1"), None);
    assert_eq!(s.peer_address("p2"), Some("b".to_string()));
    assert_eq!(
        s.handle_command(&SwarmCommand::BroadcastRRMessage { content: "x".to_string() }),
        vec![SwarmAction::SendRequest { peer: "p2".to_string(), content: "x".to_string() }]
    );
}

#[test]
fn what_counts_after_an_action() {
    let publish = SwarmAction::Publish { topic: "t".to_string(), content: "c".to_string() };
    assert_eq!(count_after(&publish, true), Some("gossip_sent".to_string()));
    assert_eq!(count_after(&publish, false), None);
    let emit = SwarmAction::EmitCounted { event: received("x") };
    assert_eq!(count_after(&emit, true), Some("event_tx:MessageReceived".to_string()));
    assert_eq!(count_after(&SwarmAction::RespondEmpty, true), None);
}
