use mdns_rr::command::{
    handle_cmd, try_handle_cmd, CommandOutcome, CommandRequest, HELP_TEXT, SUCCESS_REPLY,
    UNKNOWN_COMMAND_REPLY,
};
use mdns_rr::events::{KafkaConsumerCmd, SwarmCommand, WebSocketCommand};
use mdns_rr::string_map::StringMap;

fn request(command: &str, args: &[(&str, &str)]) -> CommandRequest {
    let mut m = StringMap::new();
    for (k, v) in args {
        m.insert(k.to_string(), v.to_string());
    }
    CommandRequest { command: command.to_string(), args: Some(m) }
}

fn reply(text: &str) -> CommandOutcome {
    CommandOutcome::Reply(text.to_string())
}

#[test]
fn swarm_commands_go_to_the_swarm() {
    let peer = libp2p::PeerId::random().to_string();
    assert_eq!(
        handle_cmd(&request("swarm_send", &[("peer_id", &peer), ("content", "hi")])),
        CommandOutcome::Swarm(SwarmCommand::SendRRMessage { to: peer.clone(), content: "hi".to_string() })
    );
    assert_eq!(
        handle_cmd(&request("swarm_broadcast", &[("content", "all")])),
        CommandOutcome::Swarm(SwarmCommand::BroadcastGossipMessage { content: "all".to_string() })
    );
    assert_eq!(
        handle_cmd(&request("swarm_publish", &[("topic", "t"), ("content", "c")])),
        CommandOutcome::Swarm(SwarmCommand::PublishTopic { topic: "t".to_string(), content: "c".to_string() })
    );
    assert_eq!(
        handle_cmd(&request("swarm_subscribe", &[("topic", "t")])),
        CommandOutcome::Swarm(SwarmCommand::SubscribeTopic { topic: "t".to_string() })
    );
    assert_eq!(
        handle_cmd(&request("swarm_connect", &[("peer_id", &peer), ("address", "/ip4/1.2.3.4/tcp/1")])),
        CommandOutcome::Swarm(SwarmCommand::ConnectToPeer {
            peer_id: peer.clone(),
            address: "/ip4/1.2.3.4/tcp/1".to_string()
        })
    );
    assert_eq!(
        handle_cmd(&request("swarm_disconnect", &[("peer_id", &peer)])),
        CommandOutcome::Swarm(SwarmCommand::DisconnectFromPeer { peer_id: peer.clone() })
    );
    assert_eq!(handle_cmd(&request("swarm_stats", &[])), CommandOutcome::SwarmStats);
}

#[test]
fn missing_arguments_are_answered() {
    assert_eq!(
        handle_cmd(&request("swarm_send", &[("content", "hi")])),
        reply("Missing required parameters: peer_id and content")
    );
    assert_eq!(handle_cmd(&request("swarm_broadcast", &[])), reply("Missing required parameter: content"));
    assert_eq!(
        handle_cmd(&request("swarm_publish", &[("topic", "t")])),
        reply("Missing required parameters: topic and content")
    );
    assert_eq!(handle_cmd(&request("swarm_subscribe", &[])), reply("Missing required parameter: topic"));
    assert_eq!(
        handle_cmd(&request("swarm_connect", &[("address", "a")])),
        reply("Missing required parameters: peer_id and address")
    );
    assert_eq!(handle_cmd(&request("swarm_disconnect", &[])), reply("Missing required parameter: peer_id"));
    assert_eq!(
        handle_cmd(&request("ws_send", &[("client_id", "x")])),
        reply("Missing required parameters: client_id and content")
    );
    assert_eq!(handle_cmd(&request("ws_broadcast", &[])), reply("Missing required parameter: content"));
}

#[test]
fn websocket_and_kafka_commands() {
    assert_eq!(
        handle_cmd(&request("ws_send", &[("client_id", "1.2.3.4:5"), ("content", "x")])),
        CommandOutcome::WebSocket(WebSocketCommand::SendToClient {
            client_id: "1.2.3.4:5".to_string(),
            content: "x".to_string()
        })
    );
    assert_eq!(
        handle_cmd(&request("ws_broadcast", &[("content", "x")])),
        CommandOutcome::WebSocket(WebSocketCommand::BroadcastToAll { content: "x".to_string() })
    );
    assert_eq!(
        handle_cmd(&request("ws_disconnect", &[("client_id", "c")])),
        CommandOutcome::WebSocket(WebSocketCommand::DisconnectClient { client_id: "c".to_string() })
    );
    assert_eq!(handle_cmd(&request("ws_stats", &[])), CommandOutcome::WebSocketStats);
    assert_eq!(
        handle_cmd(&request("kafka_subscribe", &[("topic", "prices")])),
        CommandOutcome::Kafka(KafkaConsumerCmd::Subscribe("prices".to_string()))
    );
    assert_eq!(
        handle_cmd(&request("kafka_unsubscribe", &[("topic", "prices")])),
        CommandOutcome::Kafka(KafkaConsumerCmd::Unsubscribe("prices".to_string()))
    );
}

#[test]
fn help_and_unknown_commands() {
    let help = handle_cmd(&request("h", &[]));
    assert_eq!(help, reply(HELP_TEXT));
    assert!(HELP_TEXT.starts_with("Available commands:\n\nSwarm Commands:\n- swarm_send:"));
    assert!(HELP_TEXT.ends_with("Other:\n- h: Show this help message"));
    assert_eq!(handle_cmd(&request("nope", &[])), reply(UNKNOWN_COMMAND_REPLY));
    assert!(UNKNOWN_COMMAND_REPLY.ends_with("ws_disconnect, kafka_subscribe, kafka_unsubscribe"));
    let no_args = CommandRequest { command: "swarm_broadcast".to_string(), args: None };
    assert_eq!(handle_cmd(&no_args), reply("Missing required parameter: content"));
    assert_eq!(SUCCESS_REPLY, "Command executed successfully");
}

#[test]
fn refused_requests_give_none() {
    assert_eq!(try_handle_cmd(&request("swarm_send", &[("peer_id", "not-a-peer"), ("content", "x")])), None);
    assert_eq!(try_handle_cmd(&request("swarm_connect", &[("peer_id", "zz"), ("address", "a")])), None);
    assert_eq!(try_handle_cmd(&request("swarm_disconnect", &[("peer_id", "")])), None);
    assert_eq!(try_handle_cmd(&request("ws_disconnect", &[])), None);
    assert_eq!(try_handle_cmd(&request("kafka_subscribe", &[])), None);
    assert_eq!(try_handle_cmd(&request("kafka_unsubscribe", &[])), None);
    let peer = libp2p::PeerId::random().to_string();
    assert_eq!(
        try_handle_cmd(&request("swarm_disconnect", &[("peer_id", &peer)])),
        Some(CommandOutcome::Swarm(SwarmCommand::DisconnectFromPeer { peer_id: peer }))
    );
    assert_eq!(
        try_handle_cmd(&request("swarm_send", &[("peer_id", "bad")])),
        Some(reply("Missing required parameters: peer_id and content"))
    );
    assert_eq!(try_handle_cmd(&request("h", &[])), Some(reply(HELP_TEXT)));
}
