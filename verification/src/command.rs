//! The command language of the node's HTTP endpoint (`POST /commands`): which
//! command goes to which service, and what the caller is answered.
use vstd::prelude::*;

use libp2p::PeerId;
use std::str::FromStr;

use crate::events::{
    KafkaConsumerCmd, KafkaConsumerCmdView, SwarmCommand, SwarmCommandView, WebSocketCommand,
    WebSocketCommandView,
};
use crate::string_map::{has_key, lookup, StringMap};
use crate::text::owned;

verus! {

/// Whether `PeerId::from_str` accepts the text (base58 of a multihash that is a valid peer id).
pub uninterp spec fn peer_id_parses(text: Seq<char>) -> bool;

/// Whether `libp2p::PeerId::from_str` accepts `text`.
#[verifier::external_body]
fn peer_id_is_valid(text: &str) -> (valid: bool)
    ensures
        valid == peer_id_parses(text@),
{
    PeerId::from_str(text).is_ok()
}

/// Answer to a command that was handed to its service.
pub const SUCCESS_REPLY: &'static str = "Command executed successfully";

/// Answer to the command `h`.
pub const HELP_TEXT: &'static str = "Available commands:\n\nSwarm Commands:\n- swarm_send: Send message to specific peer (args: peer_id, content)\n- swarm_broadcast: Broadcast message to all peers (args: content)\n- swarm_publish: Publish message to topic (args: topic, content)\n- swarm_subscribe: Subscribe to topic (args: topic)\n- swarm_connect: Connect to peer (args: peer_id, address)\n- swarm_disconnect: Disconnect from peer (args: peer_id)\n\nWebSocket Commands:\n- ws_send: Send message to specific client (args: client_id, content)\n- ws_broadcast: Broadcast message to all WebSocket clients (args: content)\n- ws_disconnect: Disconnect WebSocket client (args: client_id)\n\nKafka Commands:\n- kafka_subscribe: Subscribe to Kafka topic (args: topic)\n- kafka_unsubscribe: Unsubscribe from Kafka topic (args: topic)\n\nOther:\n- h: Show this help message";

/// Answer to a command that is not known.
pub const UNKNOWN_COMMAND_REPLY: &'static str = "Unknown command, available commands are: swarm_send, swarm_broadcast, swarm_publish, swarm_subscribe, swarm_connect, swarm_disconnect, ws_send, ws_broadcast, ws_disconnect, kafka_subscribe, kafka_unsubscribe";

/// A request to the command endpoint: a command name and its named arguments.
pub struct CommandRequest {
    pub command: String,
    pub args: Option<StringMap<String>>,
}

/// What a command comes to.
#[derive(Debug, Clone, PartialEq, Eq)]
pub enum CommandOutcome {
    /// Answer the caller with this text; nothing is sent.
    Reply(String),
    /// Hand the command to the swarm, then answer `SUCCESS_REPLY`.
    Swarm(SwarmCommand),
    /// Hand the command to the WebSocket server, then answer `SUCCESS_REPLY`.
    WebSocket(WebSocketCommand),
    /// Hand the command to the Kafka consumer manager, then answer `SUCCESS_REPLY`.
    Kafka(KafkaConsumerCmd),
    /// Answer with the swarm's statistics as JSON.
    SwarmStats,
    /// Answer with the WebSocket server's statistics as JSON.
    WebSocketStats,
}

/// The model of `CommandOutcome`, with text as `Seq<char>`.
pub enum CommandOutcomeView {
    Reply(Seq<char>),
    Swarm(SwarmCommandView),
    WebSocket(WebSocketCommandView),
    Kafka(KafkaConsumerCmdView),
    SwarmStats,
    WebSocketStats,
}

impl View for CommandOutcome {
    type V = CommandOutcomeView;

    open spec fn view(&self) -> CommandOutcomeView {
        match self {
            CommandOutcome::Reply(text) => CommandOutcomeView::Reply(text@),
            CommandOutcome::Swarm(c) => CommandOutcomeView::Swarm(c@),
            CommandOutcome::WebSocket(c) => CommandOutcomeView::WebSocket(c@),
            CommandOutcome::Kafka(c) => CommandOutcomeView::Kafka(c@),
            CommandOutcome::SwarmStats => CommandOutcomeView::SwarmStats,
            CommandOutcome::WebSocketStats => CommandOutcomeView::WebSocketStats,
        }
    }
}

/// The arguments of a request; absent arguments count as none.
pub open spec fn request_args(cmd: &CommandRequest) -> Seq<(Seq<char>, String)> {
    match cmd.args {
        Some(m) => m@,
        None => Seq::empty(),
    }
}

/// The text of argument `name` (meaningful when it is present).
pub open spec fn arg(args: Seq<(Seq<char>, String)>, name: Seq<char>) -> Seq<char> {
    lookup(args, name).unwrap()@
}

/// What the command `cmd` with arguments `args` comes to.
pub open spec fn command_plan(cmd: Seq<char>, args: Seq<(Seq<char>, String)>) -> CommandOutcomeView {
    if cmd == "swarm_send"@ {
        if has_key(args, "peer_id"@) && has_key(args, "content"@) {
            CommandOutcomeView::Swarm(
                SwarmCommandView::SendRRMessage {
                    to: arg(args, "peer_id"@),
                    content: arg(args, "content"@),
                },
            )
        } else {
            CommandOutcomeView::Reply("Missing required parameters: peer_id and content"@)
        }
    } else if cmd == "swarm_broadcast"@ {
        if has_key(args, "content"@) {
            CommandOutcomeView::Swarm(
                SwarmCommandView::BroadcastGossipMessage { content: arg(args, "content"@) },
            )
        } else {
            CommandOutcomeView::Reply("Missing required parameter: content"@)
        }
    } else if cmd == "swarm_publish"@ {
        if has_key(args, "topic"@) && has_key(args, "content"@) {
            CommandOutcomeView::Swarm(
                SwarmCommandView::PublishTopic {
                    topic: arg(args, "topic"@),
                    content: arg(args, "content"@),
                },
            )
        } else {
            CommandOutcomeView::Reply("Missing required parameters: topic and content"@)
        }
    } else if cmd == "swarm_subscribe"@ {
        if has_key(args, "topic"@) {
            CommandOutcomeView::Swarm(SwarmCommandView::SubscribeTopic { topic: arg(args, "topic"@) })
        } else {
            CommandOutcomeView::Reply("Missing required parameter: topic"@)
        }
    } else if cmd == "swarm_connect"@ {
        if has_key(args, "peer_id"@) && has_key(args, "address"@) {
            CommandOutcomeView::Swarm(
                SwarmCommandView::ConnectToPeer {
                    peer_id: arg(args, "peer_id"@),
                    address: arg(args, "address"@),
                },
            )
        } else {
            CommandOutcomeView::Reply("Missing required parameters: peer_id and address"@)
        }
    } else if cmd == "swarm_disconnect"@ {
        if has_key(args, "peer_id"@) {
            CommandOutcomeView::Swarm(
                SwarmCommandView::DisconnectFromPeer { peer_id: arg(args, "peer_id"@) },
            )
        } else {
            CommandOutcomeView::Reply("Missing required parameter: peer_id"@)
        }
    } else if cmd == "swarm_stats"@ {
        CommandOutcomeView::SwarmStats
    } else if cmd == "ws_send"@ {
        if has_key(args, "client_id"@) && has_key(args, "content"@) {
            CommandOutcomeView::WebSocket(
                WebSocketCommandView::SendToClient {
                    client_id: arg(args, "client_id"@),
                    content: arg(args, "content"@),
                },
            )
        } else {
            CommandOutcomeView::Reply("Missing required parameters: client_id and content"@)
        }
    } else if cmd == "ws_broadcast"@ {
        if has_key(args, "content"@) {
            CommandOutcomeView::WebSocket(
                WebSocketCommandView::BroadcastToAll { content: arg(args, "content"@) },
            )
        } else {
            CommandOutcomeView::Reply("Missing required parameter: content"@)
        }
    } else if cmd == "ws_disconnect"@ {
        CommandOutcomeView::WebSocket(
            WebSocketCommandView::DisconnectClient { client_id: arg(args, "client_id"@) },
        )
    } else if cmd == "ws_stats"@ {
        CommandOutcomeView::WebSocketStats
    } else if cmd == "kafka_subscribe"@ {
        CommandOutcomeView::Kafka(KafkaConsumerCmdView::Subscribe(arg(args, "topic"@)))
    } else if cmd == "kafka_unsubscribe"@ {
        CommandOutcomeView::Kafka(KafkaConsumerCmdView::Unsubscribe(arg(args, "topic"@)))
    } else if cmd == "h"@ {
        CommandOutcomeView::Reply(HELP_TEXT@)
    } else {
        CommandOutcomeView::Reply(UNKNOWN_COMMAND_REPLY@)
    }
}

/// The requests that the endpoint serves: a peer id that the command uses must be one,
/// and `ws_disconnect`, `kafka_subscribe` and `kafka_unsubscribe` need their argument.
pub open spec fn command_accepted(cmd: Seq<char>, args: Seq<(Seq<char>, String)>) -> bool {
    &&& (cmd == "swarm_send"@ && has_key(args, "peer_id"@) && has_key(args, "content"@))
        ==> peer_id_parses(arg(args, "peer_id"@))
    &&& (cmd == "swarm_connect"@ && has_key(args, "peer_id"@) && has_key(args, "address"@))
        ==> peer_id_parses(arg(args, "peer_id"@))
    &&& (cmd == "swarm_disconnect"@ && has_key(args, "peer_id"@)) ==> peer_id_parses(
        arg(args, "peer_id"@),
    )
    &&& cmd == "ws_disconnect"@ ==> has_key(args, "client_id"@)
    &&& (cmd == "kafka_subscribe"@ || cmd == "kafka_unsubscribe"@) ==> has_key(args, "topic"@)
}

fn text_is(s: &String, literal: &str) -> (b: bool)
    ensures
        b == (s@ == literal@),
{
    *s == owned(literal)
}

fn arg_text(args: &StringMap<String>, name: &str) -> (v: String)
    requires
        has_key(args@, name@),
    ensures
        v@ == arg(args@, name@),
{
    match args.get(name) {
        Some(v) => v.clone(),
        None => String::new(),
    }
}

/// Decides what a request to the command endpoint comes to.
pub fn handle_cmd(cmd: &CommandRequest) -> (out: CommandOutcome)
    requires
        command_accepted(cmd.command@, request_args(cmd)),
    ensures
        out@ == command_plan(cmd.command@, request_args(cmd)),
{
    let empty: StringMap<String> = StringMap::new();
    let args: &StringMap<String> = match &cmd.args {
        Some(m) => m,
        None => &empty,
    };
    assert(args@ == request_args(cmd));
    let c = &cmd.command;
    if text_is(c, "swarm_send") {
        if args.contains_key("peer_id") && args.contains_key("content") {
            CommandOutcome::Swarm(
                SwarmCommand::SendRRMessage {
                    to: arg_text(args, "peer_id"),
                    content: arg_text(args, "content"),
                },
            )
        } else {
            CommandOutcome::Reply(owned("Missing required parameters: peer_id and content"))
        }
    } else if text_is(c, "swarm_broadcast") {
        if args.contains_key("content") {
            CommandOutcome::Swarm(
                SwarmCommand::BroadcastGossipMessage { content: arg_text(args, "content") },
            )
        } else {
            CommandOutcome::Reply(owned("Missing required parameter: content"))
        }
    } else if text_is(c, "swarm_publish") {
        if args.contains_key("topic") && args.contains_key("content") {
            CommandOutcome::Swarm(
                SwarmCommand::PublishTopic {
                    topic: arg_text(args, "topic"),
                    content: arg_text(args, "content"),
                },
            )
        } else {
            CommandOutcome::Reply(owned("Missing required parameters: topic and content"))
        }
    } else if text_is(c, "swarm_subscribe") {
        if args.contains_key("topic") {
            CommandOutcome::Swarm(SwarmCommand::SubscribeTopic { topic: arg_text(args, "topic") })
        } else {
            CommandOutcome::Reply(owned("Missing required parameter: topic"))
        }
    } else if text_is(c, "swarm_connect") {
        if args.contains_key("peer_id") && args.contains_key("address") {
            CommandOutcome::Swarm(
                SwarmCommand::ConnectToPeer {
                    peer_id: arg_text(args, "peer_id"),
                    address: arg_text(args, "address"),
                },
            )
        } else {
            CommandOutcome::Reply(owned("Missing required parameters: peer_id and address"))
        }
    } else if text_is(c, "swarm_disconnect") {
        if args.contains_key("peer_id") {
            CommandOutcome::Swarm(
                SwarmCommand::DisconnectFromPeer { peer_id: arg_text(args, "peer_id") },
            )
        } else {
            CommandOutcome::Reply(owned("Missing required parameter: peer_id"))
        }
    } else if text_is(c, "swarm_stats") {
        CommandOutcome::SwarmStats
    } else if text_is(c, "ws_send") {
        if args.contains_key("client_id") && args.contains_key("content") {
            CommandOutcome::WebSocket(
                WebSocketCommand::SendToClient {
                    client_id: arg_text(args, "client_id"),
                    content: arg_text(args, "content"),
                },
            )
        } else {
            CommandOutcome::Reply(owned("Missing required parameters: client_id and content"))
        }
    } else if text_is(c, "ws_broadcast") {
        if args.contains_key("content") {
            CommandOutcome::WebSocket(
                WebSocketCommand::BroadcastToAll { content: arg_text(args, "content") },
            )
        } else {
            CommandOutcome::Reply(owned("Missing required parameter: content"))
        }
    } else if text_is(c, "ws_disconnect") {
        CommandOutcome::WebSocket(
            WebSocketCommand::DisconnectClient { client_id: arg_text(args, "client_id") },
        )
    } else if text_is(c, "ws_stats") {
        CommandOutcome::WebSocketStats
    } else if text_is(c, "kafka_subscribe") {
        CommandOutcome::Kafka(KafkaConsumerCmd::Subscribe(arg_text(args, "topic")))
    } else if text_is(c, "kafka_unsubscribe") {
        CommandOutcome::Kafka(KafkaConsumerCmd::Unsubscribe(arg_text(args, "topic")))
    } else if text_is(c, "h") {
        CommandOutcome::Reply(owned(HELP_TEXT))
    } else {
        CommandOutcome::Reply(owned(UNKNOWN_COMMAND_REPLY))
    }
}

/// Serves a request as `handle_cmd` does where the endpoint accepts it, and gives `None`
/// for a request that the endpoint refuses (see `command_accepted`).
pub fn try_handle_cmd(cmd: &CommandRequest) -> (out: Option<CommandOutcome>)
    ensures
        out is None <==> !command_accepted(cmd.command@, request_args(cmd)),
        out matches Some(o) ==> o@ == command_plan(cmd.command@, request_args(cmd)),
{
    let empty: StringMap<String> = StringMap::new();
    let args: &StringMap<String> = match &cmd.args {
        Some(m) => m,
        None => &empty,
    };
    assert(args@ == request_args(cmd));
    let c = &cmd.command;
    proof {
        reveal_strlit("swarm_send");
        reveal_strlit("swarm_connect");
        reveal_strlit("swarm_disconnect");
        reveal_strlit("ws_disconnect");
        reveal_strlit("kafka_subscribe");
        reveal_strlit("kafka_unsubscribe");
        assert("swarm_connect"@[0] != "ws_disconnect"@[0]);
        assert("swarm_connect"@ != "ws_disconnect"@);
    }
    let ghost a = args@;
    let ghost cv = c@;
    let accepted = if text_is(c, "swarm_send") {
        assert(cv.len() == 10);
        assert(cv != "swarm_connect"@ && cv != "swarm_disconnect"@ && cv != "ws_disconnect"@);
        assert(cv != "kafka_subscribe"@ && cv != "kafka_unsubscribe"@);
        if args.contains_key("peer_id") && args.contains_key("content") {
            peer_id_is_valid(arg_text(args, "peer_id").as_str())
        } else {
            true
        }
    } else if text_is(c, "swarm_connect") {
        assert(cv.len() == 13 && cv[0] == 's');
        assert(cv != "swarm_disconnect"@ && cv != "ws_disconnect"@);
        assert(cv != "kafka_subscribe"@ && cv != "kafka_unsubscribe"@);
        if args.contains_key("peer_id") && args.contains_key("address") {
            peer_id_is_valid(arg_text(args, "peer_id").as_str())
        } else {
            true
        }
    } else if text_is(c, "swarm_disconnect") {
        assert(cv.len() == 16);
        assert(cv != "ws_disconnect"@);
        assert(cv != "kafka_subscribe"@ && cv != "kafka_unsubscribe"@);
        if args.contains_key("peer_id") {
            peer_id_is_valid(arg_text(args, "peer_id").as_str())
        } else {
            true
        }
    } else if text_is(c, "ws_disconnect") {
        assert(cv.len() == 13);
        assert(cv != "kafka_subscribe"@ && cv != "kafka_unsubscribe"@);
        args.contains_key("client_id")
    } else if text_is(c, "kafka_subscribe") || text_is(c, "kafka_unsubscribe") {
        args.contains_key("topic")
    } else {
        true
    };
    assert(accepted == command_accepted(cmd.command@, request_args(cmd)));
    if accepted {
        Some(handle_cmd(cmd))
    } else {
        None
    }
}


/// The WebSocket commands: `ws_send` hands the server a message for exactly the named
/// client, `ws_broadcast` a message for every client, `ws_disconnect` the named client to
/// drop, each with the arguments as given; `ws_send` and `ws_broadcast` without their
/// arguments hand nothing on and tell the caller what is missing.
pub proof fn law_websocket_commands(args: Seq<(Seq<char>, String)>)
    ensures
        has_key(args, "client_id"@) && has_key(args, "content"@) ==> command_plan("ws_send"@, args)
            == CommandOutcomeView::WebSocket(
            WebSocketCommandView::SendToClient {
                client_id: lookup(args, "client_id"@).unwrap()@,
                content: lookup(args, "content"@).unwrap()@,
            },
        ),
        !(has_key(args, "client_id"@) && has_key(args, "content"@)) ==> command_plan("ws_send"@, args)
            == CommandOutcomeView::Reply("Missing required parameters: client_id and content"@),
        has_key(args, "content"@) ==> command_plan("ws_broadcast"@, args) == CommandOutcomeView::WebSocket(
            WebSocketCommandView::BroadcastToAll { content: lookup(args, "content"@).unwrap()@ },
        ),
        !has_key(args, "content"@) ==> command_plan("ws_broadcast"@, args) == CommandOutcomeView::Reply(
            "Missing required parameter: content"@,
        ),
        has_key(args, "client_id"@) ==> command_plan("ws_disconnect"@, args) == CommandOutcomeView::WebSocket(
            WebSocketCommandView::DisconnectClient { client_id: lookup(args, "client_id"@).unwrap()@ },
        ),
        command_plan("ws_stats"@, args) == CommandOutcomeView::WebSocketStats,
{
        lemma_command_names_distinct();
}

/// The swarm commands: each hands the swarm exactly the command it names, with the
/// arguments as given, or, without them, hands nothing on and tells the caller what is
/// missing.
pub proof fn law_swarm_commands(args: Seq<(Seq<char>, String)>)
    ensures
        has_key(args, "peer_id"@) && has_key(args, "content"@) ==> command_plan("swarm_send"@, args)
            == CommandOutcomeView::Swarm(
            SwarmCommandView::SendRRMessage {
                to: lookup(args, "peer_id"@).unwrap()@,
                content: lookup(args, "content"@).unwrap()@,
            },
        ),
        !(has_key(args, "peer_id"@) && has_key(args, "content"@)) ==> command_plan("swarm_send"@, args)
            == CommandOutcomeView::Reply("Missing required parameters: peer_id and content"@),
        has_key(args, "content"@) ==> command_plan("swarm_broadcast"@, args) == CommandOutcomeView::Swarm(
            SwarmCommandView::BroadcastGossipMessage { content: lookup(args, "content"@).unwrap()@ },
        ),
        !has_key(args, "content"@) ==> command_plan("swarm_broadcast"@, args) == CommandOutcomeView::Reply(
            "Missing required parameter: content"@,
        ),
        has_key(args, "topic"@) && has_key(args, "content"@) ==> command_plan("swarm_publish"@, args)
            == CommandOutcomeView::Swarm(
            SwarmCommandView::PublishTopic {
                topic: lookup(args, "topic"@).unwrap()@,
                content: lookup(args, "content"@).unwrap()@,
            },
        ),
        !(has_key(args, "topic"@) && has_key(args, "content"@)) ==> command_plan("swarm_publish"@, args)
            == CommandOutcomeView::Reply("Missing required parameters: topic and content"@),
        has_key(args, "topic"@) ==> command_plan("swarm_subscribe"@, args) == CommandOutcomeView::Swarm(
            SwarmCommandView::SubscribeTopic { topic: lookup(args, "topic"@).unwrap()@ },
        ),
        !has_key(args, "topic"@) ==> command_plan("swarm_subscribe"@, args) == CommandOutcomeView::Reply(
            "Missing required parameter: topic"@,
        ),
        has_key(args, "peer_id"@) && has_key(args, "address"@) ==> command_plan("swarm_connect"@, args)
            == CommandOutcomeView::Swarm(
            SwarmCommandView::ConnectToPeer {
                peer_id: lookup(args, "peer_id"@).unwrap()@,
                address: lookup(args, "address"@).unwrap()@,
            },
        ),
        !(has_key(args, "peer_id"@) && has_key(args, "address"@)) ==> command_plan("swarm_connect"@, args)
            == CommandOutcomeView::Reply("Missing required parameters: peer_id and address"@),
        has_key(args, "peer_id"@) ==> command_plan("swarm_disconnect"@, args) == CommandOutcomeView::Swarm(
            SwarmCommandView::DisconnectFromPeer { peer_id: lookup(args, "peer_id"@).unwrap()@ },
        ),
        !has_key(args, "peer_id"@) ==> command_plan("swarm_disconnect"@, args) == CommandOutcomeView::Reply(
            "Missing required parameter: peer_id"@,
        ),
        command_plan("swarm_stats"@, args) == CommandOutcomeView::SwarmStats,
{
        lemma_command_names_distinct();
}

/// The Kafka commands hand the consumer manager the named topic to subscribe to or to
/// unsubscribe from; `h` answers the help text; any other command name answers the list
/// of commands and hands nothing on.
pub proof fn law_kafka_and_other_commands(cmd: Seq<char>, args: Seq<(Seq<char>, String)>)
    ensures
        has_key(args, "topic"@) ==> command_plan("kafka_subscribe"@, args) == CommandOutcomeView::Kafka(
            KafkaConsumerCmdView::Subscribe(lookup(args, "topic"@).unwrap()@),
        ),
        has_key(args, "topic"@) ==> command_plan("kafka_unsubscribe"@, args) == CommandOutcomeView::Kafka(
            KafkaConsumerCmdView::Unsubscribe(lookup(args, "topic"@).unwrap()@),
        ),
        command_plan("h"@, args) == CommandOutcomeView::Reply(HELP_TEXT@),
        !(seq!["swarm_send"@, "swarm_broadcast"@, "swarm_publish"@, "swarm_subscribe"@, "swarm_connect"@, "swarm_disconnect"@, "swarm_stats"@, "ws_send"@, "ws_broadcast"@, "ws_disconnect"@, "ws_stats"@, "kafka_subscribe"@, "kafka_unsubscribe"@, "h"@].contains(cmd)) ==> command_plan(cmd, args) == CommandOutcomeView::Reply(
            UNKNOWN_COMMAND_REPLY@,
        ),
{
        lemma_command_names_distinct();
    if !(seq!["swarm_send"@, "swarm_broadcast"@, "swarm_publish"@, "swarm_subscribe"@, "swarm_connect"@, "swarm_disconnect"@, "swarm_stats"@, "ws_send"@, "ws_broadcast"@, "ws_disconnect"@, "ws_stats"@, "kafka_subscribe"@, "kafka_unsubscribe"@, "h"@].contains(cmd)) {
        assert(seq!["swarm_send"@, "swarm_broadcast"@, "swarm_publish"@, "swarm_subscribe"@, "swarm_connect"@, "swarm_disconnect"@, "swarm_stats"@, "ws_send"@, "ws_broadcast"@, "ws_disconnect"@, "ws_stats"@, "kafka_subscribe"@, "kafka_unsubscribe"@, "h"@][0] == "swarm_send"@);
        assert(seq!["swarm_send"@, "swarm_broadcast"@, "swarm_publish"@, "swarm_subscribe"@, "swarm_connect"@, "swarm_disconnect"@, "swarm_stats"@, "ws_send"@, "ws_broadcast"@, "ws_disconnect"@, "ws_stats"@, "kafka_subscribe"@, "kafka_unsubscribe"@, "h"@][1] == "swarm_broadcast"@);
        assert(seq!["swarm_send"@, "swarm_broadcast"@, "swarm_publish"@, "swarm_subscribe"@, "swarm_connect"@, "swarm_disconnect"@, "swarm_stats"@, "ws_send"@, "ws_broadcast"@, "ws_disconnect"@, "ws_stats"@, "kafka_subscribe"@, "kafka_unsubscribe"@, "h"@][2] == "swarm_publish"@);
        assert(seq!["swarm_send"@, "swarm_broadcast"@, "swarm_publish"@, "swarm_subscribe"@, "swarm_connect"@, "swarm_disconnect"@, "swarm_stats"@, "ws_send"@, "ws_broadcast"@, "ws_disconnect"@, "ws_stats"@, "kafka_subscribe"@, "kafka_unsubscribe"@, "h"@][3] == "swarm_subscribe"@);
        assert(seq!["swarm_send"@, "swarm_broadcast"@, "swarm_publish"@, "swarm_subscribe"@, "swarm_connect"@, "swarm_disconnect"@, "swarm_stats"@, "ws_send"@, "ws_broadcast"@, "ws_disconnect"@, "ws_stats"@, "kafka_subscribe"@, "kafka_unsubscribe"@, "h"@][4] == "swarm_connect"@);
        assert(seq!["swarm_send"@, "swarm_broadcast"@, "swarm_publish"@, "swarm_subscribe"@, "swarm_connect"@, "swarm_disconnect"@, "swarm_stats"@, "ws_send"@, "ws_broadcast"@, "ws_disconnect"@, "ws_stats"@, "kafka_subscribe"@, "kafka_unsubscribe"@, "h"@][5] == "swarm_disconnect"@);
        assert(seq!["swarm_send"@, "swarm_broadcast"@, "swarm_publish"@, "swarm_subscribe"@, "swarm_connect"@, "swarm_disconnect"@, "swarm_stats"@, "ws_send"@, "ws_broadcast"@, "ws_disconnect"@, "ws_stats"@, "kafka_subscribe"@, "kafka_unsubscribe"@, "h"@][6] == "swarm_stats"@);
        assert(seq!["swarm_send"@, "swarm_broadcast"@, "swarm_publish"@, "swarm_subscribe"@, "swarm_connect"@, "swarm_disconnect"@, "swarm_stats"@, "ws_send"@, "ws_broadcast"@, "ws_disconnect"@, "ws_stats"@, "kafka_subscribe"@, "kafka_unsubscribe"@, "h"@][7] == "ws_send"@);
        assert(seq!["swarm_send"@, "swarm_broadcast"@, "swarm_publish"@, "swarm_subscribe"@, "swarm_connect"@, "swarm_disconnect"@, "swarm_stats"@, "ws_send"@, "ws_broadcast"@, "ws_disconnect"@, "ws_stats"@, "kafka_subscribe"@, "kafka_unsubscribe"@, "h"@][8] == "ws_broadcast"@);
        assert(seq!["swarm_send"@, "swarm_broadcast"@, "swarm_publish"@, "swarm_subscribe"@, "swarm_connect"@, "swarm_disconnect"@, "swarm_stats"@, "ws_send"@, "ws_broadcast"@, "ws_disconnect"@, "ws_stats"@, "kafka_subscribe"@, "kafka_unsubscribe"@, "h"@][9] == "ws_disconnect"@);
        assert(seq!["swarm_send"@, "swarm_broadcast"@, "swarm_publish"@, "swarm_subscribe"@, "swarm_connect"@, "swarm_disconnect"@, "swarm_stats"@, "ws_send"@, "ws_broadcast"@, "ws_disconnect"@, "ws_stats"@, "kafka_subscribe"@, "kafka_unsubscribe"@, "h"@][10] == "ws_stats"@);
        assert(seq!["swarm_send"@, "swarm_broadcast"@, "swarm_publish"@, "swarm_subscribe"@, "swarm_connect"@, "swarm_disconnect"@, "swarm_stats"@, "ws_send"@, "ws_broadcast"@, "ws_disconnect"@, "ws_stats"@, "kafka_subscribe"@, "kafka_unsubscribe"@, "h"@][11] == "kafka_subscribe"@);
        assert(seq!["swarm_send"@, "swarm_broadcast"@, "swarm_publish"@, "swarm_subscribe"@, "swarm_connect"@, "swarm_disconnect"@, "swarm_stats"@, "ws_send"@, "ws_broadcast"@, "ws_disconnect"@, "ws_stats"@, "kafka_subscribe"@, "kafka_unsubscribe"@, "h"@][12] == "kafka_unsubscribe"@);
        assert(seq!["swarm_send"@, "swarm_broadcast"@, "swarm_publish"@, "swarm_subscribe"@, "swarm_connect"@, "swarm_disconnect"@, "swarm_stats"@, "ws_send"@, "ws_broadcast"@, "ws_disconnect"@, "ws_stats"@, "kafka_subscribe"@, "kafka_unsubscribe"@, "h"@][13] == "h"@);
    }
}


/// The command names are different texts.
proof fn lemma_command_names_distinct()
    ensures
        "swarm_send"@ != "swarm_subscribe"@,
        "swarm_send"@ != "swarm_stats"@,
        "swarm_send"@ != "ws_send"@,
        "swarm_send"@ != "ws_broadcast"@,
        "swarm_send"@ != "ws_disconnect"@,
        "swarm_send"@ != "ws_stats"@,
        "swarm_broadcast"@ != "swarm_send"@,
        "swarm_broadcast"@ != "swarm_publish"@,
        "swarm_broadcast"@ != "swarm_subscribe"@,
        "swarm_broadcast"@ != "swarm_connect"@,
        "swarm_broadcast"@ != "swarm_disconnect"@,
        "swarm_broadcast"@ != "swarm_stats"@,
        "swarm_broadcast"@ != "ws_send"@,
        "swarm_broadcast"@ != "ws_broadcast"@,
        "swarm_broadcast"@ != "ws_disconnect"@,
        "swarm_broadcast"@ != "ws_stats"@,
        "swarm_publish"@ != "swarm_send"@,
        "swarm_publish"@ != "swarm_subscribe"@,
        "swarm_publish"@ != "swarm_stats"@,
        "swarm_publish"@ != "ws_send"@,
        "swarm_publish"@ != "ws_broadcast"@,
        "swarm_publish"@ != "ws_disconnect"@,
        "swarm_publish"@ != "ws_stats"@,
        "swarm_subscribe"@ != "ws_send"@,
        "swarm_subscribe"@ != "ws_broadcast"@,
        "swarm_subscribe"@ != "ws_disconnect"@,
        "swarm_subscribe"@ != "ws_stats"@,
        "swarm_connect"@ != "swarm_send"@,
        "swarm_connect"@ != "swarm_publish"@,
        "swarm_connect"@ != "swarm_subscribe"@,
        "swarm_connect"@ != "swarm_disconnect"@,
        "swarm_connect"@ != "swarm_stats"@,
        "swarm_connect"@ != "ws_send"@,
        "swarm_connect"@ != "ws_broadcast"@,
        "swarm_connect"@ != "ws_disconnect"@,
        "swarm_connect"@ != "ws_stats"@,
        "swarm_disconnect"@ != "swarm_send"@,
        "swarm_disconnect"@ != "swarm_publish"@,
        "swarm_disconnect"@ != "swarm_subscribe"@,
        "swarm_disconnect"@ != "swarm_stats"@,
        "swarm_disconnect"@ != "ws_send"@,
        "swarm_disconnect"@ != "ws_broadcast"@,
        "swarm_disconnect"@ != "ws_disconnect"@,
        "swarm_disconnect"@ != "ws_stats"@,
        "swarm_stats"@ != "swarm_subscribe"@,
        "swarm_stats"@ != "ws_send"@,
        "swarm_stats"@ != "ws_broadcast"@,
        "swarm_stats"@ != "ws_disconnect"@,
        "swarm_stats"@ != "ws_stats"@,
        "ws_send"@ != "ws_stats"@,
        "ws_broadcast"@ != "ws_send"@,
        "ws_broadcast"@ != "ws_disconnect"@,
        "ws_broadcast"@ != "ws_stats"@,
        "ws_disconnect"@ != "ws_send"@,
        "ws_disconnect"@ != "ws_stats"@,
        "kafka_subscribe"@ != "swarm_send"@,
        "kafka_subscribe"@ != "swarm_broadcast"@,
        "kafka_subscribe"@ != "swarm_publish"@,
        "kafka_subscribe"@ != "swarm_subscribe"@,
        "kafka_subscribe"@ != "swarm_connect"@,
        "kafka_subscribe"@ != "swarm_disconnect"@,
        "kafka_subscribe"@ != "swarm_stats"@,
        "kafka_subscribe"@ != "ws_send"@,
        "kafka_subscribe"@ != "ws_broadcast"@,
        "kafka_subscribe"@ != "ws_disconnect"@,
        "kafka_subscribe"@ != "ws_stats"@,
        "kafka_subscribe"@ != "kafka_unsubscribe"@,
        "kafka_unsubscribe"@ != "swarm_send"@,
        "kafka_unsubscribe"@ != "swarm_broadcast"@,
        "kafka_unsubscribe"@ != "swarm_publish"@,
        "kafka_unsubscribe"@ != "swarm_subscribe"@,
        "kafka_unsubscribe"@ != "swarm_connect"@,
        "kafka_unsubscribe"@ != "swarm_disconnect"@,
        "kafka_unsubscribe"@ != "swarm_stats"@,
        "kafka_unsubscribe"@ != "ws_send"@,
        "kafka_unsubscribe"@ != "ws_broadcast"@,
        "kafka_unsubscribe"@ != "ws_disconnect"@,
        "kafka_unsubscribe"@ != "ws_stats"@,
        "h"@ != "swarm_send"@,
        "h"@ != "swarm_broadcast"@,
        "h"@ != "swarm_publish"@,
        "h"@ != "swarm_subscribe"@,
        "h"@ != "swarm_connect"@,
        "h"@ != "swarm_disconnect"@,
        "h"@ != "swarm_stats"@,
        "h"@ != "ws_send"@,
        "h"@ != "ws_broadcast"@,
        "h"@ != "ws_disconnect"@,
        "h"@ != "ws_stats"@,
        "h"@ != "kafka_subscribe"@,
        "h"@ != "kafka_unsubscribe"@,
{
        reveal_strlit("swarm_send");
        reveal_strlit("swarm_broadcast");
        reveal_strlit("swarm_publish");
        reveal_strlit("swarm_subscribe");
        reveal_strlit("swarm_connect");
        reveal_strlit("swarm_disconnect");
        reveal_strlit("swarm_stats");
        reveal_strlit("ws_send");
        reveal_strlit("ws_broadcast");
        reveal_strlit("ws_disconnect");
        reveal_strlit("ws_stats");
        reveal_strlit("kafka_subscribe");
        reveal_strlit("kafka_unsubscribe");
        reveal_strlit("h");
        assert("swarm_send"@.len() != "swarm_subscribe"@.len());
        assert("swarm_send"@.len() != "swarm_stats"@.len());
        assert("swarm_send"@.len() != "ws_send"@.len());
        assert("swarm_send"@.len() != "ws_broadcast"@.len());
        assert("swarm_send"@.len() != "ws_disconnect"@.len());
        assert("swarm_send"@.len() != "ws_stats"@.len());
        assert("swarm_broadcast"@.len() != "swarm_send"@.len());
        assert("swarm_broadcast"@.len() != "swarm_publish"@.len());
        assert("swarm_broadcast"@[6] != "swarm_subscribe"@[6]);
        assert("swarm_broadcast"@.len() != "swarm_connect"@.len());
        assert("swarm_broadcast"@.len() != "swarm_disconnect"@.len());
        assert("swarm_broadcast"@.len() != "swarm_stats"@.len());
        assert("swarm_broadcast"@.len() != "ws_send"@.len());
        assert("swarm_broadcast"@.len() != "ws_broadcast"@.len());
        assert("swarm_broadcast"@.len() != "ws_disconnect"@.len());
        assert("swarm_broadcast"@.len() != "ws_stats"@.len());
        assert("swarm_publish"@.len() != "swarm_send"@.len());
        assert("swarm_publish"@.len() != "swarm_subscribe"@.len());
        assert("swarm_publish"@.len() != "swarm_stats"@.len());
        assert("swarm_publish"@.len() != "ws_send"@.len());
        assert("swarm_publish"@.len() != "ws_broadcast"@.len());
        assert("swarm_publish"@[0] != "ws_disconnect"@[0]);
        assert("swarm_publish"@.len() != "ws_stats"@.len());
        assert("swarm_subscribe"@.len() != "ws_send"@.len());
        assert("swarm_subscribe"@.len() != "ws_broadcast"@.len());
        assert("swarm_subscribe"@.len() != "ws_disconnect"@.len());
        assert("swarm_subscribe"@.len() != "ws_stats"@.len());
        assert("swarm_connect"@.len() != "swarm_send"@.len());
        assert("swarm_connect"@[6] != "swarm_publish"@[6]);
        assert("swarm_connect"@.len() != "swarm_subscribe"@.len());
        assert("swarm_connect"@.len() != "swarm_disconnect"@.len());
        assert("swarm_connect"@.len() != "swarm_stats"@.len());
        assert("swarm_connect"@.len() != "ws_send"@.len());
        assert("swarm_connect"@.len() != "ws_broadcast"@.len());
        assert("swarm_connect"@[0] != "ws_disconnect"@[0]);
        assert("swarm_connect"@.len() != "ws_stats"@.len());
        assert("swarm_disconnect"@.len() != "swarm_send"@.len());
        assert("swarm_disconnect"@.len() != "swarm_publish"@.len());
        assert("swarm_disconnect"@.len() != "swarm_subscribe"@.len());
        assert("swarm_disconnect"@.len() != "swarm_stats"@.len());
        assert("swarm_disconnect"@.len() != "ws_send"@.len());
        assert("swarm_disconnect"@.len() != "ws_broadcast"@.len());
        assert("swarm_disconnect"@.len() != "ws_disconnect"@.len());
        assert("swarm_disconnect"@.len() != "ws_stats"@.len());
        assert("swarm_stats"@.len() != "swarm_subscribe"@.len());
        assert("swarm_stats"@.len() != "ws_send"@.len());
        assert("swarm_stats"@.len() != "ws_broadcast"@.len());
        assert("swarm_stats"@.len() != "ws_disconnect"@.len());
        assert("swarm_stats"@.len() != "ws_stats"@.len());
        assert("ws_send"@.len() != "ws_stats"@.len());
        assert("ws_broadcast"@.len() != "ws_send"@.len());
        assert("ws_broadcast"@.len() != "ws_disconnect"@.len());
        assert("ws_broadcast"@.len() != "ws_stats"@.len());
        assert("ws_disconnect"@.len() != "ws_send"@.len());
        assert("ws_disconnect"@.len() != "ws_stats"@.len());
        assert("kafka_subscribe"@.len() != "swarm_send"@.len());
        assert("kafka_subscribe"@[0] != "swarm_broadcast"@[0]);
        assert("kafka_subscribe"@.len() != "swarm_publish"@.len());
        assert("kafka_subscribe"@[0] != "swarm_subscribe"@[0]);
        assert("kafka_subscribe"@.len() != "swarm_connect"@.len());
        assert("kafka_subscribe"@.len() != "swarm_disconnect"@.len());
        assert("kafka_subscribe"@.len() != "swarm_stats"@.len());
        assert("kafka_subscribe"@.len() != "ws_send"@.len());
        assert("kafka_subscribe"@.len() != "ws_broadcast"@.len());
        assert("kafka_subscribe"@.len() != "ws_disconnect"@.len());
        assert("kafka_subscribe"@.len() != "ws_stats"@.len());
        assert("kafka_subscribe"@.len() != "kafka_unsubscribe"@.len());
        assert("kafka_unsubscribe"@.len() != "swarm_send"@.len());
        assert("kafka_unsubscribe"@.len() != "swarm_broadcast"@.len());
        assert("kafka_unsubscribe"@.len() != "swarm_publish"@.len());
        assert("kafka_unsubscribe"@.len() != "swarm_subscribe"@.len());
        assert("kafka_unsubscribe"@.len() != "swarm_connect"@.len());
        assert("kafka_unsubscribe"@.len() != "swarm_disconnect"@.len());
        assert("kafka_unsubscribe"@.len() != "swarm_stats"@.len());
        assert("kafka_unsubscribe"@.len() != "ws_send"@.len());
        assert("kafka_unsubscribe"@.len() != "ws_broadcast"@.len());
        assert("kafka_unsubscribe"@.len() != "ws_disconnect"@.len());
        assert("kafka_unsubscribe"@.len() != "ws_stats"@.len());
        assert("h"@.len() != "swarm_send"@.len());
        assert("h"@.len() != "swarm_broadcast"@.len());
        assert("h"@.len() != "swarm_publish"@.len());
        assert("h"@.len() != "swarm_subscribe"@.len());
        assert("h"@.len() != "swarm_connect"@.len());
        assert("h"@.len() != "swarm_disconnect"@.len());
        assert("h"@.len() != "swarm_stats"@.len());
        assert("h"@.len() != "ws_send"@.len());
        assert("h"@.len() != "ws_broadcast"@.len());
        assert("h"@.len() != "ws_disconnect"@.len());
        assert("h"@.len() != "ws_stats"@.len());
        assert("h"@.len() != "kafka_subscribe"@.len());
        assert("h"@.len() != "kafka_unsubscribe"@.len());
}

} // verus!
