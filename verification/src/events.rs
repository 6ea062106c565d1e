//! The messages that the node's services exchange: commands to the swarm, to the
//! WebSocket server and to the Kafka consumers, and the events on the shared bus.
//! Peer ids travel in their canonical base58 text form.
use vstd::prelude::*;

verus! {

/// An event of the libp2p swarm.
#[derive(Debug, Clone, PartialEq, Eq)]
pub enum AppSwarmEvent {
    PeerDiscovered { peer_id: String, address: String },
    PeerDisconnected { peer_id: String },
    MessageReceived { from: String, content: String },
    MessageSent { to: String, content: String },
}

/// A command to the libp2p swarm.
#[derive(Debug, Clone, PartialEq, Eq)]
pub enum SwarmCommand {
    BroadcastRRMessage { content: String },
    SendRRMessage { to: String, content: String },
    BroadcastGossipMessage { content: String },
    PublishTopic { topic: String, content: String },
    SubscribeTopic { topic: String },
    ConnectToPeer { peer_id: String, address: String },
    DisconnectFromPeer { peer_id: String },
}

/// An event of the WebSocket server.
#[derive(Debug, Clone, PartialEq, Eq)]
pub enum WebSocketEvent {
    ClientConnected { client_id: String },
    ClientDisconnected { client_id: String },
    MessageFromClient { client_id: String, content: String },
}

/// A command to the WebSocket server.
#[derive(Debug, Clone, PartialEq, Eq)]
pub enum WebSocketCommand {
    SendToClient { client_id: String, content: String },
    BroadcastToAll { content: String },
    DisconnectClient { client_id: String },
}

/// A command to the Kafka consumer manager.
#[derive(Debug, Clone, PartialEq, Eq)]
pub enum KafkaConsumerCmd {
    Subscribe(String),
    Unsubscribe(String),
}

/// An event of the Kafka consumers.
#[derive(Debug, Clone, PartialEq, Eq)]
pub enum KafkaConsumerEvent {
    MessageReceived { topic: String, content: String },
    SubscriptionConfirmed { topic: String },
    SubscriptionFailed { topic: String, error: String },
}

/// An event of the HTTP endpoint.
#[derive(Debug, Clone, PartialEq, Eq)]
pub enum HttpEvent {
    SubscribeRequest { topic: String },
    UnsubscribeRequest { topic: String },
    StatusRequest,
}

/// An event on the bus that every service listens to.
#[derive(Debug, Clone, PartialEq, Eq)]
pub enum AppEvent {
    Swarm(AppSwarmEvent),
    WebSocket(WebSocketEvent),
    KafkaConsumer(KafkaConsumerEvent),
    Http(HttpEvent),
}

/// The model of `AppSwarmEvent`, with text as `Seq<char>`.
pub enum AppSwarmEventView {
    PeerDiscovered { peer_id: Seq<char>, address: Seq<char> },
    PeerDisconnected { peer_id: Seq<char> },
    MessageReceived { from: Seq<char>, content: Seq<char> },
    MessageSent { to: Seq<char>, content: Seq<char> },
}

/// The model of `SwarmCommand`, with text as `Seq<char>`.
pub enum SwarmCommandView {
    BroadcastRRMessage { content: Seq<char> },
    SendRRMessage { to: Seq<char>, content: Seq<char> },
    BroadcastGossipMessage { content: Seq<char> },
    PublishTopic { topic: Seq<char>, content: Seq<char> },
    SubscribeTopic { topic: Seq<char> },
    ConnectToPeer { peer_id: Seq<char>, address: Seq<char> },
    DisconnectFromPeer { peer_id: Seq<char> },
}

/// The model of `WebSocketEvent`, with text as `Seq<char>`.
pub enum WebSocketEventView {
    ClientConnected { client_id: Seq<char> },
    ClientDisconnected { client_id: Seq<char> },
    MessageFromClient { client_id: Seq<char>, content: Seq<char> },
}

/// The model of `WebSocketCommand`, with text as `Seq<char>`.
pub enum WebSocketCommandView {
    SendToClient { client_id: Seq<char>, content: Seq<char> },
    BroadcastToAll { content: Seq<char> },
    DisconnectClient { client_id: Seq<char> },
}

/// The model of `KafkaConsumerCmd`, with text as `Seq<char>`.
pub enum KafkaConsumerCmdView {
    Subscribe(Seq<char>),
    Unsubscribe(Seq<char>),
}

/// The model of `KafkaConsumerEvent`, with text as `Seq<char>`.
pub enum KafkaConsumerEventView {
    MessageReceived { topic: Seq<char>, content: Seq<char> },
    SubscriptionConfirmed { topic: Seq<char> },
    SubscriptionFailed { topic: Seq<char>, error: Seq<char> },
}

/// The model of `HttpEvent`, with text as `Seq<char>`.
pub enum HttpEventView {
    SubscribeRequest { topic: Seq<char> },
    UnsubscribeRequest { topic: Seq<char> },
    StatusRequest,
}

/// The model of `AppEvent`, with text as `Seq<char>`.
pub enum AppEventView {
    Swarm(AppSwarmEventView),
    WebSocket(WebSocketEventView),
    KafkaConsumer(KafkaConsumerEventView),
    Http(HttpEventView),
}

impl View for AppSwarmEvent {
    type V = AppSwarmEventView;

    open spec fn view(&self) -> AppSwarmEventView {
        match self {
            AppSwarmEvent::PeerDiscovered { peer_id, address } => AppSwarmEventView::PeerDiscovered {
                peer_id: peer_id@,
                address: address@,
            },
            AppSwarmEvent::PeerDisconnected { peer_id } => AppSwarmEventView::PeerDisconnected {
                peer_id: peer_id@,
            },
            AppSwarmEvent::MessageReceived { from, content } => AppSwarmEventView::MessageReceived {
                from: from@,
                content: content@,
            },
            AppSwarmEvent::MessageSent { to, content } => AppSwarmEventView::MessageSent {
                to: to@,
                content: content@,
            },
        }
    }
}

impl View for SwarmCommand {
    type V = SwarmCommandView;

    open spec fn view(&self) -> SwarmCommandView {
        match self {
            SwarmCommand::BroadcastRRMessage { content } => SwarmCommandView::BroadcastRRMessage {
                content: content@,
            },
            SwarmCommand::SendRRMessage { to, content } => SwarmCommandView::SendRRMessage {
                to: to@,
                content: content@,
            },
            SwarmCommand::BroadcastGossipMessage { content } =>
                SwarmCommandView::BroadcastGossipMessage { content: content@ },
            SwarmCommand::PublishTopic { topic, content } => SwarmCommandView::PublishTopic {
                topic: topic@,
                content: content@,
            },
            SwarmCommand::SubscribeTopic { topic } => SwarmCommandView::SubscribeTopic {
                topic: topic@,
            },
            SwarmCommand::ConnectToPeer { peer_id, address } => SwarmCommandView::ConnectToPeer {
                peer_id: peer_id@,
                address: address@,
            },
            SwarmCommand::DisconnectFromPeer { peer_id } => SwarmCommandView::DisconnectFromPeer {
                peer_id: peer_id@,
            },
        }
    }
}

impl View for WebSocketEvent {
    type V = WebSocketEventView;

    open spec fn view(&self) -> WebSocketEventView {
        match self {
            WebSocketEvent::ClientConnected { client_id } => WebSocketEventView::ClientConnected {
                client_id: client_id@,
            },
            WebSocketEvent::ClientDisconnected { client_id } =>
                WebSocketEventView::ClientDisconnected { client_id: client_id@ },
            WebSocketEvent::MessageFromClient { client_id, content } =>
                WebSocketEventView::MessageFromClient { client_id: client_id@, content: content@ },
        }
    }
}

impl View for WebSocketCommand {
    type V = WebSocketCommandView;

    open spec fn view(&self) -> WebSocketCommandView {
        match self {
            WebSocketCommand::SendToClient { client_id, content } =>
                WebSocketCommandView::SendToClient { client_id: client_id@, content: content@ },
            WebSocketCommand::BroadcastToAll { content } => WebSocketCommandView::BroadcastToAll {
                content: content@,
            },
            WebSocketCommand::DisconnectClient { client_id } =>
                WebSocketCommandView::DisconnectClient { client_id: client_id@ },
        }
    }
}

impl View for KafkaConsumerCmd {
    type V = KafkaConsumerCmdView;

    open spec fn view(&self) -> KafkaConsumerCmdView {
        match self {
            KafkaConsumerCmd::Subscribe(topic) => KafkaConsumerCmdView::Subscribe(topic@),
            KafkaConsumerCmd::Unsubscribe(topic) => KafkaConsumerCmdView::Unsubscribe(topic@),
        }
    }
}

impl View for KafkaConsumerEvent {
    type V = KafkaConsumerEventView;

    open spec fn view(&self) -> KafkaConsumerEventView {
        match self {
            KafkaConsumerEvent::MessageReceived { topic, content } =>
                KafkaConsumerEventView::MessageReceived { topic: topic@, content: content@ },
            KafkaConsumerEvent::SubscriptionConfirmed { topic } =>
                KafkaConsumerEventView::SubscriptionConfirmed { topic: topic@ },
            KafkaConsumerEvent::SubscriptionFailed { topic, error } =>
                KafkaConsumerEventView::SubscriptionFailed { topic: topic@, error: error@ },
        }
    }
}

impl View for HttpEvent {
    type V = HttpEventView;

    open spec fn view(&self) -> HttpEventView {
        match self {
            HttpEvent::SubscribeRequest { topic } => HttpEventView::SubscribeRequest { topic: topic@ },
            HttpEvent::UnsubscribeRequest { topic } => HttpEventView::UnsubscribeRequest {
                topic: topic@,
            },
            HttpEvent::StatusRequest => HttpEventView::StatusRequest,
        }
    }
}

impl View for AppEvent {
    type V = AppEventView;

    open spec fn view(&self) -> AppEventView {
        match self {
            AppEvent::Swarm(e) => AppEventView::Swarm(e@),
            AppEvent::WebSocket(e) => AppEventView::WebSocket(e@),
            AppEvent::KafkaConsumer(e) => AppEventView::KafkaConsumer(e@),
            AppEvent::Http(e) => AppEventView::Http(e@),
        }
    }
}

} // verus!
