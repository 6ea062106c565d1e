//! The node's configuration, as loaded from `config.toml` and `APP__*` variables, and
//! what the services derive from it.
use vstd::prelude::*;

use crate::text::{decimal, push_char, push_str, u128_to_decimal};

verus! {

/// The whole configuration.
#[derive(Debug, Clone, Default)]
pub struct AppConfig {
    pub server: ServerConfig,
    pub p2p: P2PConfig,
    pub gossip: GossipConfig,
    pub queue: QueueConfig,
    pub logging: LoggingConfig,
    pub mdns: MdnsConfig,
    pub ws: WebSocketServerConfig,
    pub http: HttpConfig,
    pub kafka: KafkaConfig,
    pub channel: ChannelConfig,
}

/// Gossipsub settings.
#[derive(Debug, Clone, Default)]
pub struct GossipConfig {
    pub max_transmit_size: usize,
    pub heartbeat_interval: u64,
}

/// The swarm's listen address.
#[derive(Debug, Clone, Default)]
pub struct ServerConfig {
    pub listen_address: String,
}

/// Request-response protocol settings.
#[derive(Debug, Clone, Default)]
pub struct P2PConfig {
    pub protocol_name: String,
    pub max_streams: u32,
    pub max_concurrent_streams: u32,
    pub semaphore_permits: u32,
}

/// Queue settings.
#[derive(Debug, Clone, Default)]
pub struct QueueConfig {
    pub capacity: usize,
    pub high_priority_threshold: usize,
}

/// Logging settings.
#[derive(Debug, Clone, Default)]
pub struct LoggingConfig {
    pub level: String,
    pub enable_debug: bool,
}

/// mDNS settings.
#[derive(Debug, Clone, Default)]
pub struct MdnsConfig {
    pub enabled: bool,
}

/// WebSocket server settings.
#[derive(Debug, Clone, Default)]
pub struct WebSocketServerConfig {
    pub host: String,
    pub port: u16,
    pub max_clients: usize,
    pub heartbeat_interval: u32,
}

/// HTTP endpoint settings.
#[derive(Debug, Clone, Default)]
pub struct HttpConfig {
    pub enabled: bool,
    pub address: String,
}

/// Kafka settings.
#[derive(Debug, Clone, Default)]
pub struct KafkaConfig {
    pub bootstrap_servers: String,
    pub consumer: KafkaConsumerConfig,
}

/// Kafka consumer settings.
#[derive(Debug, Clone, Default)]
pub struct KafkaConsumerConfig {
    pub group_id: String,
    pub default_topic: String,
}

/// Sizes of the channels between the services.
#[derive(Debug, Clone, Default)]
pub struct ChannelConfig {
    pub command_buffer_size: usize,
    pub event_buffer_size: usize,
}

/// `host:port`.
pub open spec fn host_port(host: Seq<char>, port: nat) -> Seq<char> {
    host + seq![':'] + decimal(port)
}

impl WebSocketServerConfig {
    /// The address the WebSocket server listens on: `host:port`.
    pub fn listen_address(&self) -> (addr: String)
        ensures
            addr@ == host_port(self.host@, self.port as nat),
    {
        let mut addr = self.host.clone();
        push_char(&mut addr, ':');
        let port = u128_to_decimal(self.port as u128);
        push_str(&mut addr, port.as_str());
        addr
    }
}

} // verus!
