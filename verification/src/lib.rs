//! Verified core of an mDNS / request-response relay node: the command
//! language of its HTTP endpoint, the bookkeeping of its libp2p swarm and of its
//! WebSocket server, its Kafka consumers, its statistics tables, its client
//! reconnection policy and the JSON messages it exchanges.
pub mod client;
pub mod command;
pub mod console;
pub mod events;
pub mod json;
pub mod kafka;
pub mod message;
pub mod settings;
pub mod stats;
pub mod string_map;
pub mod swarm;
pub mod text;
pub mod ws_server;
