//! The Kafka side of the node: the market data records read from a topic, what the
//! broadcast handler does with a record, and the consumer manager's record of its tasks.
use vstd::prelude::*;
use vstd::utf8::{decode_utf8, valid_utf8};

use crate::events::{KafkaConsumerCmd, KafkaConsumerCmdView, SwarmCommand, SwarmCommandView, WebSocketCommand, WebSocketCommandView};
use rdkafka::ClientConfig;

use crate::settings::KafkaConfig;
use crate::string_map::{has_key, inserted, keys_distinct, law_lookup_after_remove, lookup, removed, StringMap};
use crate::text::utf8_text;

verus! {

/// A market data record as read from Kafka.
#[derive(Debug, Clone, PartialEq, Eq)]
pub struct MarketData {
    pub client_id: String,
    pub round: i32,
    pub c: i32,
    pub ts: Option<u128>,
    pub content: Option<String>,
}

/// A record's payload as text.
pub enum PayloadText {
    /// The record has no payload.
    Missing,
    /// The payload is not UTF-8.
    NotUtf8,
    /// The payload's text.
    Text(String),
}

/// Reads a record's payload as UTF-8 text.
pub fn payload_text(payload: Option<Vec<u8>>) -> (text: PayloadText)
    ensures
        match payload {
            None => text is Missing,
            Some(bytes) => if valid_utf8(bytes@) {
                text matches PayloadText::Text(t) && t@ == decode_utf8(bytes@)
            } else {
                text is NotUtf8
            },
        },
{
    match payload {
        None => PayloadText::Missing,
        Some(bytes) => match utf8_text(bytes) {
            Some(t) => PayloadText::Text(t),
            None => PayloadText::NotUtf8,
        },
    }
}

/// Stamps a record with the time it is relayed, in milliseconds since the epoch.
pub fn stamp(data: MarketData, now_millis: u128) -> (stamped: MarketData)
    ensures
        stamped == (MarketData { ts: Some(now_millis), ..data }),
{
    MarketData { ts: Some(now_millis), ..data }
}

/// The commands that relay a record's JSON text: a gossip broadcast to the swarm and a
/// broadcast to every WebSocket client, with the same text.
pub fn relay_commands(json: String) -> (commands: (SwarmCommand, WebSocketCommand))
    ensures
        commands.0@ == (SwarmCommandView::BroadcastGossipMessage { content: json@ }),
        commands.1@ == (WebSocketCommandView::BroadcastToAll { content: json@ }),
{
    (SwarmCommand::BroadcastGossipMessage { content: json.clone() }, WebSocketCommand::BroadcastToAll { content: json })
}

/// What the consumer manager is to do with a command. `T` is the handle of a task.
pub enum ManagerAction<T> {
    /// Start a consumer task for the topic with the broadcast handler.
    Spawn { topic: String },
    /// Stop consuming the topic: its task, if one was recorded, is to be stopped.
    Stop { topic: String, task: Option<T> },
}

/// The consumer manager: the task consuming each topic. `T` is the handle of a task.
pub struct KafkaConsumerManager<T> {
    active_tasks: StringMap<T>,
}

impl<T> View for KafkaConsumerManager<T> {
    type V = Seq<(Seq<char>, T)>;

    closed spec fn view(&self) -> Seq<(Seq<char>, T)> {
        self.active_tasks@
    }
}

impl<T> KafkaConsumerManager<T> {
    /// A manager without tasks.
    pub fn new() -> (m: Self)
        ensures
            m@ == Seq::<(Seq<char>, T)>::empty(),
    {
        KafkaConsumerManager { active_tasks: StringMap::new() }
    }

    /// Decides what a command comes to: a subscription starts a consumer task; an
    /// unsubscription forgets the topic's task and hands it over to be stopped.
    pub fn command_handler(&mut self, cmd: KafkaConsumerCmd) -> (action: ManagerAction<T>)
        ensures
            keys_distinct(old(self)@),
            keys_distinct(final(self)@),
            cmd@ matches KafkaConsumerCmdView::Unsubscribe(topic) ==> !has_key(final(self)@, topic) && forall|
                other: Seq<char>,
            |
                other != topic ==> #[trigger] lookup(final(self)@, other) == lookup(old(self)@, other),
            match cmd@ {
                KafkaConsumerCmdView::Subscribe(topic) => final(self)@ == old(self)@
                    && (action matches ManagerAction::Spawn { topic: t } && t@ == topic),
                KafkaConsumerCmdView::Unsubscribe(topic) => final(self)@ == removed(old(self)@, topic)
                    && (action matches ManagerAction::Stop { topic: t, task } && t@ == topic
                    && task == crate::string_map::lookup(old(self)@, topic)),
            },
    {
        proof {
            use_type_invariant(&self.active_tasks);
            if let KafkaConsumerCmdView::Unsubscribe(topic) = cmd@ {
                assert forall|other: Seq<char>| other != topic implies #[trigger] lookup(
                    removed(self@, topic),
                    other,
                ) == lookup(self@, other) by {
                    law_lookup_after_remove(self@, topic, other);
                }
                law_lookup_after_remove(self@, topic, topic);
            }
        }
        match cmd {
            KafkaConsumerCmd::Subscribe(topic) => ManagerAction::Spawn { topic },
            KafkaConsumerCmd::Unsubscribe(topic) => {
                let task = self.active_tasks.remove(topic.as_str());
                ManagerAction::Stop { topic, task }
            },
        }
    }

    /// Records the task started for `topic`, replacing the record of an earlier one.
    pub fn record_task(&mut self, topic: String, task: T) -> (previous: Option<T>)
        ensures
            final(self)@ == inserted(old(self)@, topic@, task),
            previous == crate::string_map::lookup(old(self)@, topic@),
    {
        self.active_tasks.insert(topic, task)
    }

    /// Whether a task was recorded for `topic`.
    pub fn has_task(&self, topic: &str) -> (b: bool)
        ensures
            b == crate::string_map::has_key(self@, topic@),
    {
        self.active_tasks.contains_key(topic)
    }

    /// The number of recorded tasks.
    pub fn task_count(&self) -> (n: usize)
        ensures
            n == self@.len(),
    {
        self.active_tasks.len()
    }
}

#[verifier::external_type_specification]
#[verifier::external_body]
pub struct ExClientConfig(ClientConfig);

/// The options that a Kafka client configuration holds (its key/value map).
pub uninterp spec fn client_config_options(config: ClientConfig) -> Map<Seq<char>, Seq<char>>;

/// `ClientConfig::new`: a configuration without options (its map starts empty; its log
/// level, taken from the `log` crate's global level, is not stated).
#[verifier::external_body]
fn new_client_config() -> (fresh: ClientConfig)
    ensures
        client_config_options(fresh) =~= Map::empty(),
{
    ClientConfig::new()
}

/// `ClientConfig::set`: stores `value` under `key`, replacing an earlier value.
#[verifier::external_body]
fn set_option(config: &mut ClientConfig, key: &str, value: &str)
    ensures
        client_config_options(*final(config)) == client_config_options(*old(config)).insert(key@, value@),
{
    config.set(key, value);
}

/// The options of a topic's consumer: the group and the brokers of the configuration,
/// no end-of-partition events, a 6 s session timeout, automatic commits, and reading
/// from the latest offset.
pub open spec fn consumer_options(config: &KafkaConfig) -> Map<Seq<char>, Seq<char>> {
    Map::<Seq<char>, Seq<char>>::empty()
        .insert("group.id"@, config.consumer.group_id@)
        .insert("bootstrap.servers"@, config.bootstrap_servers@)
        .insert("enable.partition.eof"@, "false"@)
        .insert("session.timeout.ms"@, "6000"@)
        .insert("enable.auto.commit"@, "true"@)
        .insert("auto.offset.reset"@, "latest"@)
}

/// The client configuration that a consumer of a topic is created from.
pub fn consumer_config(config: &KafkaConfig) -> (client: ClientConfig)
    ensures
        client_config_options(client) == consumer_options(config),
{
    let mut client = new_client_config();
    set_option(&mut client, "group.id", config.consumer.group_id.as_str());
    set_option(&mut client, "bootstrap.servers", config.bootstrap_servers.as_str());
    set_option(&mut client, "enable.partition.eof", "false");
    set_option(&mut client, "session.timeout.ms", "6000");
    set_option(&mut client, "enable.auto.commit", "true");
    set_option(&mut client, "auto.offset.reset", "latest");
    client
}

} // verus!
