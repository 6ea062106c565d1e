//! The WebSocket server's bookkeeping: its clients and the outgoing channel of each,
//! what a command or a bus event hands to them and does to them, and what a client's
//! frames mean.
use vstd::prelude::*;

use crate::events::{
    AppEvent, AppEventView, AppSwarmEventView, KafkaConsumerEventView, WebSocketCommand,
    WebSocketCommandView, WebSocketEvent, WebSocketEventView,
};
use crate::kafka::MarketData;
use crate::string_map::{dropped_keys, has_key, inserted, kept, keys_distinct, lookup, removed, StringMap};
use crate::text::{decimal, i32_to_decimal, push_char, push_str, signed_decimal, u128_to_decimal};

verus! {

/// A text to hand to one client's channel.
#[derive(Debug, Clone, PartialEq, Eq)]
pub struct Delivery {
    pub client_id: String,
    pub text: String,
}

impl View for Delivery {
    type V = (Seq<char>, Seq<char>);

    open spec fn view(&self) -> (Seq<char>, Seq<char>) {
        (self.client_id@, self.text@)
    }
}

/// The view of a list of deliveries: (client, text) pairs.
pub open spec fn deliveries_view(deliveries: Seq<Delivery>) -> Seq<(Seq<char>, Seq<char>)> {
    deliveries.map_values(|d: Delivery| d@)
}

/// The same text for every client of `clients`, in order.
pub open spec fn to_all<V>(clients: Seq<(Seq<char>, V)>, text: Seq<char>) -> Seq<(Seq<char>, Seq<char>)> {
    clients.map_values(|e: (Seq<char>, V)| (e.0, text))
}

/// The deliveries of `text` to every client of `clients`, one each, in order.
pub fn deliveries_to_all<V>(clients: &StringMap<V>, text: &String) -> (deliveries: Vec<Delivery>)
    ensures
        keys_distinct(clients@),
        deliveries_view(deliveries@) == to_all(clients@, text@),
{
    let n = clients.len();
    let mut deliveries: Vec<Delivery> = Vec::new();
    let mut i: usize = 0;
    while i < n
        invariant
            n == clients@.len(),
            i <= n,
            deliveries_view(deliveries@) == to_all(clients@, text@).take(i as int),
        decreases n - i,
    {
        let ghost before = deliveries@;
        deliveries.push(Delivery { client_id: clients.key_at(i).clone(), text: text.clone() });
        assert(deliveries_view(deliveries@) =~= deliveries_view(before).push((clients@[i as int].0, text@)));
        assert(to_all(clients@, text@).take(i + 1) =~= to_all(clients@, text@).take(i as int).push(
            (clients@[i as int].0, text@),
        ));
        i = i + 1;
    }
    assert(to_all(clients@, text@).take(n as int) =~= to_all(clients@, text@));
    deliveries
}

/// The connected clients, each with the sending half of the channel to its connection
/// task (`S`).
pub struct WebSocketServer<S> {
    clients: StringMap<S>,
}

impl<S> View for WebSocketServer<S> {
    type V = Seq<(Seq<char>, S)>;

    closed spec fn view(&self) -> Seq<(Seq<char>, S)> {
        self.clients@
    }
}

/// What a command did to the clients.
pub struct CommandReport {
    /// The clients that a broadcast could not reach, in order.
    pub failed: Vec<String>,
    /// The events to put on the bus, in order.
    pub events: Vec<WebSocketEvent>,
}

/// The view of a list of events.
pub open spec fn events_view(events: Seq<WebSocketEvent>) -> Seq<WebSocketEventView> {
    events.map_values(|e: WebSocketEvent| e@)
}

/// The view of a list of texts.
pub open spec fn texts_view(texts: Seq<String>) -> Seq<Seq<char>> {
    texts.map_values(|t: String| t@)
}

/// The events that report clients gone.
pub open spec fn disconnected_events(ids: Seq<Seq<char>>) -> Seq<WebSocketEventView> {
    ids.map_values(|id: Seq<char>| WebSocketEventView::ClientDisconnected { client_id: id })
}

/// What a command hands to the clients' channels: the content to the named client if it
/// is connected, the content to every client, or nothing.
pub open spec fn command_deliveries<S>(clients: Seq<(Seq<char>, S)>, command: WebSocketCommandView) -> Seq<(Seq<char>, Seq<char>)> {
    match command {
        WebSocketCommandView::SendToClient { client_id, content } => if has_key(clients, client_id) {
            seq![(client_id, content)]
        } else {
            Seq::empty()
        },
        WebSocketCommandView::BroadcastToAll { content } => to_all(clients, content),
        WebSocketCommandView::DisconnectClient { .. } => Seq::empty(),
    }
}

/// How the clients and the report follow from a command, given for each of its
/// deliveries whether the channel took it: a client whose channel is gone is dropped (and,
/// after a broadcast, reported failed and gone); disconnecting drops a client and reports
/// it if it was connected.
pub open spec fn command_effect<S>(
    before: Seq<(Seq<char>, S)>,
    command: WebSocketCommandView,
    delivered: Seq<bool>,
    after: Seq<(Seq<char>, S)>,
    failed: Seq<Seq<char>>,
    events: Seq<WebSocketEventView>,
) -> bool {
    match command {
        WebSocketCommandView::SendToClient { client_id, content } => {
            &&& failed.len() == 0
            &&& events.len() == 0
            &&& after == if has_key(before, client_id) && !delivered[0] {
                removed(before, client_id)
            } else {
                before
            }
        },
        WebSocketCommandView::BroadcastToAll { content } => {
            &&& after == kept(before, delivered)
            &&& failed == dropped_keys(before, delivered)
            &&& events == disconnected_events(failed)
        },
        WebSocketCommandView::DisconnectClient { client_id } => {
            &&& failed.len() == 0
            &&& after == removed(before, client_id)
            &&& events == if has_key(before, client_id) {
                seq![WebSocketEventView::ClientDisconnected { client_id }]
            } else {
                Seq::empty()
            }
        },
    }
}

proof fn lemma_kept_step<V>(s: Seq<(Seq<char>, V)>, flags: Seq<bool>, i: int)
    requires
        0 <= i < s.len(),
        flags.len() == i + 1,
    ensures
        dropped_keys(s.take(i + 1), flags) == if flags[i] {
            dropped_keys(s.take(i), flags.take(i))
        } else {
            dropped_keys(s.take(i), flags.take(i)).push(s[i].0)
        },
{
    assert(s.take(i + 1).drop_last() =~= s.take(i));
    assert(flags.drop_last() =~= flags.take(i));
}

impl<S> WebSocketServer<S> {
    /// A server without clients.
    pub fn new() -> (server: Self)
        ensures
            server@ == Seq::<(Seq<char>, S)>::empty(),
    {
        WebSocketServer { clients: StringMap::new() }
    }

    /// The number of connected clients; no client is listed twice.
    pub fn client_count(&self) -> (n: usize)
        ensures
            n == self@.len(),
            keys_distinct(self@),
    {
        self.clients.len()
    }

    /// Whether `client_id` is connected.
    pub fn has_client(&self, client_id: &str) -> (b: bool)
        ensures
            b == has_key(self@, client_id@),
    {
        self.clients.contains_key(client_id)
    }

    /// The channel to the connection task of `client_id`, if it is connected.
    pub fn sender(&self, client_id: &str) -> (tx: Option<&S>)
        ensures
            tx matches Some(t) ==> lookup(self@, client_id@) == Some(*t),
            tx is None ==> lookup(self@, client_id@) is None,
    {
        self.clients.get(client_id)
    }

    /// Registers a new connection under `client_id` (its address) with the channel to its
    /// task, replacing an earlier one of that id, and reports it.
    pub fn register_client(&mut self, client_id: String, tx: S) -> (event: WebSocketEvent)
        ensures
            final(self)@ == inserted(old(self)@, client_id@, tx),
            event@ == (WebSocketEventView::ClientConnected { client_id: client_id@ }),
    {
        let event = WebSocketEvent::ClientConnected { client_id: client_id.clone() };
        let _ = self.clients.insert(client_id, tx);
        event
    }

    /// What a command hands to the clients' channels, in order: the content to the named
    /// client if it is connected, the content once to every client for a broadcast, nothing
    /// for a disconnection.
    pub fn deliveries(&self, command: &WebSocketCommand) -> (deliveries: Vec<Delivery>)
        ensures
            keys_distinct(self@),
            deliveries_view(deliveries@) == command_deliveries(self@, command@),
    {
        proof {
            use_type_invariant(&self.clients);
        }
        let mut deliveries: Vec<Delivery> = Vec::new();
        match command {
            WebSocketCommand::SendToClient { client_id, content } => {
                if self.clients.contains_key(client_id.as_str()) {
                    deliveries.push(Delivery { client_id: client_id.clone(), text: content.clone() });
                }
                assert(deliveries_view(deliveries@) =~= command_deliveries(self@, command@));
                deliveries
            },
            WebSocketCommand::BroadcastToAll { content } => deliveries_to_all(&self.clients, content),
            WebSocketCommand::DisconnectClient { .. } => {
                assert(deliveries_view(deliveries@) =~= command_deliveries(self@, command@));
                deliveries
            },
        }
    }

    /// Completes a command once its deliveries were handed to the channels, `delivered`
    /// telling for each whether its channel took it: drops the clients whose channel is
    /// gone, reporting them failed and gone after a broadcast, or drops the client named by
    /// a disconnection and reports it if it was connected.
    pub fn complete_command(&mut self, command: &WebSocketCommand, delivered: &Vec<bool>) -> (report: CommandReport)
        requires
            delivered@.len() == command_deliveries(old(self)@, command@).len(),
        ensures
            command_effect(
                old(self)@,
                command@,
                delivered@,
                final(self)@,
                texts_view(report.failed@),
                events_view(report.events@),
            ),
    {
        let ghost before = self@;
        let mut failed: Vec<String> = Vec::new();
        let mut events: Vec<WebSocketEvent> = Vec::new();
        match command {
            WebSocketCommand::SendToClient { client_id, .. } => {
                if self.clients.contains_key(client_id.as_str()) && !delivered[0] {
                    let _ = self.clients.remove(client_id.as_str());
                }
                assert(texts_view(failed@) =~= Seq::<Seq<char>>::empty());
                assert(events_view(events@) =~= Seq::<WebSocketEventView>::empty());
            },
            WebSocketCommand::BroadcastToAll { .. } => {
                let n = self.clients.len();
                let mut i: usize = 0;
                while i < n
                    invariant
                        n == before.len(),
                        self@ == before,
                        i <= n,
                        delivered@.len() == n,
                        texts_view(failed@) == dropped_keys(before.take(i as int), delivered@.take(i as int)),
                        events_view(events@) == disconnected_events(texts_view(failed@)),
                    decreases n - i,
                {
                    let ghost old_failed = failed@;
                    let ghost old_events = events@;
                    proof {
                        lemma_kept_step(before, delivered@.take(i + 1), i as int);
                        assert(delivered@.take(i + 1).take(i as int) =~= delivered@.take(i as int));
                    }
                    if !delivered[i] {
                        let id = self.clients.key_at(i).clone();
                        failed.push(id.clone());
                        events.push(WebSocketEvent::ClientDisconnected { client_id: id });
                        assert(texts_view(failed@) =~= texts_view(old_failed).push(before[i as int].0));
                        let ghost ev = WebSocketEventView::ClientDisconnected { client_id: before[i as int].0 };
                        assert(events_view(events@) =~= events_view(old_events).push(ev));
                        assert(disconnected_events(texts_view(failed@)) =~= disconnected_events(
                            texts_view(old_failed),
                        ).push(ev));
                    } else {
                        assert(texts_view(failed@) =~= texts_view(old_failed));
                    }
                    i = i + 1;
                }
                assert(before.take(n as int) =~= before);
                assert(delivered@.take(n as int) =~= delivered@);
                self.clients.retain_flagged(delivered);
            },
            WebSocketCommand::DisconnectClient { client_id } => {
                if self.clients.remove(client_id.as_str()).is_some() {
                    events.push(WebSocketEvent::ClientDisconnected { client_id: client_id.clone() });
                }
                assert(texts_view(failed@) =~= Seq::<Seq<char>>::empty());
                assert(events_view(events@) =~= (if has_key(before, client_id@) {
                    seq![WebSocketEventView::ClientDisconnected { client_id: client_id@ }]
                } else {
                    Seq::empty()
                }));
            },
        }
        CommandReport { failed, events }
    }
}

/// What a bus event comes to.
pub struct AppEventReport {
    /// Whether the event counts as a bus message taken in (`event_rx:MessageReceived`).
    pub count_rx: bool,
    /// The command that relays the event to the clients, if any.
    pub relay: Option<WebSocketCommand>,
}

/// The text that a bus event has the server broadcast: a message received by the swarm,
/// or a message from Kafka.
pub open spec fn relayed_content(event: AppEventView) -> Option<Seq<char>> {
    match event {
        AppEventView::Swarm(AppSwarmEventView::MessageReceived { content, .. }) => Some(content),
        AppEventView::KafkaConsumer(KafkaConsumerEventView::MessageReceived { content, .. }) => Some(
            content,
        ),
        _ => None,
    }
}

impl<S> WebSocketServer<S> {
    /// Takes in a bus event: a message received by the swarm is counted and broadcast to
    /// every client, exactly as the command `BroadcastToAll` with its content; a message
    /// from Kafka is broadcast the same way, uncounted; anything else is passed over.
    pub fn handle_app_event(&self, event: AppEvent) -> (r: AppEventReport)
        ensures
            r.count_rx == (event@ is Swarm && relayed_content(event@) is Some),
            match relayed_content(event@) {
                Some(content) => r.relay matches Some(c) && c@ == (WebSocketCommandView::BroadcastToAll {
                    content,
                }),
                None => r.relay is None,
            },
    {
        match event {
            AppEvent::Swarm(crate::events::AppSwarmEvent::MessageReceived { from, content }) => {
                AppEventReport { count_rx: true, relay: Some(WebSocketCommand::BroadcastToAll { content }) }
            },
            AppEvent::KafkaConsumer(
                crate::events::KafkaConsumerEvent::MessageReceived { topic, content },
            ) => AppEventReport { count_rx: false, relay: Some(WebSocketCommand::BroadcastToAll { content }) },
            _ => AppEventReport { count_rx: false, relay: None },
        }
    }
}

/// What a client's connection task reads from its socket.
pub enum ClientFrame {
    /// A text message.
    Text(String),
    /// A close frame.
    Close,
    /// The end of the stream.
    Ended,
    /// A read error.
    Error,
    /// Any other frame.
    Other,
}

/// What the connection task does with a frame.
pub struct ClientFrameReaction {
    /// The event to put on the bus, if any.
    pub event: Option<WebSocketEvent>,
    /// Whether the task ends.
    pub stop: bool,
}

/// A text becomes a message from the client; a close frame or the end of the stream
/// reports the client gone and ends the task; an error ends the task; anything else is
/// passed over.
pub fn client_frame(client_id: &String, frame: ClientFrame) -> (r: ClientFrameReaction)
    ensures
        match frame {
            ClientFrame::Text(text) => !r.stop && (r.event matches Some(e) && e@
                == (WebSocketEventView::MessageFromClient { client_id: client_id@, content: text@ })),
            ClientFrame::Close | ClientFrame::Ended => r.stop && (r.event matches Some(e) && e@
                == (WebSocketEventView::ClientDisconnected { client_id: client_id@ })),
            ClientFrame::Error => r.stop && r.event is None,
            ClientFrame::Other => !r.stop && r.event is None,
        },
{
    match frame {
        ClientFrame::Text(text) => ClientFrameReaction {
            event: Some(WebSocketEvent::MessageFromClient { client_id: client_id.clone(), content: text }),
            stop: false,
        },
        ClientFrame::Close | ClientFrame::Ended => ClientFrameReaction {
            event: Some(WebSocketEvent::ClientDisconnected { client_id: client_id.clone() }),
            stop: true,
        },
        ClientFrame::Error => ClientFrameReaction { event: None, stop: true },
        ClientFrame::Other => ClientFrameReaction { event: None, stop: false },
    }
}

/// The file that records the broadcasts that did not reach a client.
pub const BROADCAST_FAILURE_LOG: &'static str = "logs/ws-fail-123.csv";

/// The record of a broadcast of `data` that did not reach `client_id`.
pub open spec fn failure_line(client_id: Seq<char>, data: MarketData) -> Seq<char> {
    client_id + seq![','] + signed_decimal(data.round as int) + seq![','] + signed_decimal(data.c as int)
        + seq![','] + decimal(
        match data.ts {
            Some(t) => t as nat,
            None => 0,
        },
    ) + seq!['\n']
}

/// The CSV record of a broadcast of `data` that did not reach `client_id`:
/// `client,round,c,ts` and a line break, with 0 for a missing timestamp.
pub fn broadcast_failure_line(client_id: &str, data: &MarketData) -> (line: String)
    ensures
        line@ == failure_line(client_id@, *data),
{
    let mut line = String::from_str(client_id);
    push_char(&mut line, ',');
    push_str(&mut line, i32_to_decimal(data.round).as_str());
    push_char(&mut line, ',');
    push_str(&mut line, i32_to_decimal(data.c).as_str());
    push_char(&mut line, ',');
    let ts: u128 = match data.ts {
        Some(t) => t,
        None => 0,
    };
    push_str(&mut line, u128_to_decimal(ts).as_str());
    push_char(&mut line, '\n');
    line
}

/// The records of a broadcast of `data` that did not reach the clients `failed`: one line
/// per client, in order.
pub open spec fn failure_log(failed: Seq<Seq<char>>, data: MarketData) -> Seq<char>
    decreases failed.len(),
{
    if failed.len() == 0 {
        Seq::empty()
    } else {
        failure_log(failed.drop_last(), data) + failure_line(failed.last(), data)
    }
}

/// What a broadcast of `data` appends to the failure log for the clients it could not
/// reach: the record of each, in order.
pub fn broadcast_failure_log(failed: &Vec<String>, data: &MarketData) -> (log: String)
    ensures
        log@ == failure_log(texts_view(failed@), *data),
{
    let ghost ids = texts_view(failed@);
    let mut log = String::new();
    let n = failed.len();
    assert(ids.take(0) =~= Seq::<Seq<char>>::empty());
    let mut i: usize = 0;
    while i < n
        invariant
            n == failed@.len(),
            ids == texts_view(failed@),
            i <= n,
            log@ == failure_log(ids.take(i as int), *data),
        decreases n - i,
    {
        let line = broadcast_failure_line(failed[i].as_str(), data);
        push_str(&mut log, line.as_str());
        assert(ids.take(i + 1).drop_last() =~= ids.take(i as int));
        assert(ids.take(i + 1).last() == failed@[i as int]@);
        i = i + 1;
    }
    assert(ids.take(n as int) =~= ids);
    log
}

/// A client registered and then disconnected is reported gone and is no longer
/// connected; the other clients are as before.
pub proof fn law_disconnect_after_register<S>(clients: Seq<(Seq<char>, S)>, client_id: Seq<char>, tx: S, other: Seq<char>)
    requires
        keys_distinct(clients),
    ensures
        has_key(inserted(clients, client_id, tx), client_id),
        lookup(removed(inserted(clients, client_id, tx), client_id), client_id) is None,
        other != client_id ==> lookup(removed(inserted(clients, client_id, tx), client_id), other) == lookup(
            clients,
            other,
        ),
{
    crate::string_map::law_lookup_after_insert(clients, client_id, tx, other);
    crate::string_map::law_lookup_after_remove(inserted(clients, client_id, tx), client_id, other);
}

/// A broadcast hands the content once to each connected client, in order, and to no one
/// else.
pub proof fn law_broadcast_delivers_once<S>(clients: Seq<(Seq<char>, S)>, content: Seq<char>, id: Seq<char>)
    requires
        keys_distinct(clients),
    ensures
        command_deliveries(clients, WebSocketCommandView::BroadcastToAll { content }).len() == clients.len(),
        forall|i: int|
            0 <= i < clients.len() ==> command_deliveries(clients, WebSocketCommandView::BroadcastToAll { content })[i]
                == ((#[trigger] clients[i]).0, content),
        has_key(clients, id) ==> exists|i: int|
            0 <= i < clients.len() && #[trigger] command_deliveries(
                clients,
                WebSocketCommandView::BroadcastToAll { content },
            )[i] == (id, content),
        forall|i: int, j: int|
            0 <= i < clients.len() && 0 <= j < clients.len() && (#[trigger] command_deliveries(
                clients,
                WebSocketCommandView::BroadcastToAll { content },
            )[i]).0 == id && (#[trigger] command_deliveries(
                clients,
                WebSocketCommandView::BroadcastToAll { content },
            )[j]).0 == id ==> i == j,
        !has_key(clients, id) ==> forall|i: int|
            0 <= i < clients.len() ==> (#[trigger] command_deliveries(
                clients,
                WebSocketCommandView::BroadcastToAll { content },
            )[i]).0 != id,
{
    let d = command_deliveries(clients, WebSocketCommandView::BroadcastToAll { content });
    assert forall|i: int, j: int|
        0 <= i < clients.len() && 0 <= j < clients.len() && (#[trigger] d[i]).0 == id && (#[trigger] d[j]).0
            == id implies i == j by {
        assert(clients[i].0 == id);
        assert(clients[j].0 == id);
    }
    if has_key(clients, id) {
        let k = crate::string_map::key_index(clients, id);
        assert(d[k] == (id, content));
    }
}

/// A broadcast keeps exactly the clients it reached, and reports exactly the others as
/// failed and gone.
pub proof fn law_broadcast_keeps_reached<S>(
    before: Seq<(Seq<char>, S)>,
    content: Seq<char>,
    delivered: Seq<bool>,
    after: Seq<(Seq<char>, S)>,
    failed: Seq<Seq<char>>,
    events: Seq<WebSocketEventView>,
)
    requires
        keys_distinct(before),
        delivered.len() == command_deliveries(before, WebSocketCommandView::BroadcastToAll { content }).len(),
        command_effect(before, WebSocketCommandView::BroadcastToAll { content }, delivered, after, failed, events),
    ensures
        forall|i: int| 0 <= i < before.len() ==> has_key(after, (#[trigger] before[i]).0) == delivered[i],
        forall|i: int| 0 <= i < before.len() ==> failed.contains((#[trigger] before[i]).0) == !delivered[i],
        events == disconnected_events(failed),
{
    crate::string_map::law_kept_exactly_flagged(before, delivered);
}

/// A message to one client is handed to that client alone, once, when it is connected,
/// and to nobody otherwise; a disconnection hands nothing to anybody.
pub proof fn law_send_reaches_only_its_client<S>(clients: Seq<(Seq<char>, S)>, client_id: Seq<char>, content: Seq<char>)
    ensures
        command_deliveries(clients, WebSocketCommandView::SendToClient { client_id, content }).len() <= 1,
        forall|i: int|
            0 <= i < command_deliveries(clients, WebSocketCommandView::SendToClient { client_id, content }).len()
                ==> #[trigger] command_deliveries(clients, WebSocketCommandView::SendToClient { client_id, content })[i]
                == (client_id, content),
        command_deliveries(clients, WebSocketCommandView::SendToClient { client_id, content }).len() == 1
            <==> has_key(clients, client_id),
        command_deliveries(clients, WebSocketCommandView::DisconnectClient { client_id }).len() == 0,
{
}


/// After a message to one client, that client stays connected exactly when it was and its
/// channel took the message; every other client is as before, and nothing is reported.
pub proof fn law_send_drops_only_a_gone_client<S>(
    before: Seq<(Seq<char>, S)>,
    client_id: Seq<char>,
    content: Seq<char>,
    delivered: Seq<bool>,
    after: Seq<(Seq<char>, S)>,
    failed: Seq<Seq<char>>,
    events: Seq<WebSocketEventView>,
    other: Seq<char>,
)
    requires
        keys_distinct(before),
        delivered.len() == command_deliveries(before, WebSocketCommandView::SendToClient { client_id, content }).len(),
        command_effect(before, WebSocketCommandView::SendToClient { client_id, content }, delivered, after, failed, events),
    ensures
        has_key(after, client_id) == (has_key(before, client_id) && delivered[0]),
        other != client_id ==> lookup(after, other) == lookup(before, other),
        failed.len() == 0,
        events.len() == 0,
{
    crate::string_map::law_lookup_after_remove(before, client_id, other);
    crate::string_map::law_lookup_after_remove(before, client_id, client_id);
}

/// After a disconnection the client is no longer connected, every other client is as
/// before, and it is reported gone exactly when it was connected.
pub proof fn law_disconnect_drops_the_client<S>(
    before: Seq<(Seq<char>, S)>,
    client_id: Seq<char>,
    delivered: Seq<bool>,
    after: Seq<(Seq<char>, S)>,
    failed: Seq<Seq<char>>,
    events: Seq<WebSocketEventView>,
    other: Seq<char>,
)
    requires
        keys_distinct(before),
        command_effect(before, WebSocketCommandView::DisconnectClient { client_id }, delivered, after, failed, events),
    ensures
        !has_key(after, client_id),
        other != client_id ==> lookup(after, other) == lookup(before, other),
        failed.len() == 0,
        events == if has_key(before, client_id) {
            seq![WebSocketEventView::ClientDisconnected { client_id }]
        } else {
            Seq::<WebSocketEventView>::empty()
        },
{
    crate::string_map::law_lookup_after_remove(before, client_id, other);
    crate::string_map::law_lookup_after_remove(before, client_id, client_id);
}

} // verus!
