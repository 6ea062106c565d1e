//! The swarm server's bookkeeping: the peers it knows with their addresses, what a
//! command has the swarm do, and what a swarm event does.
use vstd::prelude::*;
use vstd::utf8::{decode_utf8, valid_utf8};

use crate::events::{AppEvent, AppEventView, AppSwarmEvent, AppSwarmEventView, SwarmCommand, SwarmCommandView};
use crate::stats::{SWARM_GOSSIP_RECEIVED, SWARM_GOSSIP_SENT, SWARM_TX_MESSAGE_RECEIVED};
use crate::string_map::{
    has_key, inserted, key_index, keys_distinct, lookup, lemma_text_entries_inserted, lemma_text_entries_lookup,
    lemma_text_entries_removed, removed, text_entries, StringMap,
};
use crate::text::{owned, utf8_text};

verus! {

/// The gossip topic that every node subscribes to and broadcasts on.
pub const BROADCAST_TOPIC: &'static str = "broadcast";

/// What the swarm is to do.
#[derive(Debug, Clone, PartialEq, Eq)]
pub enum SwarmAction {
    /// Send a request-response message to a peer.
    SendRequest { peer: String, content: String },
    /// Publish on a gossip topic; a successful publish counts under `gossip_sent`.
    Publish { topic: String, content: String },
    /// Subscribe to a gossip topic.
    Subscribe { topic: String },
    /// Make a peer an explicit gossip peer.
    AddExplicitPeer { peer: String },
    /// Stop treating a peer as an explicit gossip peer.
    RemoveExplicitPeer { peer: String },
    /// Dial a peer at an address.
    Dial { peer: String, address: String },
    /// Close the connections to a peer.
    Disconnect { peer: String },
    /// Answer the request-response request that came in, with no content.
    RespondEmpty,
    /// Count once more under this name.
    Count { key: String },
    /// Put the event on the bus; when a listener takes it, count `event_tx:MessageReceived`.
    EmitCounted { event: AppEvent },
    /// Put the event on the bus.
    Emit { event: AppEvent },
}

/// The model of `SwarmAction`, with text as `Seq<char>`.
pub enum SwarmActionView {
    SendRequest { peer: Seq<char>, content: Seq<char> },
    Publish { topic: Seq<char>, content: Seq<char> },
    Subscribe { topic: Seq<char> },
    AddExplicitPeer { peer: Seq<char> },
    RemoveExplicitPeer { peer: Seq<char> },
    Dial { peer: Seq<char>, address: Seq<char> },
    Disconnect { peer: Seq<char> },
    RespondEmpty,
    Count { key: Seq<char> },
    EmitCounted { event: AppEventView },
    Emit { event: AppEventView },
}

impl View for SwarmAction {
    type V = SwarmActionView;

    open spec fn view(&self) -> SwarmActionView {
        match self {
            SwarmAction::SendRequest { peer, content } => SwarmActionView::SendRequest {
                peer: peer@,
                content: content@,
            },
            SwarmAction::Publish { topic, content } => SwarmActionView::Publish {
                topic: topic@,
                content: content@,
            },
            SwarmAction::Subscribe { topic } => SwarmActionView::Subscribe { topic: topic@ },
            SwarmAction::AddExplicitPeer { peer } => SwarmActionView::AddExplicitPeer { peer: peer@ },
            SwarmAction::RemoveExplicitPeer { peer } => SwarmActionView::RemoveExplicitPeer {
                peer: peer@,
            },
            SwarmAction::Dial { peer, address } => SwarmActionView::Dial {
                peer: peer@,
                address: address@,
            },
            SwarmAction::Disconnect { peer } => SwarmActionView::Disconnect { peer: peer@ },
            SwarmAction::RespondEmpty => SwarmActionView::RespondEmpty,
            SwarmAction::Count { key } => SwarmActionView::Count { key: key@ },
            SwarmAction::EmitCounted { event } => SwarmActionView::EmitCounted { event: event@ },
            SwarmAction::Emit { event } => SwarmActionView::Emit { event: event@ },
        }
    }
}

/// The view of a list of actions.
pub open spec fn actions_view(actions: Seq<SwarmAction>) -> Seq<SwarmActionView> {
    actions.map_values(|a: SwarmAction| a@)
}

/// The swarm events that the server acts on, peers given by their base58 text.
pub enum SwarmInput {
    /// A request-response request with its content.
    Request { content: String },
    /// Any other request-response event (a response, a failure, a response sent).
    OtherRequestResponse,
    /// mDNS found these peers at these addresses.
    Discovered { peers: Vec<(String, String)> },
    /// mDNS entries of these peers expired.
    Expired { peers: Vec<String> },
    /// A peer subscribed to a gossip topic.
    Subscribed,
    /// A gossip message with its bytes.
    GossipMessage { data: Vec<u8> },
    /// A gossip peer is slow.
    SlowPeer,
    /// A connection to a peer was made, from this remote address.
    ConnectionEstablished { peer: String, address: String },
    /// The connection to a peer closed.
    ConnectionClosed { peer: String },
    /// The swarm listens on a new address.
    NewListenAddr,
    /// Anything else.
    Other,
}

/// The swarm server: its own peer id and the peers it knows, each with an address.
pub struct SwarmServer {
    local_peer_id: String,
    peers: StringMap<String>,
}

/// The model of a `SwarmServer`.
pub struct SwarmServerView {
    pub local_peer_id: Seq<char>,
    pub peers: Seq<(Seq<char>, Seq<char>)>,
}

impl View for SwarmServer {
    type V = SwarmServerView;

    closed spec fn view(&self) -> SwarmServerView {
        SwarmServerView { local_peer_id: self.local_peer_id@, peers: text_entries(self.peers@) }
    }
}

/// The actions of a command, given the known peers.
pub open spec fn command_actions(peers: Seq<(Seq<char>, Seq<char>)>, command: SwarmCommandView) -> Seq<SwarmActionView> {
    match command {
        SwarmCommandView::BroadcastRRMessage { content } => peers.map_values(
            |e: (Seq<char>, Seq<char>)| SwarmActionView::SendRequest { peer: e.0, content },
        ),
        SwarmCommandView::BroadcastGossipMessage { content } => seq![
            SwarmActionView::Publish { topic: BROADCAST_TOPIC@, content },
        ],
        SwarmCommandView::PublishTopic { topic, content } => seq![
            SwarmActionView::Publish { topic, content },
        ],
        SwarmCommandView::SubscribeTopic { topic } => seq![SwarmActionView::Subscribe { topic }],
        SwarmCommandView::SendRRMessage { to, content } => seq![
            SwarmActionView::SendRequest { peer: to, content },
            SwarmActionView::Emit { event: message_sent(to, content) },
        ],
        SwarmCommandView::ConnectToPeer { peer_id, address } => seq![
            SwarmActionView::Dial { peer: peer_id, address },
        ],
        SwarmCommandView::DisconnectFromPeer { peer_id } => seq![
            SwarmActionView::Disconnect { peer: peer_id },
            SwarmActionView::Emit { event: peer_gone(peer_id) },
        ],
    }
}

/// The known peers after a command: disconnecting from a peer forgets it; no other
/// command changes them.
pub open spec fn command_peers(peers: Seq<(Seq<char>, Seq<char>)>, command: SwarmCommandView) -> Seq<(Seq<char>, Seq<char>)> {
    match command {
        SwarmCommandView::DisconnectFromPeer { peer_id } => removed(peers, peer_id),
        _ => peers,
    }
}

/// The peers after learning of these (peer, address) pairs in order.
pub open spec fn discover_all(peers: Seq<(Seq<char>, Seq<char>)>, found: Seq<(Seq<char>, Seq<char>)>) -> Seq<(Seq<char>, Seq<char>)>
    decreases found.len(),
{
    if found.len() == 0 {
        peers
    } else {
        inserted(discover_all(peers, found.drop_last()), found.last().0, found.last().1)
    }
}

/// The peers after forgetting these in order.
pub open spec fn expire_all(peers: Seq<(Seq<char>, Seq<char>)>, gone: Seq<Seq<char>>) -> Seq<(Seq<char>, Seq<char>)>
    decreases gone.len(),
{
    if gone.len() == 0 {
        peers
    } else {
        removed(expire_all(peers, gone.drop_last()), gone.last())
    }
}

/// The message that the swarm puts on the bus for content it received.
pub open spec fn received(local: Seq<char>, content: Seq<char>) -> AppEventView {
    AppEventView::Swarm(AppSwarmEventView::MessageReceived { from: local, content })
}

/// The event that reports a message sent to a peer.
pub open spec fn message_sent(to: Seq<char>, content: Seq<char>) -> AppEventView {
    AppEventView::Swarm(AppSwarmEventView::MessageSent { to, content })
}

/// The event that reports a peer gone.
pub open spec fn peer_gone(peer: Seq<char>) -> AppEventView {
    AppEventView::Swarm(AppSwarmEventView::PeerDisconnected { peer_id: peer })
}

/// The view of a list of pairs of texts.
pub open spec fn pairs_view(pairs: Seq<(String, String)>) -> Seq<(Seq<char>, Seq<char>)> {
    pairs.map_values(|p: (String, String)| (p.0@, p.1@))
}

/// The view of a list of texts.
pub open spec fn strings_view(texts: Seq<String>) -> Seq<Seq<char>> {
    texts.map_values(|t: String| t@)
}

fn clone_text(s: &String) -> (r: String)
    ensures
        r@ == s@,
{
    s.clone()
}

/// The actions for expired peers: each is dropped as an explicit peer and reported gone.
pub open spec fn expire_actions(gone: Seq<Seq<char>>) -> Seq<SwarmActionView>
    decreases gone.len(),
{
    if gone.len() == 0 {
        Seq::empty()
    } else {
        expire_actions(gone.drop_last()) + seq![
            SwarmActionView::RemoveExplicitPeer { peer: gone.last() },
            SwarmActionView::Emit { event: peer_gone(gone.last()) },
        ]
    }
}

/// The actions for discovered peers: each becomes an explicit peer.
pub open spec fn discover_actions(found: Seq<(Seq<char>, Seq<char>)>) -> Seq<SwarmActionView> {
    found.map_values(|p: (Seq<char>, Seq<char>)| SwarmActionView::AddExplicitPeer { peer: p.0 })
}

impl SwarmServer {
    /// A server for the node with peer id `local_peer_id`, knowing no peers.
    pub fn new(local_peer_id: String) -> (s: Self)
        ensures
            s@.local_peer_id == local_peer_id@,
            s@.peers == Seq::<(Seq<char>, Seq<char>)>::empty(),
    {
        let s = SwarmServer { local_peer_id, peers: StringMap::new() };
        assert(s@.peers =~= Seq::<(Seq<char>, Seq<char>)>::empty());
        s
    }

    /// The address known for `peer`.
    pub fn peer_address(&self, peer: &str) -> (a: Option<String>)
        ensures
            a is Some == has_key(self@.peers, peer@),
            a matches Some(t) ==> crate::string_map::lookup(self@.peers, peer@) == Some(t@),
    {
        proof {
            use_type_invariant(&self.peers);
            lemma_text_entries_lookup(self.peers@, peer@);
        }
        match self.peers.get(peer) {
            Some(a) => Some(a.clone()),
            None => None,
        }
    }

    /// The number of known peers; no peer is known twice.
    pub fn peer_count(&self) -> (n: usize)
        ensures
            n == self@.peers.len(),
            keys_distinct(self@.peers),
    {
        proof {
            use_type_invariant(&self.peers);
            lemma_text_entries_lookup(self.peers@, seq![]);
        }
        self.peers.len()
    }

    /// What a command has the swarm do: a request-response message to every known peer,
    /// or to one peer (reported sent); a gossip publish (on `broadcast`, or on the given
    /// topic); a subscription; dialing a peer at an address; or closing the connections to
    /// a peer, which is then forgotten and reported gone.
    pub fn handle_command(&mut self, command: &SwarmCommand) -> (actions: Vec<SwarmAction>)
        ensures
            keys_distinct(old(self)@.peers),
            final(self)@.local_peer_id == old(self)@.local_peer_id,
            final(self)@.peers == command_peers(old(self)@.peers, command@),
            actions_view(actions@) == command_actions(old(self)@.peers, command@),
    {
        proof {
            use_type_invariant(&self.peers);
            lemma_text_entries_lookup(self.peers@, seq![]);
        }
        let mut actions: Vec<SwarmAction> = Vec::new();
        match command {
            SwarmCommand::BroadcastRRMessage { content } => {
                let n = self.peers.len();
                let mut i: usize = 0;
                while i < n
                    invariant
                        n == self.peers@.len(),
                        i <= n,
                        actions@.len() == i,
                        forall|j: int| 0 <= j < i ==> (#[trigger] actions@[j])@ == (SwarmActionView::SendRequest {
                            peer: self@.peers[j].0,
                            content: content@,
                        }),
                    decreases n - i,
                {
                    actions.push(
                        SwarmAction::SendRequest {
                            peer: clone_text(self.peers.key_at(i)),
                            content: clone_text(content),
                        },
                    );
                    i = i + 1;
                }
                assert(actions_view(actions@) =~= command_actions(self@.peers, command@));
            },
            SwarmCommand::SendRRMessage { to, content } => {
                actions.push(SwarmAction::SendRequest { peer: clone_text(to), content: clone_text(content) });
                let event = AppEvent::Swarm(
                    AppSwarmEvent::MessageSent { to: clone_text(to), content: clone_text(content) },
                );
                actions.push(SwarmAction::Emit { event });
                assert(actions_view(actions@) =~= command_actions(self@.peers, command@));
            },
            SwarmCommand::BroadcastGossipMessage { content } => {
                actions.push(
                    SwarmAction::Publish { topic: owned(BROADCAST_TOPIC), content: clone_text(content) },
                );
                assert(actions_view(actions@) =~= command_actions(self@.peers, command@));
            },
            SwarmCommand::PublishTopic { topic, content } => {
                actions.push(
                    SwarmAction::Publish { topic: clone_text(topic), content: clone_text(content) },
                );
                assert(actions_view(actions@) =~= command_actions(self@.peers, command@));
            },
            SwarmCommand::SubscribeTopic { topic } => {
                actions.push(SwarmAction::Subscribe { topic: clone_text(topic) });
                assert(actions_view(actions@) =~= command_actions(self@.peers, command@));
            },
            SwarmCommand::ConnectToPeer { peer_id, address } => {
                actions.push(SwarmAction::Dial { peer: clone_text(peer_id), address: clone_text(address) });
                assert(actions_view(actions@) =~= command_actions(self@.peers, command@));
            },
            SwarmCommand::DisconnectFromPeer { peer_id } => {
                let ghost before = self@.peers;
                self.drop_peer(peer_id);
                actions.push(SwarmAction::Disconnect { peer: clone_text(peer_id) });
                let event = AppEvent::Swarm(AppSwarmEvent::PeerDisconnected { peer_id: clone_text(peer_id) });
                actions.push(SwarmAction::Emit { event });
                assert(actions_view(actions@) =~= command_actions(before, command@));
            },
        }
        actions
    }

    fn add_peer(&mut self, peer: String, address: String)
        ensures
            final(self)@.local_peer_id == old(self)@.local_peer_id,
            final(self)@.peers == inserted(old(self)@.peers, peer@, address@),
    {
        proof {
            use_type_invariant(&self.peers);
            lemma_text_entries_inserted(self.peers@, peer@, address);
        }
        let _ = self.peers.insert(peer, address);
    }

    fn drop_peer(&mut self, peer: &String)
        ensures
            final(self)@.local_peer_id == old(self)@.local_peer_id,
            final(self)@.peers == removed(old(self)@.peers, peer@),
    {
        proof {
            use_type_invariant(&self.peers);
            lemma_text_entries_removed(self.peers@, peer@);
        }
        let _ = self.peers.remove(peer.as_str());
    }
}

impl SwarmServer {
    /// Takes in a swarm event. A request is put on the bus as a message received and
    /// answered empty; discovered peers are recorded with their address and made explicit
    /// gossip peers; expired peers are forgotten, dropped as explicit peers and reported
    /// gone; a gossip message is counted and, when its bytes are UTF-8, put on the bus; a new
    /// connection records the peer's address; a closed connection forgets the peer and
    /// reports it gone. Other events change nothing.
    pub fn handle_swarm_event(&mut self, input: SwarmInput) -> (actions: Vec<SwarmAction>)
        ensures
            final(self)@.local_peer_id == old(self)@.local_peer_id,
            match input {
                SwarmInput::Request { content } => final(self)@.peers == old(self)@.peers
                    && actions_view(actions@) == seq![
                    SwarmActionView::EmitCounted { event: received(old(self)@.local_peer_id, content@) },
                    SwarmActionView::RespondEmpty,
                ],
                SwarmInput::Discovered { peers } => final(self)@.peers == discover_all(
                    old(self)@.peers,
                    pairs_view(peers@),
                ) && actions_view(actions@) == discover_actions(pairs_view(peers@)),
                SwarmInput::Expired { peers } => final(self)@.peers == expire_all(
                    old(self)@.peers,
                    strings_view(peers@),
                ) && actions_view(actions@) == expire_actions(strings_view(peers@)),
                SwarmInput::GossipMessage { data } => final(self)@.peers == old(self)@.peers
                    && actions_view(actions@) == if valid_utf8(data@) {
                    seq![
                        SwarmActionView::Count { key: SWARM_GOSSIP_RECEIVED@ },
                        SwarmActionView::EmitCounted {
                            event: received(old(self)@.local_peer_id, decode_utf8(data@)),
                        },
                    ]
                } else {
                    seq![SwarmActionView::Count { key: SWARM_GOSSIP_RECEIVED@ }]
                },
                SwarmInput::ConnectionEstablished { peer, address } => final(self)@.peers == inserted(
                    old(self)@.peers,
                    peer@,
                    address@,
                ) && actions@.len() == 0,
                SwarmInput::ConnectionClosed { peer } => final(self)@.peers == removed(
                    old(self)@.peers,
                    peer@,
                ) && actions_view(actions@) == seq![SwarmActionView::Emit { event: peer_gone(peer@) }],
                _ => final(self)@.peers == old(self)@.peers && actions@.len() == 0,
            },
    {
        let mut actions: Vec<SwarmAction> = Vec::new();
        match input {
            SwarmInput::Request { content } => {
                let event = AppEvent::Swarm(
                    AppSwarmEvent::MessageReceived { from: clone_text(&self.local_peer_id), content },
                );
                actions.push(SwarmAction::EmitCounted { event });
                actions.push(SwarmAction::RespondEmpty);
                assert(actions_view(actions@) =~= seq![
                    SwarmActionView::EmitCounted { event: received(old(self)@.local_peer_id, content@) },
                    SwarmActionView::RespondEmpty,
                ]);
            },
            SwarmInput::Discovered { peers } => {
                let ghost found = pairs_view(peers@);
                let ghost start = self@.peers;
                let n = peers.len();
                let mut i: usize = 0;
                while i < n
                    invariant
                        n == peers@.len(),
                        found == pairs_view(peers@),
                        i <= n,
                        self@.local_peer_id == old(self)@.local_peer_id,
                        self@.peers == discover_all(start, found.take(i as int)),
                        actions_view(actions@) == discover_actions(found.take(i as int)),
                    decreases n - i,
                {
                    let peer = clone_text(&peers[i].0);
                    let address = clone_text(&peers[i].1);
                    let ghost before_actions = actions@;
                    self.add_peer(clone_text(&peer), address);
                    actions.push(SwarmAction::AddExplicitPeer { peer });
                    proof {
                        assert(found.take(i + 1).drop_last() =~= found.take(i as int));
                        assert(found.take(i + 1).last() == found[i as int]);
                        assert(actions_view(actions@) =~= actions_view(before_actions).push(
                            SwarmActionView::AddExplicitPeer { peer: found[i as int].0 },
                        ));
                        assert(discover_actions(found.take(i + 1)) =~= discover_actions(
                            found.take(i as int),
                        ).push(SwarmActionView::AddExplicitPeer { peer: found[i as int].0 }));
                    }
                    i = i + 1;
                }
                assert(found.take(n as int) =~= found);
            },
            SwarmInput::Expired { peers } => {
                let ghost gone = strings_view(peers@);
                let ghost start = self@.peers;
                let n = peers.len();
                let mut i: usize = 0;
                while i < n
                    invariant
                        n == peers@.len(),
                        gone == strings_view(peers@),
                        i <= n,
                        self@.local_peer_id == old(self)@.local_peer_id,
                        self@.peers == expire_all(start, gone.take(i as int)),
                        actions_view(actions@) == expire_actions(gone.take(i as int)),
                    decreases n - i,
                {
                    let peer = clone_text(&peers[i]);
                    let ghost before_actions = actions@;
                    self.drop_peer(&peer);
                    actions.push(SwarmAction::RemoveExplicitPeer { peer: clone_text(&peer) });
                    actions.push(
                        SwarmAction::Emit {
                            event: AppEvent::Swarm(AppSwarmEvent::PeerDisconnected { peer_id: peer }),
                        },
                    );
                    proof {
                        assert(gone.take(i + 1).drop_last() =~= gone.take(i as int));
                        assert(gone.take(i + 1).last() == gone[i as int]);
                        assert(actions_view(actions@) =~= actions_view(before_actions) + seq![
                            SwarmActionView::RemoveExplicitPeer { peer: gone[i as int] },
                            SwarmActionView::Emit { event: peer_gone(gone[i as int]) },
                        ]);
                    }
                    i = i + 1;
                }
                assert(gone.take(n as int) =~= gone);
            },
            SwarmInput::GossipMessage { data } => {
                actions.push(SwarmAction::Count { key: owned(SWARM_GOSSIP_RECEIVED) });
                let ghost bytes = data@;
                match utf8_text(data) {
                    Some(text) => {
                        let event = AppEvent::Swarm(
                            AppSwarmEvent::MessageReceived { from: clone_text(&self.local_peer_id), content: text },
                        );
                        actions.push(SwarmAction::EmitCounted { event });
                        assert(actions_view(actions@) =~= seq![
                            SwarmActionView::Count { key: SWARM_GOSSIP_RECEIVED@ },
                            SwarmActionView::EmitCounted {
                                event: received(old(self)@.local_peer_id, decode_utf8(bytes)),
                            },
                        ]);
                    },
                    None => {
                        assert(actions_view(actions@) =~= seq![
                            SwarmActionView::Count { key: SWARM_GOSSIP_RECEIVED@ },
                        ]);
                    },
                }
            },
            SwarmInput::ConnectionEstablished { peer, address } => {
                self.add_peer(peer, address);
            },
            SwarmInput::ConnectionClosed { peer } => {
                self.drop_peer(&peer);
                actions.push(
                    SwarmAction::Emit {
                        event: AppEvent::Swarm(AppSwarmEvent::PeerDisconnected { peer_id: peer }),
                    },
                );
                assert(actions_view(actions@) =~= seq![SwarmActionView::Emit { event: peer_gone(peer@) }]);
            },
            _ => {},
        }
        actions
    }
}

/// The counter that a carried-out action adds to: a publish that succeeded counts under
/// `gossip_sent`, a counted event that a listener took counts under
/// `event_tx:MessageReceived`; nothing else counts here.
pub fn count_after(action: &SwarmAction, succeeded: bool) -> (count: Option<String>)
    ensures
        count matches Some(k) ==> succeeded,
        succeeded && action is Publish ==> (count matches Some(k) && k@ == SWARM_GOSSIP_SENT@),
        succeeded && action is EmitCounted ==> (count matches Some(k) && k@
            == SWARM_TX_MESSAGE_RECEIVED@),
        !(action is Publish || action is EmitCounted) ==> count is None,
{
    if !succeeded {
        return None;
    }
    match action {
        SwarmAction::Publish { .. } => Some(owned(SWARM_GOSSIP_SENT)),
        SwarmAction::EmitCounted { .. } => Some(owned(SWARM_TX_MESSAGE_RECEIVED)),
        _ => None,
    }
}

/// After a connection to a peer is made its address is known; after that connection
/// closes the peer is forgotten, and the other peers keep their addresses.
pub proof fn law_peer_forgotten_after_close(
    peers: Seq<(Seq<char>, Seq<char>)>,
    peer: Seq<char>,
    address: Seq<char>,
    other: Seq<char>,
)
    requires
        keys_distinct(peers),
    ensures
        crate::string_map::lookup(inserted(peers, peer, address), peer) == Some(address),
        crate::string_map::lookup(removed(inserted(peers, peer, address), peer), peer) is None,
        other != peer ==> crate::string_map::lookup(removed(inserted(peers, peer, address), peer), other)
            == crate::string_map::lookup(peers, other),
{
    crate::string_map::law_lookup_after_insert(peers, peer, address, other);
    crate::string_map::law_lookup_after_remove(inserted(peers, peer, address), peer, other);
}


/// A request-response broadcast sends the content once to each known peer, in the order
/// the peers are known, and to no other peer.
pub proof fn law_broadcast_request_once(peers: Seq<(Seq<char>, Seq<char>)>, content: Seq<char>, peer: Seq<char>)
    requires
        keys_distinct(peers),
    ensures
        command_actions(peers, SwarmCommandView::BroadcastRRMessage { content }).len() == peers.len(),
        forall|i: int|
            0 <= i < peers.len() ==> command_actions(peers, SwarmCommandView::BroadcastRRMessage { content })[i]
                == (SwarmActionView::SendRequest { peer: (#[trigger] peers[i]).0, content }),
        has_key(peers, peer) ==> exists|i: int|
            0 <= i < peers.len() && #[trigger] command_actions(peers, SwarmCommandView::BroadcastRRMessage { content })[i]
                == (SwarmActionView::SendRequest { peer, content }),
        forall|i: int, j: int|
            0 <= i < peers.len() && 0 <= j < peers.len()
                && #[trigger] command_actions(peers, SwarmCommandView::BroadcastRRMessage { content })[i]
                == (SwarmActionView::SendRequest { peer, content })
                && #[trigger] command_actions(peers, SwarmCommandView::BroadcastRRMessage { content })[j]
                == (SwarmActionView::SendRequest { peer, content }) ==> i == j,
        !has_key(peers, peer) ==> forall|i: int|
            0 <= i < peers.len() ==> !(#[trigger] command_actions(
                peers,
                SwarmCommandView::BroadcastRRMessage { content },
            )[i] matches SwarmActionView::SendRequest { peer: p, .. } && p == peer),
{
    let acts = command_actions(peers, SwarmCommandView::BroadcastRRMessage { content });
    assert forall|i: int, j: int|
        0 <= i < peers.len() && 0 <= j < peers.len() && #[trigger] acts[i] == (SwarmActionView::SendRequest {
            peer,
            content,
        }) && #[trigger] acts[j] == (SwarmActionView::SendRequest { peer, content }) implies i == j by {
        assert(peers[i].0 == peer);
        assert(peers[j].0 == peer);
    }
    if has_key(peers, peer) {
        let k = key_index(peers, peer);
        assert(acts[k] == (SwarmActionView::SendRequest { peer, content }));
    }
}

/// Disconnecting from a peer forgets it and reports it gone; the other peers keep their
/// addresses.
pub proof fn law_disconnect_forgets_peer(peers: Seq<(Seq<char>, Seq<char>)>, peer: Seq<char>, other: Seq<char>)
    requires
        keys_distinct(peers),
    ensures
        lookup(command_peers(peers, SwarmCommandView::DisconnectFromPeer { peer_id: peer }), peer) is None,
        other != peer ==> lookup(command_peers(peers, SwarmCommandView::DisconnectFromPeer { peer_id: peer }), other)
            == lookup(peers, other),
        command_actions(peers, SwarmCommandView::DisconnectFromPeer { peer_id: peer }).contains(
            SwarmActionView::Emit { event: peer_gone(peer) },
        ),
{
    crate::string_map::law_lookup_after_remove(peers, peer, other);
    assert(command_actions(peers, SwarmCommandView::DisconnectFromPeer { peer_id: peer })[1]
        == SwarmActionView::Emit { event: peer_gone(peer) });
}


/// After peers expire, each of them is unknown and every other peer keeps what was known
/// of it.
pub proof fn law_expired_peers_forgotten(peers: Seq<(Seq<char>, Seq<char>)>, gone: Seq<Seq<char>>, k: Seq<char>)
    requires
        keys_distinct(peers),
    ensures
        keys_distinct(expire_all(peers, gone)),
        lookup(expire_all(peers, gone), k) == if gone.contains(k) {
            None
        } else {
            lookup(peers, k)
        },
    decreases gone.len(),
{
    if gone.len() > 0 {
        let rest = gone.drop_last();
        law_expired_peers_forgotten(peers, rest, k);
        crate::string_map::law_lookup_after_remove(expire_all(peers, rest), gone.last(), k);
        if gone.contains(k) && k != gone.last() {
            let i = choose|i: int| 0 <= i < gone.len() && gone[i] == k;
            assert(rest[i] == k);
        }
        if rest.contains(k) {
            let i = choose|i: int| 0 <= i < rest.len() && rest[i] == k;
            assert(gone[i] == k);
        }
        assert(gone[gone.len() - 1] == gone.last());
    }
}

/// After peers are discovered, each of them is known, at the address found last for it;
/// every other peer keeps what was known of it.
pub proof fn law_discovered_peers_known(
    peers: Seq<(Seq<char>, Seq<char>)>,
    found: Seq<(Seq<char>, Seq<char>)>,
    k: Seq<char>,
)
    requires
        keys_distinct(peers),
    ensures
        keys_distinct(discover_all(peers, found)),
        forall|i: int|
            0 <= i < found.len() && found[i].0 == k && (forall|j: int| i < j < found.len() ==> found[j].0 != k)
                ==> lookup(discover_all(peers, found), k) == Some(#[trigger] found[i].1),
        (forall|i: int| 0 <= i < found.len() ==> (#[trigger] found[i]).0 != k) ==> lookup(
            discover_all(peers, found),
            k,
        ) == lookup(peers, k),
    decreases found.len(),
{
    if found.len() > 0 {
        let rest = found.drop_last();
        let n = found.len() - 1;
        law_discovered_peers_known(peers, rest, k);
        crate::string_map::law_lookup_after_insert(discover_all(peers, rest), found.last().0, found.last().1, k);
        assert forall|i: int|
            0 <= i < found.len() && found[i].0 == k && (forall|j: int| i < j < found.len() ==> found[j].0 != k)
                implies lookup(discover_all(peers, found), k) == Some(#[trigger] found[i].1) by {
            if i < n {
                assert(found[n].0 != k);
                assert(rest[i] == found[i]);
                assert forall|j: int| i < j < rest.len() implies rest[j].0 != k by {
                    assert(rest[j] == found[j]);
                }
            }
        }
        if forall|i: int| 0 <= i < found.len() ==> (#[trigger] found[i]).0 != k {
            assert(found[n].0 != k);
            assert forall|i: int| 0 <= i < rest.len() implies (#[trigger] rest[i]).0 != k by {
                assert(rest[i] == found[i]);
            }
        }
    }
}


/// What the swarm does for expired and discovered peers: each expired peer, in order,
/// stops being an explicit gossip peer and is reported gone (a `PeerDisconnected` event for
/// it); each discovered peer, in order, becomes an explicit gossip peer.
pub proof fn law_peer_actions(gone: Seq<Seq<char>>, found: Seq<(Seq<char>, Seq<char>)>)
    ensures
        expire_actions(gone).len() == 2 * gone.len(),
        forall|i: int|
            0 <= i < gone.len() ==> expire_actions(gone)[2 * i] == (SwarmActionView::RemoveExplicitPeer {
                peer: #[trigger] gone[i],
            }) && expire_actions(gone)[2 * i + 1] == (SwarmActionView::Emit {
                event: AppEventView::Swarm(AppSwarmEventView::PeerDisconnected { peer_id: gone[i] }),
            }),
        discover_actions(found).len() == found.len(),
        forall|i: int|
            0 <= i < found.len() ==> discover_actions(found)[i] == (SwarmActionView::AddExplicitPeer {
                peer: (#[trigger] found[i]).0,
            }),
    decreases gone.len(),
{
    if gone.len() > 0 {
        let rest = gone.drop_last();
        law_peer_actions(rest, found);
        let n = rest.len();
        assert forall|i: int| 0 <= i < gone.len() implies expire_actions(gone)[2 * i]
            == (SwarmActionView::RemoveExplicitPeer { peer: #[trigger] gone[i] }) && expire_actions(gone)[2 * i + 1]
            == (SwarmActionView::Emit {
            event: AppEventView::Swarm(AppSwarmEventView::PeerDisconnected { peer_id: gone[i] }),
        }) by {
            if i < n {
                assert(rest[i] == gone[i]);
            }
        }
    }
}

/// A request or a gossip message is put on the bus as a message received by this node,
/// with the content as it came; a peer gone and a message sent are reported as such.
pub proof fn law_swarm_event_texts(local: Seq<char>, content: Seq<char>, peer: Seq<char>)
    ensures
        received(local, content) == AppEventView::Swarm(
            AppSwarmEventView::MessageReceived { from: local, content },
        ),
        peer_gone(peer) == AppEventView::Swarm(AppSwarmEventView::PeerDisconnected { peer_id: peer }),
        message_sent(peer, content) == AppEventView::Swarm(
            AppSwarmEventView::MessageSent { to: peer, content },
        ),
{
}

} // verus!
