//! Statistics tables of the swarm and of the WebSocket server: counters stored as
//! decimal text under a name, as the statistics endpoint reports them.
use vstd::prelude::*;

use crate::json::{json_object, json_object_text, json_quote, json_string_literal, members_view};
use crate::string_map::{
    inserted, keys_distinct, lemma_text_entries_inserted, lemma_text_entries_lookup, lookup, text_entries,
    StringMap,
};
use crate::text::{i32_to_decimal, owned, parse_i32, parse_i32_spec, signed_decimal};

verus! {

/// Counter of messages put on the event bus by the swarm.
pub const SWARM_TX_MESSAGE_RECEIVED: &'static str = "event_tx:MessageReceived";

/// Counter of gossip messages published by the swarm.
pub const SWARM_GOSSIP_SENT: &'static str = "gossip_sent";

/// Counter of gossip messages received by the swarm.
pub const SWARM_GOSSIP_RECEIVED: &'static str = "gossip_received";

/// Counter of bus messages taken in by the WebSocket server.
pub const WS_RX_MESSAGE_RECEIVED: &'static str = "event_rx:MessageReceived";

/// Counter of messages sent to WebSocket clients.
pub const WS_MESSAGES_SENT: &'static str = "messages_sent";

/// Counter of messages received from WebSocket clients.
pub const WS_MESSAGES_RECEIVED: &'static str = "messages_received";

/// The count stored under `key`: its text read as an `i32`, or 0 where it is absent or
/// does not read as one.
pub open spec fn stat_count(s: Seq<(Seq<char>, Seq<char>)>, key: Seq<char>) -> int {
    match lookup(s, key) {
        Some(text) => match parse_i32_spec(text) {
            Some(n) => n as int,
            None => 0,
        },
        None => 0,
    }
}

/// A statistics table; its view is the sequence of (name, decimal text) entries.
pub struct Stats {
    table: StringMap<String>,
}

impl View for Stats {
    type V = Seq<(Seq<char>, Seq<char>)>;

    closed spec fn view(&self) -> Seq<(Seq<char>, Seq<char>)> {
        text_entries(self.table@)
    }
}

/// The members of the JSON object that reports a table: each counter as a JSON string.
pub open spec fn stats_members(s: Seq<(Seq<char>, Seq<char>)>) -> Seq<(Seq<char>, Seq<char>)> {
    s.map_values(|e: (Seq<char>, Seq<char>)| (e.0, json_string_literal(e.1)))
}

/// Counting once more under `key` adds one to its count, and every other counter keeps
/// its count.
pub proof fn law_count_after_increase(s: Seq<(Seq<char>, Seq<char>)>, key: Seq<char>, other: Seq<char>)
    requires
        keys_distinct(s),
        stat_count(s, key) < i32::MAX,
    ensures
        stat_count(inserted(s, key, signed_decimal(stat_count(s, key) + 1)), key) == stat_count(s, key) + 1,
        other != key ==> stat_count(inserted(s, key, signed_decimal(stat_count(s, key) + 1)), other)
            == stat_count(s, other),
{
    let c = stat_count(s, key);
    assert(i32::MIN <= c + 1 <= i32::MAX) by {
        match lookup(s, key) {
            Some(text) => {
                match parse_i32_spec(text) {
                    Some(n) => {},
                    None => {},
                }
            },
            None => {},
        }
    }
    let next = (c + 1) as i32;
    crate::text::law_parse_i32_of_decimal(next);
    crate::string_map::law_lookup_after_insert(s, key, signed_decimal(c + 1), other);
}

impl Stats {
    /// A table of three counters at "0", in this order.
    fn zeroed(a: &str, b: &str, c: &str) -> (s: Stats)
        requires
            a@ != b@ && a@ != c@ && b@ != c@,
        ensures
            s@ == seq![(a@, "0"@), (b@, "0"@), (c@, "0"@)],
    {
        let mut table: StringMap<String> = StringMap::new();
        let _ = table.insert(owned(a), owned("0"));
        assert(table@[0].0 == a@);
        let _ = table.insert(owned(b), owned("0"));
        assert(table@[1].0 == b@);
        let _ = table.insert(owned(c), owned("0"));
        let s = Stats { table };
        assert(s@ =~= seq![(a@, "0"@), (b@, "0"@), (c@, "0"@)]);
        s
    }

    /// The swarm's table: `event_tx:MessageReceived`, `gossip_sent` and
    /// `gossip_received`, all at "0".
    pub fn swarm_defaults() -> (s: Stats)
        ensures
            s@ == seq![
                (SWARM_TX_MESSAGE_RECEIVED@, "0"@),
                (SWARM_GOSSIP_SENT@, "0"@),
                (SWARM_GOSSIP_RECEIVED@, "0"@),
            ],
    {
        proof {
            reveal_strlit("event_tx:MessageReceived");
            reveal_strlit("gossip_sent");
            reveal_strlit("gossip_received");
            assert(SWARM_TX_MESSAGE_RECEIVED@.len() == 24);
            assert(SWARM_GOSSIP_SENT@.len() == 11);
            assert(SWARM_GOSSIP_RECEIVED@.len() == 15);
        }
        Stats::zeroed(SWARM_TX_MESSAGE_RECEIVED, SWARM_GOSSIP_SENT, SWARM_GOSSIP_RECEIVED)
    }

    /// The WebSocket server's table: `event_rx:MessageReceived`, `messages_sent` and
    /// `messages_received`, all at "0".
    pub fn ws_defaults() -> (s: Stats)
        ensures
            s@ == seq![
                (WS_RX_MESSAGE_RECEIVED@, "0"@),
                (WS_MESSAGES_SENT@, "0"@),
                (WS_MESSAGES_RECEIVED@, "0"@),
            ],
    {
        proof {
            reveal_strlit("event_rx:MessageReceived");
            reveal_strlit("messages_sent");
            reveal_strlit("messages_received");
            assert(WS_RX_MESSAGE_RECEIVED@.len() == 24);
            assert(WS_MESSAGES_SENT@.len() == 13);
            assert(WS_MESSAGES_RECEIVED@.len() == 17);
        }
        Stats::zeroed(WS_RX_MESSAGE_RECEIVED, WS_MESSAGES_SENT, WS_MESSAGES_RECEIVED)
    }

    /// The text stored under `key`.
    pub fn get(&self, key: &str) -> (v: Option<String>)
        ensures
            keys_distinct(self@),
            v is None <==> lookup(self@, key@) is None,
            v matches Some(t) ==> lookup(self@, key@) == Some(t@),
    {
        proof {
            use_type_invariant(&self.table);
            lemma_text_entries_lookup(self.table@, key@);
        }
        match self.table.get(key) {
            Some(t) => Some(t.clone()),
            None => None,
        }
    }

    /// The count stored under `key`.
    pub fn count(&self, key: &str) -> (n: i32)
        ensures
            n == stat_count(self@, key@),
    {
        match self.get(key) {
            Some(t) => match parse_i32(t.as_str()) {
                Some(n) => n,
                None => 0,
            },
            None => 0,
        }
    }

    /// Counts once more under `key`: reads its count (0 where it is absent or unreadable)
    /// and stores the count plus one as decimal text.
    pub fn increase_stats(&mut self, key: &str)
        requires
            stat_count(old(self)@, key@) < i32::MAX,
        ensures
            final(self)@ == inserted(old(self)@, key@, signed_decimal(stat_count(old(self)@, key@) + 1)),
    {
        proof {
            use_type_invariant(&self.table);
        }
        let current = self.count(key);
        let next = i32_to_decimal(current + 1);
        let ghost before = self.table@;
        let ghost text = next@;
        let _ = self.table.insert(owned(key), next);
        proof {
            lemma_text_entries_inserted(before, key@, next);
        }
    }

    /// Counts a gossip message published by the swarm.
    pub fn increase_sw_gossip_sent(&mut self)
        requires
            stat_count(old(self)@, SWARM_GOSSIP_SENT@) < i32::MAX,
        ensures
            final(self)@ == inserted(old(self)@, SWARM_GOSSIP_SENT@, signed_decimal(stat_count(old(self)@, SWARM_GOSSIP_SENT@) + 1)),
    {
        self.increase_stats(SWARM_GOSSIP_SENT);
    }

    /// Counts a gossip message received by the swarm.
    pub fn increase_sw_gossip_received(&mut self)
        requires
            stat_count(old(self)@, SWARM_GOSSIP_RECEIVED@) < i32::MAX,
        ensures
            final(self)@ == inserted(old(self)@, SWARM_GOSSIP_RECEIVED@, signed_decimal(stat_count(old(self)@, SWARM_GOSSIP_RECEIVED@) + 1)),
    {
        self.increase_stats(SWARM_GOSSIP_RECEIVED);
    }

    /// Counts a message that the swarm put on the event bus.
    pub fn increase_sw_tx_message_received(&mut self)
        requires
            stat_count(old(self)@, SWARM_TX_MESSAGE_RECEIVED@) < i32::MAX,
        ensures
            final(self)@ == inserted(old(self)@, SWARM_TX_MESSAGE_RECEIVED@, signed_decimal(stat_count(old(self)@, SWARM_TX_MESSAGE_RECEIVED@) + 1)),
    {
        self.increase_stats(SWARM_TX_MESSAGE_RECEIVED);
    }

    /// Counts a message sent to a WebSocket client.
    pub fn increase_ws_messages_sent(&mut self)
        requires
            stat_count(old(self)@, WS_MESSAGES_SENT@) < i32::MAX,
        ensures
            final(self)@ == inserted(old(self)@, WS_MESSAGES_SENT@, signed_decimal(stat_count(old(self)@, WS_MESSAGES_SENT@) + 1)),
    {
        self.increase_stats(WS_MESSAGES_SENT);
    }

    /// Counts a message received from a WebSocket client.
    pub fn increase_ws_messages_received(&mut self)
        requires
            stat_count(old(self)@, WS_MESSAGES_RECEIVED@) < i32::MAX,
        ensures
            final(self)@ == inserted(old(self)@, WS_MESSAGES_RECEIVED@, signed_decimal(stat_count(old(self)@, WS_MESSAGES_RECEIVED@) + 1)),
    {
        self.increase_stats(WS_MESSAGES_RECEIVED);
    }

    /// Counts a bus message taken in by the WebSocket server.
    pub fn increase_ws_rx_message_received(&mut self)
        requires
            stat_count(old(self)@, WS_RX_MESSAGE_RECEIVED@) < i32::MAX,
        ensures
            final(self)@ == inserted(old(self)@, WS_RX_MESSAGE_RECEIVED@, signed_decimal(stat_count(old(self)@, WS_RX_MESSAGE_RECEIVED@) + 1)),
    {
        self.increase_stats(WS_RX_MESSAGE_RECEIVED);
    }

    /// The table as a JSON object of strings, counters in table order.
    pub fn to_json(&self) -> (text: String)
        ensures
            text@ == json_object(stats_members(self@)),
    {
        let n = self.table.len();
        let mut members: Vec<(String, String)> = Vec::new();
        let mut i: usize = 0;
        while i < n
            invariant
                n == self.table@.len(),
                i <= n,
                members@.len() == i,
                forall|j: int|
                    0 <= j < i ==> (#[trigger] members@[j]).0@ == self.table@[j].0 && members@[j].1@
                        == json_string_literal(self.table@[j].1@),
            decreases n - i,
        {
            let name = self.table.key_at(i).clone();
            let value = json_quote(self.table.value_at(i).as_str());
            members.push((name, value));
            i = i + 1;
        }
        assert(members_view(members@) =~= stats_members(self@));
        json_object_text(&members)
    }
}

} // verus!
