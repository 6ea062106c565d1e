//! A WebSocket client that sends one request, counts what the server sends back, and
//! reconnects with exponential backoff after a failed connection.
use vstd::prelude::*;

use crate::json::{json_object, json_object_text};
use crate::text::{decimal, owned};

verus! {

/// Attempts after which the client gives up.
pub const MAX_RECONNECT_ATTEMPTS: u32 = 10;

/// The client: the server's URL, what it has received and sent, and how many connection
/// attempts in a row have failed.
pub struct WebSocketClient {
    url: String,
    message_count: u64,
    sent_count: u64,
    reconnect_attempts: u32,
    max_reconnect_attempts: u32,
}

/// The model of a `WebSocketClient`.
pub struct WebSocketClientView {
    pub url: Seq<char>,
    pub message_count: nat,
    pub sent_count: nat,
    pub reconnect_attempts: nat,
    pub max_reconnect_attempts: nat,
}

impl View for WebSocketClient {
    type V = WebSocketClientView;

    closed spec fn view(&self) -> WebSocketClientView {
        WebSocketClientView {
            url: self.url@,
            message_count: self.message_count as nat,
            sent_count: self.sent_count as nat,
            reconnect_attempts: self.reconnect_attempts as nat,
            max_reconnect_attempts: self.max_reconnect_attempts as nat,
        }
    }
}

/// What the server sent over an open connection.
#[derive(Debug, Clone, Copy, PartialEq, Eq)]
pub enum IncomingFrame {
    Text,
    Close,
    Ping,
    Pong,
    Other,
    Error,
}

/// Whether to keep reading the connection.
#[derive(Debug, Clone, Copy, PartialEq, Eq)]
pub enum FrameAction {
    Continue,
    Stop,
}

/// How a connection attempt ended.
#[derive(Debug, Clone, Copy, PartialEq, Eq)]
pub enum ConnectionOutcome {
    /// The connection was made and later closed.
    Closed,
    /// The connection could not be made or broke with an error.
    Failed,
}

/// What to do after a connection attempt ended.
#[derive(Debug, Clone, Copy, PartialEq, Eq)]
pub enum ReconnectAction {
    /// Connect again at once.
    Reconnect,
    /// Wait this many seconds, then connect again.
    RetryAfter(u64),
    /// Stop and report the failure.
    GiveUp,
}

/// 2 to the power `n`.
pub open spec fn pow2(n: nat) -> nat
    decreases n,
{
    if n == 0 {
        1
    } else {
        2 * pow2((n - 1) as nat)
    }
}

/// The wait before attempt number `attempts + 1`: 2^attempts seconds, at most 64.
pub open spec fn backoff_secs(attempts: nat) -> nat {
    pow2(if attempts < 6 { attempts } else { 6 })
}

/// The count after one more, wrapping as `AtomicU64::fetch_add` does.
pub open spec fn wrapping_inc(n: nat) -> nat {
    if n == u64::MAX { 0 } else { n + 1 }
}

/// The request that opens a session: `{"c":1}`.
pub open spec fn initial_request() -> Seq<char> {
    json_object(seq![("c"@, decimal(1))])
}

impl WebSocketClient {
    /// A client of the server at `url`, with nothing counted yet.
    pub fn new(url: String) -> (c: Self)
        ensures
            c@ == (WebSocketClientView {
                url: url@,
                message_count: 0,
                sent_count: 0,
                reconnect_attempts: 0,
                max_reconnect_attempts: MAX_RECONNECT_ATTEMPTS as nat,
            }),
    {
        WebSocketClient {
            url,
            message_count: 0,
            sent_count: 0,
            reconnect_attempts: 0,
            max_reconnect_attempts: MAX_RECONNECT_ATTEMPTS,
        }
    }

    /// What every client holds: counts within their machine types, and the attempt limit
    /// and the failures in a row within `u32`.
    pub proof fn lemma_view_bounds(&self)
        ensures
            self@.message_count <= u64::MAX,
            self@.sent_count <= u64::MAX,
            self@.reconnect_attempts <= u32::MAX,
            self@.max_reconnect_attempts <= u32::MAX,
    {
    }

    /// The server's URL.
    pub fn url(&self) -> (u: &str)
        ensures
            u@ == self@.url,
    {
        self.url.as_str()
    }

    /// The number of text messages received.
    pub fn get_message_count(&self) -> (n: u64)
        ensures
            n == self@.message_count,
    {
        self.message_count
    }

    /// The number of messages sent.
    pub fn get_sent_count(&self) -> (n: u64)
        ensures
            n == self@.sent_count,
    {
        self.sent_count
    }

    /// The number of connection attempts in a row that failed.
    pub fn reconnect_attempts(&self) -> (n: u32)
        ensures
            n == self@.reconnect_attempts,
    {
        self.reconnect_attempts
    }

    /// Counts a message sent.
    pub fn record_sent(&mut self)
        ensures
            final(self)@ == (WebSocketClientView { sent_count: wrapping_inc(old(self)@.sent_count), ..old(self)@ }),
            final(self)@.sent_count == count_after_sends(old(self)@.sent_count, 1),
    {
        assert(count_after_sends(self@.sent_count, 0) == self@.sent_count);
        self.sent_count = self.sent_count.wrapping_add(1);
    }

    /// Takes in one frame of an open connection: text is counted, a close or an error ends
    /// the connection, anything else is passed over.
    pub fn handle_incoming(&mut self, frame: IncomingFrame) -> (action: FrameAction)
        ensures
            frame == IncomingFrame::Text ==> final(self)@ == (WebSocketClientView {
                message_count: wrapping_inc(old(self)@.message_count),
                ..old(self)@
            }),
            frame != IncomingFrame::Text ==> final(self)@ == old(self)@,
            final(self)@.message_count == count_after_frames(old(self)@.message_count, seq![frame]),
            action == (if frame == IncomingFrame::Close || frame == IncomingFrame::Error {
                FrameAction::Stop
            } else {
                FrameAction::Continue
            }),
    {
        assert(seq![frame].drop_last() =~= Seq::<IncomingFrame>::empty());
        assert(seq![frame].last() == frame);
        assert(count_after_frames(self@.message_count, Seq::empty()) == self@.message_count);
        match frame {
            IncomingFrame::Text => {
                self.message_count = self.message_count.wrapping_add(1);
                FrameAction::Continue
            },
            IncomingFrame::Close => FrameAction::Stop,
            IncomingFrame::Error => FrameAction::Stop,
            _ => FrameAction::Continue,
        }
    }

    /// Decides what follows a connection attempt. A connection that closed normally resets
    /// the failure count and is made again at once; a failure is counted, and the client
    /// gives up once the count reaches the limit, or else waits `backoff_secs` of the count.
    pub fn connection_ended(&mut self, outcome: ConnectionOutcome) -> (action: ReconnectAction)
        requires
            old(self)@.reconnect_attempts < u32::MAX,
        ensures
            outcome == ConnectionOutcome::Closed ==> final(self)@ == (WebSocketClientView {
                reconnect_attempts: 0,
                ..old(self)@
            }) && action == ReconnectAction::Reconnect,
            outcome == ConnectionOutcome::Failed ==> final(self)@ == (WebSocketClientView {
                reconnect_attempts: old(self)@.reconnect_attempts + 1,
                ..old(self)@
            }) && action == (if old(self)@.reconnect_attempts + 1 >= old(self)@.max_reconnect_attempts {
                ReconnectAction::GiveUp
            } else {
                ReconnectAction::RetryAfter(backoff_secs(old(self)@.reconnect_attempts + 1) as u64)
            }),
    {
        match outcome {
            ConnectionOutcome::Closed => {
                self.reconnect_attempts = 0;
                ReconnectAction::Reconnect
            },
            ConnectionOutcome::Failed => {
                self.reconnect_attempts = self.reconnect_attempts + 1;
                if self.reconnect_attempts >= self.max_reconnect_attempts {
                    ReconnectAction::GiveUp
                } else {
                    ReconnectAction::RetryAfter(backoff(self.reconnect_attempts))
                }
            },
        }
    }
}

/// `2_u64.pow(attempts.min(6))`.
pub fn backoff(attempts: u32) -> (secs: u64)
    ensures
        secs == backoff_secs(attempts as nat),
        1 <= secs <= 64,
{
    let e: u32 = if attempts < 6 { attempts } else { 6 };
    let mut secs: u64 = 1;
    let mut i: u32 = 0;
    while i < e
        invariant
            i <= e <= 6,
            secs == pow2(i as nat),
        decreases e - i,
    {
        assert(pow2((i + 1) as nat) == 2 * pow2(i as nat));
        proof {
            lemma_pow2_bound(i as nat);
        }
        secs = secs * 2;
        i = i + 1;
    }
    proof {
        lemma_pow2_bound(e as nat);
    }
    secs
}

proof fn lemma_pow2_bound(n: nat)
    requires
        n <= 6,
    ensures
        1 <= pow2(n) <= 64,
        n < 6 ==> pow2(n) <= 32,
{
    reveal_with_fuel(pow2, 7);
    if n == 0 {
    } else if n == 1 {
    } else if n == 2 {
    } else if n == 3 {
    } else if n == 4 {
    } else if n == 5 {
    } else {
    }
}

/// The request that opens a session, `{"c":1}`.
pub fn initial_request_text() -> (text: String)
    ensures
        text@ == initial_request(),
{
    let mut members: Vec<(String, String)> = Vec::new();
    members.push((owned("c"), crate::text::u128_to_decimal(1)));
    let text = json_object_text(&members);
    assert(crate::json::members_view(members@) =~= seq![("c"@, decimal(1))]);
    text
}

/// The wait doubles with each failure in a row, from 1 s, until it reaches 64 s, and
/// stays there.
pub proof fn law_backoff_doubles(attempts: nat)
    ensures
        backoff_secs(0) == 1,
        attempts < 6 ==> backoff_secs(attempts + 1) == 2 * backoff_secs(attempts),
        attempts >= 6 ==> backoff_secs(attempts) == 64,
        1 <= backoff_secs(attempts) <= 64,
{
    reveal_with_fuel(pow2, 7);
    if attempts < 6 {
        lemma_pow2_bound(attempts);
        lemma_pow2_bound(attempts + 1);
    } else {
        lemma_pow2_bound(6);
    }
}


/// The number of text frames among `frames`.
pub open spec fn text_frames(frames: Seq<IncomingFrame>) -> nat
    decreases frames.len(),
{
    if frames.len() == 0 {
        0
    } else {
        text_frames(frames.drop_last()) + if frames.last() == IncomingFrame::Text {
            1nat
        } else {
            0nat
        }
    }
}

/// The message count after taking in `frames` one by one from `n`, as `handle_incoming`
/// counts.
pub open spec fn count_after_frames(n: nat, frames: Seq<IncomingFrame>) -> nat
    decreases frames.len(),
{
    if frames.len() == 0 {
        n
    } else {
        let m = count_after_frames(n, frames.drop_last());
        if frames.last() == IncomingFrame::Text {
            wrapping_inc(m)
        } else {
            m
        }
    }
}

/// The sent count after `k` sends are recorded from `n`, as `record_sent` counts.
pub open spec fn count_after_sends(n: nat, k: nat) -> nat
    decreases k,
{
    if k == 0 {
        n
    } else {
        wrapping_inc(count_after_sends(n, (k - 1) as nat))
    }
}

proof fn lemma_wrapping_inc_mod(x: nat)
    ensures
        wrapping_inc(x % 0x1_0000_0000_0000_0000) == (x + 1) % 0x1_0000_0000_0000_0000,
{
    let big: int = 0x1_0000_0000_0000_0000;
    let m: int = x as int % big;
    vstd::arithmetic::div_mod::lemma_add_mod_noop(x as int, 1, big);
    vstd::arithmetic::div_mod::lemma_small_mod(1, big as nat);
    if m == u64::MAX {
        vstd::arithmetic::div_mod::lemma_mod_self_0(big);
    } else {
        vstd::arithmetic::div_mod::lemma_small_mod((m + 1) as nat, big as nat);
    }
}

/// The counters are tallies: from zero, the message count after any frames is the number
/// of text frames among them, and the sent count after `k` sends is `k`, both modulo 2^64
/// as the counters wrap.
pub proof fn law_counts_are_tallies(frames: Seq<IncomingFrame>, k: nat)
    ensures
        count_after_frames(0, frames) == text_frames(frames) % 0x1_0000_0000_0000_0000,
        count_after_sends(0, k) == k % 0x1_0000_0000_0000_0000,
    decreases frames.len() + k,
{
    if frames.len() > 0 {
        law_counts_are_tallies(frames.drop_last(), 0);
        if frames.last() == IncomingFrame::Text {
            lemma_wrapping_inc_mod(text_frames(frames.drop_last()));
        }
    } else {
        vstd::arithmetic::div_mod::lemma_small_mod(0, 0x1_0000_0000_0000_0000);
    }
    if k > 0 {
        law_counts_are_tallies(Seq::empty(), (k - 1) as nat);
        lemma_wrapping_inc_mod((k - 1) as nat);
    } else {
        vstd::arithmetic::div_mod::lemma_small_mod(0, 0x1_0000_0000_0000_0000);
    }
}

} // verus!
