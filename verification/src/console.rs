//! The standalone WebSocket bridge: its console commands and the JSON messages it sends
//! to web clients.
use vstd::prelude::*;

use crate::json::{
    escaped, is_plain_char, json_member, json_object, json_object_text, json_quote, json_str_member, json_string_literal,
    json_string_member, lemma_escaped_concat, lemma_escaped_plain, lemma_three_members, members_view,
};
use crate::text::{i64_to_decimal, owned, push_char, push_str, signed_decimal};

verus! {

/// Whether `c` is white space as `char::is_whitespace` says (Unicode `White_Space`).
pub open spec fn is_white_space(c: char) -> bool {
    ||| '\u{9}' <= c <= '\u{d}'
    ||| c == ' '
    ||| c == '\u{85}'
    ||| c == '\u{a0}'
    ||| c == '\u{1680}'
    ||| '\u{2000}' <= c <= '\u{200a}'
    ||| c == '\u{2028}'
    ||| c == '\u{2029}'
    ||| c == '\u{202f}'
    ||| c == '\u{205f}'
    ||| c == '\u{3000}'
}

/// `char::is_whitespace`.
pub fn is_white_space_char(c: char) -> (b: bool)
    ensures
        b == is_white_space(c),
{
    ('\u{9}' <= c && c <= '\u{d}') || c == ' ' || c == '\u{85}' || c == '\u{a0}' || c == '\u{1680}'
        || ('\u{2000}' <= c && c <= '\u{200a}') || c == '\u{2028}' || c == '\u{2029}' || c
        == '\u{202f}' || c == '\u{205f}' || c == '\u{3000}'
}

/// The words of `s`: its maximal runs of characters that are not white space, in order
/// (what `split_whitespace` yields).
pub open spec fn words(s: Seq<char>) -> Seq<Seq<char>>
    decreases s.len(),
{
    if s.len() == 0 {
        Seq::empty()
    } else {
        let w = words(s.drop_last());
        if is_white_space(s.last()) {
            w
        } else if s.len() >= 2 && !is_white_space(s[s.len() - 2]) && w.len() > 0 {
            w.update(w.len() - 1, w.last().push(s.last()))
        } else {
            w.push(seq![s.last()])
        }
    }
}

/// The texts joined with single spaces between them.
pub open spec fn join_spaced(parts: Seq<Seq<char>>) -> Seq<char>
    decreases parts.len(),
{
    if parts.len() == 0 {
        Seq::empty()
    } else if parts.len() == 1 {
        parts[0]
    } else {
        join_spaced(parts.drop_last()) + seq![' '] + parts.last()
    }
}

proof fn lemma_words_nonempty(s: Seq<char>)
    ensures
        forall|i: int| 0 <= i < words(s).len() ==> (#[trigger] words(s)[i]).len() > 0,
        s.len() > 0 && !is_white_space(s.last()) ==> words(s).len() > 0,
    decreases s.len(),
{
    if s.len() > 0 {
        let p = s.drop_last();
        lemma_words_nonempty(p);
        let w = words(p);
        let r = words(s);
        if is_white_space(s.last()) {
            assert(r == w);
        } else if s.len() >= 2 && !is_white_space(s[s.len() - 2]) && w.len() > 0 {
            assert forall|i: int| 0 <= i < r.len() implies (#[trigger] r[i]).len() > 0 by {
                if i < w.len() - 1 {
                    assert(r[i] == w[i]);
                }
            }
        } else {
            assert forall|i: int| 0 <= i < r.len() implies (#[trigger] r[i]).len() > 0 by {
                if i < w.len() {
                    assert(r[i] == w[i]);
                }
            }
        }
    }
}

/// Splits `line` into its words.
pub fn split_words(line: &str) -> (ws: Vec<String>)
    ensures
        ws@.map_values(|w: String| w@) == words(line@),
{
    let n = line.unicode_len();
    let mut ws: Vec<String> = Vec::new();
    let mut in_word = false;
    let mut i: usize = 0;
    while i < n
        invariant
            n == line@.len(),
            i <= n,
            ws@.map_values(|w: String| w@) == words(line@.take(i as int)),
            in_word == (i > 0 && !is_white_space(line@[i - 1])),
        decreases n - i,
    {
        let c = line.get_char(i);
        let ghost before = ws@;
        let ghost pre = line@.take(i as int);
        let ghost cur = line@.take(i + 1);
        proof {
            assert(cur.drop_last() =~= pre);
            assert(cur.last() == c);
            lemma_words_nonempty(pre);
            if i > 0 {
                assert(cur[cur.len() - 2] == line@[i - 1]);
                assert(pre.last() == line@[i - 1]);
            }
        }
        if is_white_space_char(c) {
            in_word = false;
        } else if in_word {
            let last = ws.len() - 1;
            let mut word = ws.remove(last);
            push_char(&mut word, c);
            ws.push(word);
            assert(ws@.map_values(|w: String| w@) =~= before.map_values(|w: String| w@).update(
                last as int,
                before.map_values(|w: String| w@).last().push(c),
            ));
            in_word = true;
        } else {
            let mut word = String::new();
            push_char(&mut word, c);
            ws.push(word);
            assert(ws@.map_values(|w: String| w@) =~= before.map_values(|w: String| w@).push(seq![c]));
            in_word = true;
        }
        i = i + 1;
    }
    assert(line@.take(n as int) =~= line@);
    ws
}

/// A console command of the bridge.
pub enum ConsoleCommand {
    /// `/broadcast` with words after it: send the JSON `message` carrying `content` (the
    /// words joined by single spaces) to every web client.
    Broadcast { content: String, message: String },
    /// `/broadcast` with nothing after it: nothing happens.
    EmptyBroadcast,
    /// `/clients`: list the connected web clients.
    ListClients,
    /// Anything else.
    Unknown,
}

/// The message broadcast from the console: `{"from":"server","message":…,"type":"broadcast"}`.
pub open spec fn broadcast_json(content: Seq<char>) -> Seq<char> {
    json_object(seq![
        ("from"@, json_string_literal("server"@)),
        ("message"@, json_string_literal(content)),
        ("type"@, json_string_literal("broadcast"@)),
    ])
}

fn string_member(name: &str, value: &str) -> (m: (String, String))
    ensures
        m.0@ == name@,
        m.1@ == json_string_literal(value@),
{
    (owned(name), json_quote(value))
}

fn three_members(a: (String, String), b: (String, String), c: (String, String)) -> (text: String)
    ensures
        text@ == json_object(seq![(a.0@, a.1@), (b.0@, b.1@), (c.0@, c.1@)]),
{
    let mut members: Vec<(String, String)> = Vec::new();
    let ghost (av, bv, cv) = ((a.0@, a.1@), (b.0@, b.1@), (c.0@, c.1@));
    members.push(a);
    members.push(b);
    members.push(c);
    assert(members_view(members@) =~= seq![av, bv, cv]);
    json_object_text(&members)
}

/// The message broadcast from the console for `content`.
pub fn broadcast_message(content: &str) -> (text: String)
    ensures
        text@ == broadcast_json(content@),
{
    three_members(
        string_member("from", "server"),
        string_member("message", content),
        string_member("type", "broadcast"),
    )
}

/// Reads a console line: `/broadcast` followed by words sends them, joined by single
/// spaces, to every web client; `/clients` lists the clients; anything else is unknown.
pub fn parse_console_line(line: &str) -> (cmd: ConsoleCommand)
    ensures
        ({
            let ws = words(line@);
            if ws.len() > 0 && ws[0] == "/broadcast"@ {
                if ws.len() > 1 {
                    cmd matches ConsoleCommand::Broadcast { content, message } && content@ == join_spaced(
                        ws.drop_first(),
                    ) && message@ == broadcast_json(content@)
                } else {
                    cmd is EmptyBroadcast
                }
            } else if ws.len() > 0 && ws[0] == "/clients"@ {
                cmd is ListClients
            } else {
                cmd is Unknown
            }
        }),
{
    let ws = split_words(line);
    let ghost wv = ws@.map_values(|w: String| w@);
    assert(wv == words(line@));
    if ws.len() == 0 {
        return ConsoleCommand::Unknown;
    }
    assert(wv[0] == ws@[0]@);
    if ws[0] == owned("/broadcast") {
        if ws.len() > 1 {
            let mut content = ws[1].clone();
            let n = ws.len();
            let mut i: usize = 2;
            assert(wv.drop_first().take(1) =~= seq![wv[1]]);
            while i < n
                invariant
                    n == ws@.len(),
                    wv == ws@.map_values(|w: String| w@),
                    2 <= i <= n,
                    content@ == join_spaced(wv.drop_first().take(i - 1)),
                decreases n - i,
            {
                push_char(&mut content, ' ');
                push_str(&mut content, ws[i].as_str());
                proof {
                    let rest = wv.drop_first();
                    assert(rest.take(i as int).drop_last() =~= rest.take(i - 1));
                    assert(rest.take(i as int).last() == ws@[i as int]@);
                }
                i = i + 1;
            }
            assert(wv.drop_first().take(n - 1) =~= wv.drop_first());
            let message = broadcast_message(content.as_str());
            ConsoleCommand::Broadcast { content, message }
        } else {
            ConsoleCommand::EmptyBroadcast
        }
    } else if ws[0] == owned("/clients") {
        ConsoleCommand::ListClients
    } else {
        ConsoleCommand::Unknown
    }
}

/// The greeting sent to a new web client.
pub open spec fn welcome_json(client_id: Seq<char>) -> Seq<char> {
    json_object(seq![
        ("client_id"@, json_string_literal(client_id)),
        ("message"@, json_string_literal("Connected to libp2p WebSocket bridge"@)),
        ("type"@, json_string_literal("welcome"@)),
    ])
}

/// The greeting sent to a new web client:
/// `{"client_id":…,"message":"Connected to libp2p WebSocket bridge","type":"welcome"}`.
pub fn welcome_message(client_id: &str) -> (text: String)
    ensures
        text@ == welcome_json(client_id@),
{
    three_members(
        string_member("client_id", client_id),
        string_member("message", "Connected to libp2p WebSocket bridge"),
        string_member("type", "welcome"),
    )
}

/// The answer to a web client's message.
pub open spec fn reply_json(message: Seq<char>) -> Seq<char> {
    json_object(seq![
        ("from"@, json_string_literal("server"@)),
        ("message"@, json_string_literal("Server received: "@ + message)),
        ("type"@, json_string_literal("message_received"@)),
    ])
}

/// The answer to a web client's message `message`:
/// `{"from":"server","message":"Server received: …","type":"message_received"}`.
pub fn reply_message(message: &str) -> (text: String)
    ensures
        text@ == reply_json(message@),
{
    let mut echoed = owned("Server received: ");
    push_str(&mut echoed, message);
    three_members(
        string_member("from", "server"),
        string_member("message", echoed.as_str()),
        string_member("type", "message_received"),
    )
}

/// A web client's message and the answer it gets.
pub struct ClientMessage {
    pub message: String,
    pub reply: String,
}

/// What the bridge makes of a text frame from a web client: when the frame is a JSON
/// object with a string member `message`, that message and the answer to it; otherwise
/// nothing, and the frame is not answered.
pub fn web_client_reply(frame: &str) -> (r: Option<ClientMessage>)
    ensures
        r is Some <==> json_str_member(frame@, "message"@) is Some,
        r matches Some(c) ==> json_str_member(frame@, "message"@) == Some(c.message@)
            && c.reply@ == reply_json(c.message@),
{
    match json_string_member(frame, "message") {
        Some(message) => {
            let reply = reply_message(message.as_str());
            Some(ClientMessage { message, reply })
        },
        None => None,
    }
}

/// The benchmark server's answer to a request with counter `c` at time `ts`.
pub open spec fn benchmark_json(c: int, ts: int) -> Seq<char> {
    json_object(seq![("c"@, signed_decimal(c)), ("ts"@, signed_decimal(ts))])
}

/// A benchmark client's request: a counter to be echoed.
#[derive(Debug, Clone, Copy, PartialEq, Eq)]
pub struct Request {
    pub c: i32,
}

/// The benchmark server's answer to `request`, stamped with `ts` (seconds since the
/// epoch): `{"c":…,"ts":…}`.
pub fn benchmark_response(request: &Request, ts: i64) -> (text: String)
    ensures
        text@ == benchmark_json(request.c as int, ts as int),
{
    let mut members: Vec<(String, String)> = Vec::new();
    let cm = (owned("c"), i64_to_decimal(request.c as i64));
    let tm = (owned("ts"), i64_to_decimal(ts));
    let ghost (cv, tv) = ((cm.0@, cm.1@), (tm.0@, tm.1@));
    members.push(cm);
    members.push(tm);
    assert(members_view(members@) =~= seq![cv, tv]);
    json_object_text(&members)
}


/// The characters taken for white space are exactly the 25 code points of Unicode's
/// `White_Space` property (what `char::is_whitespace` tests); every other character,
/// punctuation among them, belongs to a word.
pub proof fn law_white_space_is_unicode(c: char)
    ensures
        is_white_space(c) <==> seq![0x9u32, 0xau32, 0xbu32, 0xcu32, 0xdu32, 0x20u32, 0x85u32, 0xa0u32, 0x1680u32, 0x2000u32, 0x2001u32, 0x2002u32, 0x2003u32, 0x2004u32, 0x2005u32, 0x2006u32, 0x2007u32, 0x2008u32, 0x2009u32, 0x200au32, 0x2028u32, 0x2029u32, 0x202fu32, 0x205fu32, 0x3000u32].contains(c as u32),
{
    let cps = seq![0x9u32, 0xau32, 0xbu32, 0xcu32, 0xdu32, 0x20u32, 0x85u32, 0xa0u32, 0x1680u32, 0x2000u32, 0x2001u32, 0x2002u32, 0x2003u32, 0x2004u32, 0x2005u32, 0x2006u32, 0x2007u32, 0x2008u32, 0x2009u32, 0x200au32, 0x2028u32, 0x2029u32, 0x202fu32, 0x205fu32, 0x3000u32];
    if is_white_space(c) {
        if c as u32 == 0x9 { assert(cps[0] == 0x9u32); }
        if c as u32 == 0xa { assert(cps[1] == 0xau32); }
        if c as u32 == 0xb { assert(cps[2] == 0xbu32); }
        if c as u32 == 0xc { assert(cps[3] == 0xcu32); }
        if c as u32 == 0xd { assert(cps[4] == 0xdu32); }
        if c as u32 == 0x20 { assert(cps[5] == 0x20u32); }
        if c as u32 == 0x85 { assert(cps[6] == 0x85u32); }
        if c as u32 == 0xa0 { assert(cps[7] == 0xa0u32); }
        if c as u32 == 0x1680 { assert(cps[8] == 0x1680u32); }
        if c as u32 == 0x2000 { assert(cps[9] == 0x2000u32); }
        if c as u32 == 0x2001 { assert(cps[10] == 0x2001u32); }
        if c as u32 == 0x2002 { assert(cps[11] == 0x2002u32); }
        if c as u32 == 0x2003 { assert(cps[12] == 0x2003u32); }
        if c as u32 == 0x2004 { assert(cps[13] == 0x2004u32); }
        if c as u32 == 0x2005 { assert(cps[14] == 0x2005u32); }
        if c as u32 == 0x2006 { assert(cps[15] == 0x2006u32); }
        if c as u32 == 0x2007 { assert(cps[16] == 0x2007u32); }
        if c as u32 == 0x2008 { assert(cps[17] == 0x2008u32); }
        if c as u32 == 0x2009 { assert(cps[18] == 0x2009u32); }
        if c as u32 == 0x200a { assert(cps[19] == 0x200au32); }
        if c as u32 == 0x2028 { assert(cps[20] == 0x2028u32); }
        if c as u32 == 0x2029 { assert(cps[21] == 0x2029u32); }
        if c as u32 == 0x202f { assert(cps[22] == 0x202fu32); }
        if c as u32 == 0x205f { assert(cps[23] == 0x205fu32); }
        if c as u32 == 0x3000 { assert(cps[24] == 0x3000u32); }
    }
    if cps.contains(c as u32) {
        let i = choose|i: int| 0 <= i < cps.len() && cps[i] == c as u32;
        assert(cps[i] == c as u32);
    }
}


/// The texts one after another.
pub open spec fn concat(parts: Seq<Seq<char>>) -> Seq<char>
    decreases parts.len(),
{
    if parts.len() == 0 {
        Seq::empty()
    } else {
        concat(parts.drop_last()) + parts.last()
    }
}

/// The number of places in `s` where a word begins: a character that is not white space
/// and either starts `s` or follows white space.
pub open spec fn word_starts(s: Seq<char>) -> nat
    decreases s.len(),
{
    if s.len() == 0 {
        0
    } else {
        word_starts(s.drop_last()) + if !is_white_space(s.last()) && (s.len() == 1 || is_white_space(
            s[s.len() - 2],
        )) {
            1nat
        } else {
            0nat
        }
    }
}

/// Splitting into words loses and adds nothing but white space: the words are non-empty,
/// hold no white space, one after another they are the characters of `s` that are not
/// white space, in order, and there is one word for each place where a word begins.
pub proof fn law_words_partition(s: Seq<char>)
    ensures
        forall|i: int| 0 <= i < words(s).len() ==> (#[trigger] words(s)[i]).len() > 0,
        forall|i: int, j: int|
            0 <= i < words(s).len() && 0 <= j < words(s)[i].len() ==> !is_white_space(
                #[trigger] words(s)[i][j],
            ),
        concat(words(s)) == s.filter(|c: char| !is_white_space(c)),
        words(s).len() == word_starts(s),
    decreases s.len(),
{
    lemma_words_nonempty(s);
    if s.len() > 0 {
        let p = s.drop_last();
        let c = s.last();
        law_words_partition(p);
        lemma_words_nonempty(p);
        let w = words(p);
        let r = words(s);
        reveal(Seq::filter);
        assert(s.filter(|c: char| !is_white_space(c)) == if !is_white_space(c) {
            p.filter(|c: char| !is_white_space(c)).push(c)
        } else {
            p.filter(|c: char| !is_white_space(c))
        });
        if is_white_space(c) {
        } else if s.len() >= 2 && !is_white_space(s[s.len() - 2]) && w.len() > 0 {
            let n = w.len();
            assert(r.drop_last() =~= w.drop_last());
            assert(r.last() == w.last().push(c));
            assert(concat(w) == concat(w.drop_last()) + w.last());
            assert(concat(r) =~= concat(w).push(c));
            assert forall|i: int, j: int| 0 <= i < r.len() && 0 <= j < r[i].len() implies !is_white_space(
                #[trigger] r[i][j],
            ) by {
                if i < n - 1 {
                    assert(r[i] == w[i]);
                } else if j < w[i].len() {
                    assert(r[i][j] == w[i][j]);
                }
            }
        } else {
            if s.len() >= 2 && !is_white_space(s[s.len() - 2]) {
                assert(p.last() == s[s.len() - 2]);
            }
            assert(r.drop_last() =~= w);
            assert(concat(r) =~= concat(w).push(c));
            assert forall|i: int, j: int| 0 <= i < r.len() && 0 <= j < r[i].len() implies !is_white_space(
                #[trigger] r[i][j],
            ) by {
                if i < w.len() {
                    assert(r[i] == w[i]);
                }
            }
        }
    }
}


/// The answer to a web client echoes its whole message, escaped, after
/// "Server received: ", with the reply's sender and type.
pub proof fn law_reply_echoes_message(message: Seq<char>)
    ensures
        reply_json(message) == "{\"from\":\"server\",\"message\":\"Server received: "@ + escaped(message)
            + "\",\"type\":\"message_received\"}"@,
{
    lemma_plain_literals();
    lemma_escaped_concat("Server received: "@, message);
    let e = escaped(message);
    let a = ("from"@, json_string_literal("server"@));
    let b = ("message"@, json_string_literal("Server received: "@ + message));
    let c = ("type"@, json_string_literal("message_received"@));
    lemma_three_members(a, b, c);
    reveal_strlit("from");
    reveal_strlit("server");
    reveal_strlit("message");
    reveal_strlit("type");
    reveal_strlit("Server received: ");
    reveal_strlit("message_received");
    reveal_strlit("broadcast");
    reveal_strlit("client_id");
    reveal_strlit("Connected to libp2p WebSocket bridge");
    reveal_strlit("welcome");
    let pre = seq!['{'] + json_member(a) + seq![','] + json_string_literal("message"@) + seq![':', '"']
        + "Server received: "@;
    let post = seq!['"', ','] + json_member(c) + seq!['}'];
    assert(reply_json(message) =~= pre + e + post);
    reveal_strlit("{\"from\":\"server\",\"message\":\"Server received: ");
    reveal_strlit("\",\"type\":\"message_received\"}");
    assert(pre =~= "{\"from\":\"server\",\"message\":\"Server received: "@);
    assert(post =~= "\",\"type\":\"message_received\"}"@);
}

/// A console broadcast carries the console's words, escaped, as its message, from the
/// server, of type broadcast.
pub proof fn law_broadcast_carries_content(content: Seq<char>)
    ensures
        broadcast_json(content) == "{\"from\":\"server\",\"message\":\""@ + escaped(content)
            + "\",\"type\":\"broadcast\"}"@,
{
    lemma_plain_literals();
    let e = escaped(content);
    let a = ("from"@, json_string_literal("server"@));
    let b = ("message"@, json_string_literal(content));
    let c = ("type"@, json_string_literal("broadcast"@));
    lemma_three_members(a, b, c);
    reveal_strlit("from");
    reveal_strlit("server");
    reveal_strlit("message");
    reveal_strlit("type");
    reveal_strlit("Server received: ");
    reveal_strlit("message_received");
    reveal_strlit("broadcast");
    reveal_strlit("client_id");
    reveal_strlit("Connected to libp2p WebSocket bridge");
    reveal_strlit("welcome");
    let pre = seq!['{'] + json_member(a) + seq![','] + json_string_literal("message"@) + seq![':', '"'];
    let post = seq!['"', ','] + json_member(c) + seq!['}'];
    assert(broadcast_json(content) =~= pre + e + post);
    reveal_strlit("{\"from\":\"server\",\"message\":\"");
    reveal_strlit("\",\"type\":\"broadcast\"}");
    assert(pre =~= "{\"from\":\"server\",\"message\":\""@);
    assert(post =~= "\",\"type\":\"broadcast\"}"@);
}

/// The greeting names the new client, escaped, and says it is connected to the bridge.
pub proof fn law_welcome_names_client(client_id: Seq<char>)
    ensures
        welcome_json(client_id) == "{\"client_id\":\""@ + escaped(client_id)
            + "\",\"message\":\"Connected to libp2p WebSocket bridge\",\"type\":\"welcome\"}"@,
{
    lemma_plain_literals();
    let e = escaped(client_id);
    let a = ("client_id"@, json_string_literal(client_id));
    let b = ("message"@, json_string_literal("Connected to libp2p WebSocket bridge"@));
    let c = ("type"@, json_string_literal("welcome"@));
    lemma_three_members(a, b, c);
    reveal_strlit("from");
    reveal_strlit("server");
    reveal_strlit("message");
    reveal_strlit("type");
    reveal_strlit("Server received: ");
    reveal_strlit("message_received");
    reveal_strlit("broadcast");
    reveal_strlit("client_id");
    reveal_strlit("Connected to libp2p WebSocket bridge");
    reveal_strlit("welcome");
    let pre = seq!['{'] + json_string_literal("client_id"@) + seq![':', '"'];
    let post = seq!['"', ','] + json_member(b) + seq![','] + json_member(c) + seq!['}'];
    assert(welcome_json(client_id) =~= pre + e + post);
    reveal_strlit("{\"client_id\":\"");
    reveal_strlit("\",\"message\":\"Connected to libp2p WebSocket bridge\",\"type\":\"welcome\"}");
    assert(pre =~= "{\"client_id\":\""@);
    assert(post =~= "\",\"message\":\"Connected to libp2p WebSocket bridge\",\"type\":\"welcome\"}"@);
}

/// The fixed texts of the bridge's messages need no escaping.
proof fn lemma_plain_literals()
    ensures
        escaped("from"@) == "from"@,
        escaped("server"@) == "server"@,
        escaped("message"@) == "message"@,
        escaped("type"@) == "type"@,
        escaped("Server received: "@) == "Server received: "@,
        escaped("message_received"@) == "message_received"@,
        escaped("broadcast"@) == "broadcast"@,
        escaped("client_id"@) == "client_id"@,
        escaped("Connected to libp2p WebSocket bridge"@) == "Connected to libp2p WebSocket bridge"@,
        escaped("welcome"@) == "welcome"@,
{
    reveal_strlit("from");
    assert forall|i: int| 0 <= i < "from"@.len() implies is_plain_char(#[trigger] "from"@[i]) by {}
    lemma_escaped_plain("from"@);
    reveal_strlit("server");
    assert forall|i: int| 0 <= i < "server"@.len() implies is_plain_char(#[trigger] "server"@[i]) by {}
    lemma_escaped_plain("server"@);
    reveal_strlit("message");
    assert forall|i: int| 0 <= i < "message"@.len() implies is_plain_char(#[trigger] "message"@[i]) by {}
    lemma_escaped_plain("message"@);
    reveal_strlit("type");
    assert forall|i: int| 0 <= i < "type"@.len() implies is_plain_char(#[trigger] "type"@[i]) by {}
    lemma_escaped_plain("type"@);
    reveal_strlit("Server received: ");
    assert forall|i: int| 0 <= i < "Server received: "@.len() implies is_plain_char(#[trigger] "Server received: "@[i]) by {}
    lemma_escaped_plain("Server received: "@);
    reveal_strlit("message_received");
    assert forall|i: int| 0 <= i < "message_received"@.len() implies is_plain_char(#[trigger] "message_received"@[i]) by {}
    lemma_escaped_plain("message_received"@);
    reveal_strlit("broadcast");
    assert forall|i: int| 0 <= i < "broadcast"@.len() implies is_plain_char(#[trigger] "broadcast"@[i]) by {}
    lemma_escaped_plain("broadcast"@);
    reveal_strlit("client_id");
    assert forall|i: int| 0 <= i < "client_id"@.len() implies is_plain_char(#[trigger] "client_id"@[i]) by {}
    lemma_escaped_plain("client_id"@);
    reveal_strlit("Connected to libp2p WebSocket bridge");
    assert forall|i: int| 0 <= i < "Connected to libp2p WebSocket bridge"@.len() implies is_plain_char(#[trigger] "Connected to libp2p WebSocket bridge"@[i]) by {}
    lemma_escaped_plain("Connected to libp2p WebSocket bridge"@);
    reveal_strlit("welcome");
    assert forall|i: int| 0 <= i < "welcome"@.len() implies is_plain_char(#[trigger] "welcome"@[i]) by {}
    lemma_escaped_plain("welcome"@);
}



proof fn lemma_words_append_word(a: Seq<char>, x: Seq<char>, k: int)
    requires
        a.len() == 0 || is_white_space(a.last()),
        1 <= k <= x.len(),
        forall|j: int| 0 <= j < x.len() ==> !is_white_space(#[trigger] x[j]),
    ensures
        words(a + x.take(k)) == words(a).push(x.take(k)),
    decreases k,
{
    let s = a + x.take(k);
    assert(s.drop_last() =~= a + x.take(k - 1));
    assert(s.last() == x[k - 1]);
    if k == 1 {
        assert(a + x.take(0) =~= a);
        if s.len() >= 2 {
            assert(s[s.len() - 2] == a.last());
        }
        assert(x.take(1) =~= seq![x[0]]);
    } else {
        lemma_words_append_word(a, x, k - 1);
        assert(s[s.len() - 2] == x[k - 2]);
        let w = words(a + x.take(k - 1));
        assert(w.last() == x.take(k - 1));
        assert(x.take(k - 1).push(x[k - 1]) =~= x.take(k));
        assert(w.update(w.len() - 1, x.take(k)) =~= words(a).push(x.take(k)));
    }
}

/// Joining words with single spaces and splitting the result gives the words back.
pub proof fn law_split_undoes_join(parts: Seq<Seq<char>>)
    requires
        forall|i: int| 0 <= i < parts.len() ==> (#[trigger] parts[i]).len() > 0,
        forall|i: int, j: int|
            0 <= i < parts.len() && 0 <= j < parts[i].len() ==> !is_white_space(#[trigger] parts[i][j]),
    ensures
        words(join_spaced(parts)) == parts,
    decreases parts.len(),
{
    if parts.len() == 0 {
        assert(words(Seq::<char>::empty()) =~= Seq::<Seq<char>>::empty());
    } else {
        let x = parts.last();
        assert(x == parts[parts.len() - 1]);
        assert forall|j: int| 0 <= j < x.len() implies !is_white_space(#[trigger] x[j]) by {
            assert(x[j] == parts[parts.len() - 1][j]);
        }
        assert(x.take(x.len() as int) =~= x);
        if parts.len() == 1 {
            lemma_words_append_word(Seq::empty(), x, x.len() as int);
            assert(Seq::<char>::empty() + x =~= x);
            assert(words(Seq::<char>::empty()).push(x) =~= parts);
        } else {
            let p = parts.drop_last();
            assert forall|i: int| 0 <= i < p.len() implies (#[trigger] p[i]).len() > 0 by {
                assert(p[i] == parts[i]);
            }
            assert forall|i: int, j: int| 0 <= i < p.len() && 0 <= j < p[i].len() implies !is_white_space(
                #[trigger] p[i][j],
            ) by {
                assert(p[i] == parts[i]);
            }
            law_split_undoes_join(p);
            let a = join_spaced(p) + seq![' '];
            assert(a.drop_last() =~= join_spaced(p));
            assert(a.last() == ' ');
            assert(words(a) == words(join_spaced(p)));
            lemma_words_append_word(a, x, x.len() as int);
            assert(join_spaced(parts) =~= a + x);
            assert(p.push(x) =~= parts);
        }
    }
}


/// What a console line broadcasts is its words after the first, each kept whole and in
/// order: splitting the broadcast content gives exactly those words back.
pub proof fn law_console_broadcast_keeps_words(line: Seq<char>)
    ensures
        words(line).len() > 0 ==> words(join_spaced(words(line).drop_first())) == words(line).drop_first(),
{
    law_words_partition(line);
    let ws = words(line);
    if ws.len() == 0 {
        return;
    }
    let rest = ws.drop_first();
    assert forall|i: int| 0 <= i < rest.len() implies (#[trigger] rest[i]).len() > 0 by {
        assert(rest[i] == ws[i + 1]);
    }
    assert forall|i: int, j: int| 0 <= i < rest.len() && 0 <= j < rest[i].len() implies !is_white_space(
        #[trigger] rest[i][j],
    ) by {
        assert(rest[i] == ws[i + 1]);
        assert(rest[i][j] == ws[i + 1][j]);
    }
    law_split_undoes_join(rest);
}

} // verus!
