//! The JSON texts that the node sends: objects whose member names are quoted by
//! serde_json, in the compact form that `serde_json::to_string` writes.
use vstd::prelude::*;

use crate::text::{push_char, push_str};

verus! {

/// The lower-case hexadecimal digit of `n` (below 16).
pub open spec fn hex_digit(n: int) -> char {
    seq!['0', '1', '2', '3', '4', '5', '6', '7', '8', '9', 'a', 'b', 'c', 'd', 'e', 'f'][n]
}

/// How one character stands inside a JSON string: the quote and the backslash are
/// escaped with a backslash; backspace, tab, line feed, form feed and carriage return by
/// their short escapes; the other control characters below U+0020 as `\u00` and two
/// lower-case hexadecimal digits; every other character as itself.
pub open spec fn escaped_char(c: char) -> Seq<char> {
    if c == '"' {
        seq!['\\', '"']
    } else if c == '\\' {
        seq!['\\', '\\']
    } else if c == '\u{8}' {
        seq!['\\', 'b']
    } else if c == '\t' {
        seq!['\\', 't']
    } else if c == '\n' {
        seq!['\\', 'n']
    } else if c == '\u{c}' {
        seq!['\\', 'f']
    } else if c == '\r' {
        seq!['\\', 'r']
    } else if (c as u32) < 0x20 {
        seq!['\\', 'u', '0', '0', hex_digit((c as u32) as int / 16), hex_digit((c as u32) as int % 16)]
    } else {
        seq![c]
    }
}

/// The characters of `text` each as it stands inside a JSON string.
pub open spec fn escaped(text: Seq<char>) -> Seq<char>
    decreases text.len(),
{
    if text.len() == 0 {
        Seq::empty()
    } else {
        escaped(text.drop_last()) + escaped_char(text.last())
    }
}

/// The JSON string literal of `text`: its escaped characters between double quotes.
pub open spec fn json_string_literal(text: Seq<char>) -> Seq<char> {
    seq!['"'] + escaped(text) + seq!['"']
}

/// `serde_json::to_string(text)`: the string between double quotes, escaped by its
/// compact formatter (`format_escaped_str`, with the `ESCAPE` table and
/// `write_char_escape`) as `escaped_char` says. Serializing a `str` cannot fail (its
/// `Serialize` impl writes one string); the empty fallback is never taken.
#[verifier::external_body]
pub(crate) fn json_quote(text: &str) -> (quoted: String)
    ensures
        quoted@ == json_string_literal(text@),
{
    serde_json::to_string(text).unwrap_or_default()
}

/// What serde_json reads as the string member `key` of the JSON text `text`: present when
/// `text` parses as a JSON object whose member `key` is a string.
pub uninterp spec fn json_str_member(text: Seq<char>, key: Seq<char>) -> Option<Seq<char>>;

/// `serde_json::from_str::<Value>(text)`, then `Value::get(key)` and `Value::as_str` on
/// the value read: the string member `key` of the object in `text`, if there is one.
#[verifier::external_body]
pub(crate) fn json_string_member(text: &str, key: &str) -> (member: Option<String>)
    ensures
        member is Some <==> json_str_member(text@, key@) is Some,
        member matches Some(m) ==> json_str_member(text@, key@) == Some(m@),
{
    match serde_json::from_str::<serde_json::Value>(text) {
        Ok(value) => value.get(key).and_then(serde_json::Value::as_str).map(String::from),
        Err(_) => None,
    }
}

/// One member `"name":value` of an object; `value` is JSON text already.
pub open spec fn json_member(member: (Seq<char>, Seq<char>)) -> Seq<char> {
    json_string_literal(member.0) + seq![':'] + member.1
}

/// The members of an object, separated by commas.
pub open spec fn json_members(members: Seq<(Seq<char>, Seq<char>)>) -> Seq<char>
    decreases members.len(),
{
    if members.len() == 0 {
        Seq::empty()
    } else if members.len() == 1 {
        json_member(members[0])
    } else {
        json_members(members.drop_last()) + seq![','] + json_member(members.last())
    }
}

/// A JSON object with these members, in this order.
pub open spec fn json_object(members: Seq<(Seq<char>, Seq<char>)>) -> Seq<char> {
    seq!['{'] + json_members(members) + seq!['}']
}

/// The view of a list of members.
pub open spec fn members_view(members: Seq<(String, String)>) -> Seq<(Seq<char>, Seq<char>)> {
    members.map_values(|m: (String, String)| (m.0@, m.1@))
}

/// Writes a JSON object with the given members (name, JSON value text), in order.
pub fn json_object_text(members: &Vec<(String, String)>) -> (text: String)
    ensures
        text@ == json_object(members_view(members@)),
{
    let ghost mv = members_view(members@);
    let mut out = String::new();
    push_char(&mut out, '{');
    let n = members.len();
    let mut i: usize = 0;
    while i < n
        invariant
            n == members@.len(),
            mv == members_view(members@),
            i <= n,
            out@ == seq!['{'] + json_members(mv.take(i as int)),
        decreases n - i,
    {
        if i > 0 {
            push_char(&mut out, ',');
        }
        let name = json_quote(members[i].0.as_str());
        push_str(&mut out, name.as_str());
        push_char(&mut out, ':');
        push_str(&mut out, members[i].1.as_str());
        proof {
            assert(mv.take(i + 1).drop_last() =~= mv.take(i as int));
            assert(mv.take(i + 1).last() == mv[i as int]);
            if i == 0 {
                assert(mv.take(1) =~= seq![mv[0]]);
            }
        }
        assert(out@ =~= seq!['{'] + json_members(mv.take(i + 1)));
        i = i + 1;
    }
    push_char(&mut out, '}');
    assert(mv.take(n as int) =~= mv);
    out
}


/// Whether `c` stands for itself inside a JSON string.
pub open spec fn is_plain_char(c: char) -> bool {
    (c as u32) >= 0x20 && c != '"' && c != '\\'
}

/// Escaping works character by character: the escape of a concatenation is the
/// concatenation of the escapes.
pub proof fn lemma_escaped_concat(a: Seq<char>, b: Seq<char>)
    ensures
        escaped(a + b) == escaped(a) + escaped(b),
    decreases b.len(),
{
    if b.len() == 0 {
        assert(a + b =~= a);
        assert(escaped(a) + escaped(b) =~= escaped(a));
    } else {
        lemma_escaped_concat(a, b.drop_last());
        assert((a + b).drop_last() =~= a + b.drop_last());
        assert((a + b).last() == b.last());
        assert(escaped(a + b) =~= escaped(a) + escaped(b));
    }
}

/// Text without quotes, backslashes or control characters is its own escape.
pub proof fn lemma_escaped_plain(t: Seq<char>)
    requires
        forall|i: int| 0 <= i < t.len() ==> is_plain_char(#[trigger] t[i]),
    ensures
        escaped(t) == t,
    decreases t.len(),
{
    if t.len() > 0 {
        let p = t.drop_last();
        assert forall|i: int| 0 <= i < p.len() implies is_plain_char(#[trigger] p[i]) by {
            assert(p[i] == t[i]);
        }
        lemma_escaped_plain(p);
        assert(is_plain_char(t[t.len() - 1]));
        assert(escaped(t) =~= t);
    }
}

/// A JSON object of three members, written out.
pub proof fn lemma_three_members(a: (Seq<char>, Seq<char>), b: (Seq<char>, Seq<char>), c: (Seq<char>, Seq<char>))
    ensures
        json_object(seq![a, b, c]) == seq!['{'] + json_member(a) + seq![','] + json_member(b) + seq![',']
            + json_member(c) + seq!['}'],
{
    let m = seq![a, b, c];
    assert(m.drop_last() =~= seq![a, b]);
    assert(seq![a, b].drop_last() =~= seq![a]);
    assert(json_members(seq![a]) == json_member(a));
    assert(json_members(seq![a, b]) == json_member(a) + seq![','] + json_member(b));
    assert(json_object(m) =~= seq!['{'] + json_member(a) + seq![','] + json_member(b) + seq![',']
        + json_member(c) + seq!['}']);
}

} // verus!
