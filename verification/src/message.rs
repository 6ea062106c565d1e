//! A message between peers, with a random id and a timestamp.
use vstd::prelude::*;

use std::time::Instant;
use uuid::Uuid;
use vstd::arithmetic::power::pow;

use crate::json::hex_digit;

verus! {

/// `Uuid::new_v4`, as its 128 bits (`as_u128`, most significant digit first): random
/// bits with the version digit (the thirteenth hexadecimal digit) set to 4 and the
/// variant digit (the seventeenth) to one of 8, 9, a, b, as its mask
/// `0xFFFFFFFFFFFF4FFFBFFFFFFFFFFFFFFF` and its bits `0x40008000000000000000` set them.
/// Nothing more of the value is stated: it is random.
#[verifier::external_body]
fn random_uuid() -> (bits: u128)
    ensures
        uuid_nibble(bits, 12) == 4,
        8 <= uuid_nibble(bits, 16) <= 11,
{
    Uuid::new_v4().as_u128()
}

/// The `i`-th hexadecimal digit of a UUID's 128 bits, counted from the most significant.
pub open spec fn uuid_nibble(bits: u128, i: int) -> int {
    (bits as int / pow(16, (31 - i) as nat)) % 16
}

/// The 32 lower-case hexadecimal digits of a UUID's bits, most significant first.
pub open spec fn uuid_digits(bits: u128) -> Seq<char> {
    Seq::new(32, |i: int| hex_digit(uuid_nibble(bits, i)))
}

/// The hyphenated lower-case form of a UUID: its digits in groups of 8, 4, 4, 4 and 12
/// joined by hyphens.
pub open spec fn uuid_hyphenated(bits: u128) -> Seq<char> {
    let d = uuid_digits(bits);
    d.subrange(0, 8) + seq!['-'] + d.subrange(8, 12) + seq!['-'] + d.subrange(12, 16) + seq!['-']
        + d.subrange(16, 20) + seq!['-'] + d.subrange(20, 32)
}

/// Whether `c` is a lower-case hexadecimal digit.
pub open spec fn is_lower_hex(c: char) -> bool {
    ('0' <= c && c <= '9') || ('a' <= c && c <= 'f')
}

/// The hyphenated lower-case form of a UUID: 8-4-4-4-12 hexadecimal digits.
pub open spec fn is_hyphenated_uuid(s: Seq<char>) -> bool {
    &&& s.len() == 36
    &&& forall|i: int|
        0 <= i < 36 ==> if i == 8 || i == 13 || i == 18 || i == 23 {
            s[i] == '-'
        } else {
            is_lower_hex(#[trigger] s[i])
        }
}

/// The hyphenated form of a random (version 4, RFC 4122 variant) UUID: version digit `4`
/// and a variant digit among `8`, `9`, `a`, `b`.
pub open spec fn is_v4_uuid_text(s: Seq<char>) -> bool {
    &&& is_hyphenated_uuid(s)
    &&& s[14] == '4'
    &&& (s[19] == '8' || s[19] == '9' || s[19] == 'a' || s[19] == 'b')
}

/// `Uuid::from_u128(bits).to_string()`: its `Display` writes the hyphenated lower-case
/// form (`LowerHex`, `format_hyphenated`).
#[verifier::external_body]
fn uuid_text(bits: u128) -> (text: String)
    ensures
        text@ == uuid_hyphenated(bits),
{
    Uuid::from_u128(bits).to_string()
}

proof fn lemma_hex_digit(n: int)
    requires
        0 <= n < 16,
    ensures
        is_lower_hex(hex_digit(n)),
{
    let d = seq!['0', '1', '2', '3', '4', '5', '6', '7', '8', '9', 'a', 'b', 'c', 'd', 'e', 'f'];
    assert(hex_digit(n) == d[n]);
    assert(forall|k: int| 0 <= k < 16 ==> is_lower_hex(#[trigger] d[k]));
}

proof fn lemma_uuid_hyphenated(bits: u128)
    ensures
        is_hyphenated_uuid(uuid_hyphenated(bits)),
        uuid_hyphenated(bits)[14] == hex_digit(uuid_nibble(bits, 12)),
        uuid_hyphenated(bits)[19] == hex_digit(uuid_nibble(bits, 16)),
{
    let d = uuid_digits(bits);
    let s = uuid_hyphenated(bits);
    assert forall|i: int| 0 <= i < 32 implies is_lower_hex(#[trigger] d[i]) by {
        vstd::arithmetic::power::lemma_pow_positive(16, (31 - i) as nat);
        lemma_hex_digit(uuid_nibble(bits, i));
    }
    assert(s.len() == 36);
    assert forall|i: int| 0 <= i < 36 implies if i == 8 || i == 13 || i == 18 || i == 23 {
        s[i] == '-'
    } else {
        is_lower_hex(#[trigger] s[i])
    } by {
        if i < 8 {
            assert(s[i] == d[i]);
        } else if i == 8 {
        } else if i < 13 {
            assert(s[i] == d[i - 1]);
        } else if i == 13 {
        } else if i < 18 {
            assert(s[i] == d[i - 2]);
        } else if i == 18 {
        } else if i < 23 {
            assert(s[i] == d[i - 3]);
        } else if i == 23 {
        } else {
            assert(s[i] == d[i - 4]);
        }
    }
    assert(s[14] == d[12]);
    assert(s[19] == d[16]);
}

/// A fresh random UUID in hyphenated form, as a client or message id.
pub fn random_uuid_text() -> (id: String)
    ensures
        is_v4_uuid_text(id@),
{
    let bits = random_uuid();
    proof {
        lemma_uuid_hyphenated(bits);
        let d = seq!['0', '1', '2', '3', '4', '5', '6', '7', '8', '9', 'a', 'b', 'c', 'd', 'e', 'f'];
        assert(hex_digit(4) == d[4]);
        assert(hex_digit(8) == d[8]);
        assert(hex_digit(9) == d[9]);
        assert(hex_digit(10) == d[10]);
        assert(hex_digit(11) == d[11]);
    }
    uuid_text(bits)
}

#[verifier::external_type_specification]
#[verifier::external_body]
pub struct ExInstant(Instant);

/// `Instant::now`.
#[verifier::external_body]
fn instant_now() -> (now: Instant) {
    Instant::now()
}

/// `Instant::elapsed`, in whole seconds (`Duration::as_secs`); the clock decides it, so
/// nothing is stated.
#[verifier::external_body]
fn elapsed_secs(start: &Instant) -> (secs: u64) {
    start.elapsed().as_secs()
}

/// A message: a unique id, its sender, its content, and a timestamp in seconds.
#[derive(Debug, Clone, PartialEq, Eq)]
pub struct MyMessage {
    pub id: String,
    pub sender: String,
    pub content: String,
    pub timestamp: u64,
}

impl MyMessage {
    /// A new message from `sender` with `content`, with a fresh random (version 4) UUID as
    /// its id in hyphenated form; its timestamp is the whole seconds elapsed since an instant taken just before.
    pub fn new(sender: String, content: String) -> (m: Self)
        ensures
            m.sender@ == sender@,
            m.content@ == content@,
            is_v4_uuid_text(m.id@),
    {
        let id = random_uuid_text();
        let start = instant_now();
        MyMessage { id, sender, content, timestamp: elapsed_secs(&start) }
    }
}

} // verus!
