//! Text helpers: decimal rendering and parsing of integers, and small string builders.
use vstd::prelude::*;
use vstd::string::*;
use vstd::utf8::{decode_utf8, valid_utf8};

verus! {

/// The ten decimal digits, in order.
pub open spec fn digit_char(d: nat) -> char {
    seq!['0', '1', '2', '3', '4', '5', '6', '7', '8', '9'][d as int]
}

/// Whether `c` is an ASCII decimal digit.
pub open spec fn is_digit(c: char) -> bool {
    '0' <= c && c <= '9'
}

/// The value of an ASCII decimal digit.
pub open spec fn digit_value(c: char) -> nat {
    ((c as u32) - ('0' as u32)) as nat
}

/// The shortest decimal rendering of a natural number, without sign.
pub open spec fn decimal(n: nat) -> Seq<char>
    decreases n,
{
    if n < 10 {
        seq![digit_char(n)]
    } else {
        decimal(n / 10).push(digit_char(n % 10))
    }
}

/// The decimal rendering of an integer: a minus sign before negative values.
pub open spec fn signed_decimal(i: int) -> Seq<char> {
    if i < 0 {
        seq!['-'] + decimal((-i) as nat)
    } else {
        decimal(i as nat)
    }
}

/// Appends one character to a `String` (`String::push`).
#[verifier::external_body]
pub(crate) fn push_char(s: &mut String, c: char)
    ensures
        final(s)@ == old(s)@.push(c),
{
    s.push(c);
}

/// A `String` holding the given text.
pub fn owned(s: &str) -> (r: String)
    ensures
        r@ == s@,
{
    String::from_str(s)
}

/// Appends `other` to `s`.
pub fn push_str(s: &mut String, other: &str)
    ensures
        final(s)@ == old(s)@ + other@,
{
    s.append(other);
}

fn digit_to_char(d: u8) -> (c: char)
    requires
        d < 10,
    ensures
        c == digit_char(d as nat),
{
    match d {
        0 => '0',
        1 => '1',
        2 => '2',
        3 => '3',
        4 => '4',
        5 => '5',
        6 => '6',
        7 => '7',
        8 => '8',
        _ => '9',
    }
}

/// Appends the decimal rendering of `n` to `out`.
pub fn append_decimal(out: &mut String, n: u128)
    ensures
        final(out)@ == old(out)@ + decimal(n as nat),
    decreases n,
{
    if n >= 10 {
        append_decimal(out, n / 10);
    }
    let d: u8 = (n % 10) as u8;
    push_char(out, digit_to_char(d));
    proof {
        assert(decimal(n as nat) == if n < 10 {
            seq![digit_char(n as nat)]
        } else {
            decimal((n / 10) as nat).push(digit_char((n % 10) as nat))
        });
    }
}

/// The decimal rendering of an unsigned number, as `to_string` gives it.
pub fn u128_to_decimal(n: u128) -> (r: String)
    ensures
        r@ == decimal(n as nat),
{
    let mut out = String::new();
    append_decimal(&mut out, n);
    out
}

/// The decimal rendering of a signed number, as `to_string` gives it.
pub fn i64_to_decimal(i: i64) -> (r: String)
    ensures
        r@ == signed_decimal(i as int),
{
    let mut out = String::new();
    if i < 0 {
        push_char(&mut out, '-');
        let magnitude: u128 = (-(i as i128)) as u128;
        append_decimal(&mut out, magnitude);
    } else {
        append_decimal(&mut out, i as u128);
    }
    out
}


/// The value of a sequence of decimal digits, most significant first.
pub open spec fn digits_value(s: Seq<char>) -> nat
    decreases s.len(),
{
    if s.len() == 0 {
        0
    } else {
        digits_value(s.drop_last()) * 10 + digit_value(s.last())
    }
}

/// Whether `s` is a non-empty run of ASCII decimal digits.
pub open spec fn all_digits(s: Seq<char>) -> bool {
    s.len() > 0 && forall|i: int| 0 <= i < s.len() ==> is_digit(#[trigger] s[i])
}

/// `s` without its leading `+` or `-` sign, if it has one.
pub open spec fn unsigned_part(s: Seq<char>) -> Seq<char> {
    if s.len() > 0 && (s[0] == '-' || s[0] == '+') { s.drop_first() } else { s }
}

/// What `str::parse::<i32>` gives for `s`: an optional `+` or `-` sign followed by
/// at least one decimal digit, whose value must fit in an `i32`.
pub open spec fn parse_i32_spec(s: Seq<char>) -> Option<i32> {
    let negative = s.len() > 0 && s[0] == '-';
    let body = unsigned_part(s);
    if all_digits(body) {
        let v: int = if negative { -(digits_value(body) as int) } else { digits_value(body) as int };
        if i32::MIN <= v && v <= i32::MAX { Some(v as i32) } else { None }
    } else {
        None
    }
}

proof fn lemma_digits_value_prefix(s: Seq<char>, k: int)
    requires
        0 <= k <= s.len(),
    ensures
        digits_value(s.take(k)) <= digits_value(s),
    decreases s.len(),
{
    if k < s.len() {
        assert(s.drop_last().take(k) =~= s.take(k));
        lemma_digits_value_prefix(s.drop_last(), k);
    } else {
        assert(s.take(k) =~= s);
    }
}

/// Parses a decimal `i32` as `str::parse::<i32>` does.
pub fn parse_i32(s: &str) -> (r: Option<i32>)
    ensures
        r == parse_i32_spec(s@),
{
    let n = s.unicode_len();
    if n == 0 {
        return None;
    }
    let first = s.get_char(0);
    let negative = first == '-';
    let start: usize = if first == '-' || first == '+' { 1 } else { 0 };
    let ghost body = if start == 1 { s@.drop_first() } else { s@ };
    assert(body == unsigned_part(s@));
    if start == n {
        assert(body.len() == 0);
        return None;
    }
    let mut acc: i64 = 0;
    let mut i: usize = start;
    while i < n
        invariant
            start <= i <= n,
            n == s@.len(),
            start == 0 || start == 1,
            body == unsigned_part(s@),
            negative == (s@[0] == '-'),
            s@.len() > 0,
            body =~= s@.subrange(start as int, n as int),
            acc as int == digits_value(body.take(i - start)),
            0 <= acc <= 2147483648,
            forall|j: int| 0 <= j < i - start ==> is_digit(#[trigger] body[j]),
        decreases n - i,
    {
        let c = s.get_char(i);
        assert(body[i - start] == c);
        if !('0' <= c && c <= '9') {
            assert(!is_digit(body[i - start]));
            assert(!all_digits(body));
            return None;
        }
        let d: i64 = (c as u32 - '0' as u32) as i64;
        proof {
            assert(body.take(i - start + 1).drop_last() =~= body.take(i - start));
            assert(body.take(i - start + 1).last() == c);
        }
        acc = acc * 10 + d;
        i = i + 1;
        assert(acc as int == digits_value(body.take(i - start)));
        if acc > 2147483648 {
            proof {
                lemma_digits_value_prefix(body, i - start);
                assert(digits_value(body) > 2147483648);
            }
            return None;
        }
    }
    proof {
        assert(body.take(i - start) =~= body);
    }
    if negative {
        Some((-acc) as i32)
    } else if acc <= 2147483647 {
        Some(acc as i32)
    } else {
        None
    }
}

/// Facts about one digit.
pub proof fn lemma_digit_char(d: nat)
    requires
        d < 10,
    ensures
        is_digit(digit_char(d)),
        digit_value(digit_char(d)) == d,
        digit_char(d) != '-' && digit_char(d) != '+',
{
    let digits = seq!['0', '1', '2', '3', '4', '5', '6', '7', '8', '9'];
    assert(digit_char(d) == digits[d as int]);
    if d == 0 { assert(digits[0] == '0'); }
    else if d == 1 { assert(digits[1] == '1'); }
    else if d == 2 { assert(digits[2] == '2'); }
    else if d == 3 { assert(digits[3] == '3'); }
    else if d == 4 { assert(digits[4] == '4'); }
    else if d == 5 { assert(digits[5] == '5'); }
    else if d == 6 { assert(digits[6] == '6'); }
    else if d == 7 { assert(digits[7] == '7'); }
    else if d == 8 { assert(digits[8] == '8'); }
    else { assert(digits[9] == '9'); }
}

/// A decimal rendering is a non-empty run of digits whose value is the number.
pub proof fn lemma_decimal_digits(n: nat)
    ensures
        all_digits(decimal(n)),
        digits_value(decimal(n)) == n,
    decreases n,
{
    if n < 10 {
        lemma_digit_char(n);
        let s = decimal(n);
        assert(s == seq![digit_char(n)]);
        assert(s.drop_last() =~= Seq::<char>::empty());
        assert(s.last() == digit_char(n));
        assert(digits_value(s) == digits_value(s.drop_last()) * 10 + digit_value(s.last()));
    } else {
        lemma_decimal_digits(n / 10);
        lemma_digit_char(n % 10);
        let s = decimal(n);
        assert(s.drop_last() =~= decimal(n / 10));
        assert(s.last() == digit_char(n % 10));
        assert(digits_value(s) == digits_value(decimal(n / 10)) * 10 + digit_value(digit_char(n % 10)));
        assert((n / 10) * 10 + n % 10 == n) by (nonlinear_arith);
        assert(digits_value(s) == n);
        assert(forall|i: int| 0 <= i < s.len() ==> is_digit(#[trigger] s[i])) by {
            assert forall|i: int| 0 <= i < s.len() implies is_digit(#[trigger] s[i]) by {
                if i < s.len() - 1 {
                    assert(s[i] == decimal(n / 10)[i]);
                }
            }
        }
    }
}

/// Reading back the decimal rendering of an `i32` gives the number: `parse::<i32>`
/// undoes `to_string`.
pub proof fn law_parse_i32_of_decimal(i: i32)
    ensures
        parse_i32_spec(signed_decimal(i as int)) == Some(i),
{
    if i < 0 {
        let m = (-(i as int)) as nat;
        lemma_decimal_digits(m);
        let s = signed_decimal(i as int);
        assert(s[0] == '-');
        assert(unsigned_part(s) =~= decimal(m));
    } else {
        let m = i as nat;
        lemma_decimal_digits(m);
        let s = decimal(m);
        lemma_digit_char_first(m);
        assert(unsigned_part(s) =~= s);
    }
}

/// A decimal rendering does not begin with a sign.
pub proof fn lemma_digit_char_first(n: nat)
    ensures
        decimal(n)[0] != '-' && decimal(n)[0] != '+',
    decreases n,
{
    lemma_decimal_digits(n);
    assert(is_digit(decimal(n)[0]));
}

/// The decimal rendering of an `i32`, as `to_string` gives it.
pub fn i32_to_decimal(i: i32) -> (r: String)
    ensures
        r@ == signed_decimal(i as int),
{
    i64_to_decimal(i as i64)
}

/// `String::from_utf8`: the text the bytes encode, or nothing when they are not UTF-8.
#[verifier::external_body]
pub(crate) fn utf8_text(bytes: Vec<u8>) -> (text: Option<String>)
    ensures
        text is Some <==> valid_utf8(bytes@),
        text matches Some(t) ==> t@ == decode_utf8(bytes@),
{
    String::from_utf8(bytes).ok()
}

/// `content` followed by a line break (what `append_line_to_file` writes).
pub fn with_newline(content: &str) -> (line: String)
    ensures
        line@ == content@.push('\n'),
{
    let mut line = owned(content);
    push_char(&mut line, '\n');
    line
}

} // verus!
