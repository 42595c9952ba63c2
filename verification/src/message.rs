//! What the ear controller reports over its serial line: short lines of text,
//! each in a buffer of fixed capacity.

use vstd::prelude::*;
use vstd::utf8::{encode_utf8, is_ascii_chars};

use crate::protocol::{
    comma_free, field_stands_in_white_space, field_value, fields_are_read_in_order, text_values,
};
use crate::text::{
    all_digits, decimal, decimal_denotes, decimal_text, decimal_width, is_digit, signed_decimal,
    signed_decimal_denotes, signed_text,
};

verus! {

/// `heapless::String`: text in a buffer of fixed capacity.
#[verifier::external_type_specification]
#[verifier::external_body]
pub struct ExFixedString<const N: usize>(heapless::String<N>);

/// The text that a message holds.
pub uninterp spec fn message_text(m: heapless::String<128>) -> Seq<char>;

/// `heapless::String::new`: a message that holds nothing.
#[verifier::external_body]
fn new_message() -> (m: heapless::String<128>)
    ensures
        message_text(m) == Seq::<char>::empty(),
{
    heapless::String::new()
}

/// `heapless::String::push_str`: puts `text` at the end of the message, where
/// both together take no more than its 128 bytes, and otherwise leaves the
/// message as it is and returns an error.
#[verifier::external_body]
fn push_text(m: &mut heapless::String<128>, text: &str) -> (r: Result<(), ()>)
    ensures
        r is Ok <==> encode_utf8(message_text(*old(m))).len() + encode_utf8(text@).len() <= 128,
        r is Ok ==> message_text(*final(m)) == message_text(*old(m)) + text@,
        r is Err ==> message_text(*final(m)) == message_text(*old(m)),
{
    m.push_str(text)
}

/// Puts ASCII text that fits at the end of an ASCII message.
fn append(m: &mut heapless::String<128>, text: &str)
    requires
        is_ascii_chars(message_text(*old(m))),
        is_ascii_chars(text@),
        message_text(*old(m)).len() + text@.len() <= 128,
    ensures
        is_ascii_chars(message_text(*final(m))),
        message_text(*final(m)) == message_text(*old(m)) + text@,
{
    proof {
        vstd::utf8::is_ascii_chars_encode_utf8(message_text(*m));
        vstd::utf8::is_ascii_chars_encode_utf8(text@);
        vstd::utf8::is_ascii_chars_concat(
            message_text(*m) + text@,
            message_text(*m),
            text@,
        );
    }
    let _ = push_text(m, text);
}

/// A message that holds `text`.
pub fn message_of(text: &str) -> (m: heapless::String<128>)
    requires
        is_ascii_chars(text@),
        text@.len() <= 128,
    ensures
        message_text(m) == text@,
{
    let mut m: heapless::String<128> = new_message();
    append(&mut m, text);
    assert(message_text(m) == text@);
    m
}

proof fn lemma_digits_ascii(s: Seq<char>)
    requires
        all_digits(s),
    ensures
        is_ascii_chars(s),
{
    assert forall|i: int| 0 <= i < s.len() implies 0 <= #[trigger] s[i] as nat <= 127 by {
        assert(is_digit(s[i]));
    }
}

/// Decimal text of a `u64` is ASCII and takes at most 20 characters.
proof fn lemma_decimal_ascii(n: u64)
    ensures
        is_ascii_chars(decimal(n as nat)),
        decimal(n as nat).len() <= 20,
{
    decimal_denotes(n as nat);
    lemma_digits_ascii(decimal(n as nat));
    assert(vstd::arithmetic::power::pow(10, 20) == 100_000_000_000_000_000_000) by {
        reveal_with_fuel(vstd::arithmetic::power::pow, 21);
    }
    decimal_width(n as nat, 20);
}

/// Decimal text of an `i32` is ASCII and takes at most 11 characters.
proof fn lemma_signed_ascii(v: i32)
    ensures
        is_ascii_chars(signed_decimal(v as int)),
        signed_decimal(v as int).len() <= 11,
{
    let n = if v < 0 {
        -v
    } else {
        v as int
    };
    decimal_denotes(n as nat);
    lemma_digits_ascii(decimal(n as nat));
    assert(vstd::arithmetic::power::pow(10, 10) == 10_000_000_000) by {
        reveal_with_fuel(vstd::arithmetic::power::pow, 11);
    }
    decimal_width(n as nat, 10);
    let s = signed_decimal(v as int);
    assert forall|i: int| 0 <= i < s.len() implies 0 <= #[trigger] s[i] as nat <= 127 by {
        if v < 0 && i > 0 {
            assert(s[i] == decimal(n as nat)[i - 1]);
        }
    }
}

/// Four values in decimal, with commas between them, and the end of the line.
pub open spec fn values_text(a: int, b: int, c: int, d: int) -> Seq<char> {
    signed_decimal(a) + seq![','] + signed_decimal(b) + seq![','] + signed_decimal(c) + seq![',']
        + signed_decimal(d) + seq!['\n']
}

/// The answer to a line with these values.
pub open spec fn ok_text(a: int, b: int, c: int, d: int) -> Seq<char> {
    "OK "@ + values_text(a, b, c, d)
}

/// The answer to a line without values.
pub open spec fn bad_text() -> Seq<char> {
    "BAD\n"@
}

/// The sign of life during the self-test: the seconds since boot and the four
/// inputs.
pub open spec fn sweep_text(s: nat, a: int, b: int, c: int, d: int) -> Seq<char> {
    "SWEEP t="@ + decimal(s) + "s t="@ + values_text(a, b, c, d)
}

/// Puts one value at the end of a message.
fn append_value(m: &mut heapless::String<128>, v: i32)
    requires
        is_ascii_chars(message_text(*old(m))),
        message_text(*old(m)).len() <= 117,
    ensures
        is_ascii_chars(message_text(*final(m))),
        message_text(*final(m)) == message_text(*old(m)) + signed_decimal(v as int),
        message_text(*final(m)).len() <= message_text(*old(m)).len() + 11,
{
    proof {
        lemma_signed_ascii(v);
    }
    append(m, signed_text(v).as_str());
}

/// Puts four values and the end of the line at the end of a message.
fn append_values(m: &mut heapless::String<128>, a: i32, b: i32, c: i32, d: i32)
    requires
        is_ascii_chars(message_text(*old(m))),
        message_text(*old(m)).len() <= 80,
    ensures
        message_text(*final(m)) == message_text(*old(m)) + values_text(
            a as int,
            b as int,
            c as int,
            d as int,
        ),
{
    proof {
        reveal_strlit(",");
        reveal_strlit("\n");
    }
    append_value(m, a);
    append(m, ",");
    append_value(m, b);
    append(m, ",");
    append_value(m, c);
    append(m, ",");
    append_value(m, d);
    append(m, "\n");
    assert(message_text(*m) == message_text(*old(m)) + values_text(
        a as int,
        b as int,
        c as int,
        d as int,
    ));
}

/// The answer to a line with these values.
pub fn ok_message(a: i32, b: i32, c: i32, d: i32) -> (m: heapless::String<128>)
    ensures
        message_text(m) == ok_text(a as int, b as int, c as int, d as int),
{
    proof {
        reveal_strlit("OK ");
    }
    let mut m: heapless::String<128> = message_of("OK ");
    append_values(&mut m, a, b, c, d);
    m
}

/// What the controller reports when it starts.
pub fn boot_message() -> (m: heapless::String<128>)
    ensures
        message_text(m) == "BOOT solcatears-fw v0.1\n"@,
{
    proof {
        reveal_strlit("BOOT solcatears-fw v0.1\n");
    }
    message_of("BOOT solcatears-fw v0.1\n")
}

/// The answer to a line without values.
pub fn bad_message() -> (m: heapless::String<128>)
    ensures
        message_text(m) == bad_text(),
{
    proof {
        reveal_strlit("BAD\n");
    }
    message_of("BAD\n")
}

/// The sign of life during the self-test, `s` seconds after boot, with the
/// inputs of the four channels.
pub fn sweep_message(s: u64, a: i32, b: i32, c: i32, d: i32) -> (m: heapless::String<128>)
    ensures
        message_text(m) == sweep_text(s as nat, a as int, b as int, c as int, d as int),
{
    proof {
        reveal_strlit("SWEEP t=");
        reveal_strlit("s t=");
        lemma_decimal_ascii(s);
    }
    let mut m: heapless::String<128> = message_of("SWEEP t=");
    append(&mut m, decimal_text(s).as_str());
    append(&mut m, "s t=");
    append_values(&mut m, a, b, c, d);
    m
}

/// What is answered to a line can be read as that line: after `OK ` stand its
/// four values, in order, without zeros in front.
pub proof fn answer_gives_values_back(a: i32, b: i32, c: i32, d: i32)
    ensures
        ({
            let s = ok_text(a as int, b as int, c as int, d as int);
            let n = s.len() as int;
            &&& s.take(3) == seq!['O', 'K', ' ']
            &&& text_values(s.subrange(3, n - 1)) == Some((a, b, c, d))
            &&& s[n - 1] == '\n'
            &&& n == 7 + signed_decimal(a as int).len() + signed_decimal(b as int).len()
                + signed_decimal(c as int).len() + signed_decimal(d as int).len()
        }),
{
    reveal_strlit("OK ");
    let s = ok_text(a as int, b as int, c as int, d as int);
    let n = s.len() as int;
    lemma_values_read(a, b, c, d);
    let v = values_text(a as int, b as int, c as int, d as int);
    assert(s.subrange(3, n - 1) == v.drop_last());
    assert(s.take(3) == seq!['O', 'K', ' ']);
}

/// The sign of life gives its second and its four inputs: both can be read.
pub proof fn sign_of_life_gives_values(s: nat, a: i32, b: i32, c: i32, d: i32)
    ensures
        ({
            let t = sweep_text(s, a as int, b as int, c as int, d as int);
            let k = 8 + decimal(s).len() as int;
            let n = t.len() as int;
            &&& t.take(8) == seq!['S', 'W', 'E', 'E', 'P', ' ', 't', '=']
            &&& t.subrange(8, k) == decimal(s)
            &&& t.subrange(k, k + 4) == seq!['s', ' ', 't', '=']
            &&& text_values(t.subrange(k + 4, n - 1)) == Some((a, b, c, d))
            &&& t[n - 1] == '\n'
            &&& n == k + 8 + signed_decimal(a as int).len() + signed_decimal(b as int).len()
                + signed_decimal(c as int).len() + signed_decimal(d as int).len()
        }),
{
    reveal_strlit("SWEEP t=");
    reveal_strlit("s t=");
    let t = sweep_text(s, a as int, b as int, c as int, d as int);
    let k = 8 + decimal(s).len() as int;
    let n = t.len() as int;
    lemma_values_read(a, b, c, d);
    let v = values_text(a as int, b as int, c as int, d as int);
    assert(t.take(8) == seq!['S', 'W', 'E', 'E', 'P', ' ', 't', '=']);
    assert(t.subrange(8, k) == decimal(s));
    assert(t.subrange(k, k + 4) == seq!['s', ' ', 't', '=']);
    assert(t.subrange(k + 4, n - 1) == v.drop_last());
}

/// A value in decimal is a field with that value.
proof fn lemma_signed_field(v: i32)
    ensures
        comma_free(signed_decimal(v as int)),
        field_value(signed_decimal(v as int)) == Some(v),
        signed_decimal(v as int).len() > 0,
        signed_decimal(v as int).last() != '\r',
{
    let s = signed_decimal(v as int);
    let m = if v < 0 {
        -v
    } else {
        v as int
    };
    let d = decimal(m as nat);
    decimal_denotes(m as nat);
    signed_decimal_denotes(v as int);
    assert forall|i: int| 0 <= i < s.len() implies is_digit(#[trigger] s[i]) || s[i] == '-' by {
        let k = i - (s.len() - d.len());
        if k >= 0 {
            assert(s[i] == d[k]);
        }
    }
    assert(is_digit(s[0]) || s[0] == '-');
    assert(is_digit(s[s.len() - 1]) || s[s.len() - 1] == '-');
    field_stands_in_white_space(s, 0, s.len() as int);
    assert(s.subrange(0, s.len() as int) == s);
}

proof fn lemma_values_read(a: i32, b: i32, c: i32, d: i32)
    ensures
        text_values(values_text(a as int, b as int, c as int, d as int).drop_last()) == Some(
            (a, b, c, d),
        ),
        values_text(a as int, b as int, c as int, d as int).last() == '\n',
        values_text(a as int, b as int, c as int, d as int).len() == 4 + signed_decimal(
            a as int,
        ).len() + signed_decimal(b as int).len() + signed_decimal(c as int).len() + signed_decimal(
            d as int,
        ).len(),
{
    lemma_signed_field(a);
    lemma_signed_field(b);
    lemma_signed_field(c);
    lemma_signed_field(d);
    let (w, x, y, z) = (
        signed_decimal(a as int),
        signed_decimal(b as int),
        signed_decimal(c as int),
        signed_decimal(d as int),
    );
    fields_are_read_in_order(w, x, y, z);
    assert(values_text(a as int, b as int, c as int, d as int).drop_last() == w + seq![','] + x
        + seq![','] + y + seq![','] + z);
}

} // verus!
