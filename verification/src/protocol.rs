//! The line protocol between the forwarder and the ear controller.
//!
//! A line holds four integers, `left_x,left_y,right_x,right_y`, and ends with a
//! newline.

use vstd::prelude::*;
use vstd::utf8::{decode_utf8, encode_utf8, valid_utf8};

use crate::text::{
    all_digits, chars_of, decimal, decimal_denotes, decimal_width, digits_value, i32_value,
    is_digit, padded, padded_denotes, padded_text, parse_i32, trim, trim_bounds,
    trim_cuts_white_space, white_space,
};

verus! {

/// The value that stands for looking straight ahead.
pub const PROTOCOL_CENTER: i32 = 512;

/// Four values, separated by commas.
pub open spec fn frame_body(lx: i32, ly: i32, rx: i32, ry: i32) -> Seq<char> {
    padded(lx as int) + seq![','] + padded(ly as int) + seq![',']
        + padded(rx as int) + seq![','] + padded(ry as int)
}

/// The line that carries four values.
pub open spec fn frame(lx: i32, ly: i32, rx: i32, ry: i32) -> Seq<char> {
    frame_body(lx, ly, rx, ry).push('\n')
}

/// How far into `s` its first comma stands, or its length where it has none.
pub open spec fn first_comma(s: Seq<char>) -> nat
    decreases s.len(),
{
    if s.len() == 0 || s[0] == ',' {
        0
    } else {
        1 + first_comma(s.skip(1))
    }
}

/// What stands between the commas of `s`.
pub open spec fn split_commas(s: Seq<char>) -> Seq<Seq<char>>
    decreases s.len(),
{
    let i = first_comma(s);
    if i < s.len() {
        seq![s.take(i as int)] + split_commas(s.skip(i as int + 1))
    } else {
        seq![s]
    }
}

/// `s` without the carriage returns at its end.
pub open spec fn strip_carriage_returns(s: Seq<char>) -> Seq<char>
    decreases s.len(),
{
    if s.len() > 0 && s.last() == '\r' {
        strip_carriage_returns(s.drop_last())
    } else {
        s
    }
}

/// The value of one field: an `i32`, with white space allowed around it.
pub open spec fn field_value(s: Seq<char>) -> Option<i32> {
    i32_value(trim(s))
}

/// The four values of a line of text, where it has exactly four fields and each
/// has a value.
pub open spec fn text_values(s: Seq<char>) -> Option<(i32, i32, i32, i32)> {
    let f = split_commas(strip_carriage_returns(s));
    if f.len() == 4 && field_value(f[0]) is Some && field_value(f[1]) is Some && field_value(
        f[2],
    ) is Some && field_value(f[3]) is Some {
        Some(
            (
                field_value(f[0])->0,
                field_value(f[1])->0,
                field_value(f[2])->0,
                field_value(f[3])->0,
            ),
        )
    } else {
        None
    }
}

/// The four values of a line, given without its newline.
pub open spec fn line_values(bytes: Seq<u8>) -> Option<(i32, i32, i32, i32)> {
    if valid_utf8(bytes) {
        text_values(decode_utf8(bytes))
    } else {
        None
    }
}

/// `core::str::from_utf8`: the text that the bytes encode, where they are valid
/// UTF-8, and nothing where they are not.
#[verifier::external_body]
fn utf8_text(buf: &[u8]) -> (r: Option<&str>)
    ensures
        r is Some <==> valid_utf8(buf@),
        r matches Some(s) ==> encode_utf8(s@) == buf@,
{
    core::str::from_utf8(buf).ok()
}

/// Where the first comma of `s[from..to]` stands, or `to` where it has none.
fn find_comma(s: &Vec<char>, from: usize, to: usize) -> (r: usize)
    requires
        from <= to <= s@.len(),
    ensures
        from <= r <= to,
        r - from == first_comma(s@.subrange(from as int, to as int)),
{
    let mut i: usize = from;
    while i < to && s[i] != ','
        invariant
            from <= i <= to <= s@.len(),
            first_comma(s@.subrange(from as int, to as int)) == i - from + first_comma(
                s@.subrange(i as int, to as int),
            ),
        decreases to - i,
    {
        assert(s@.subrange(i as int, to as int).skip(1) == s@.subrange(i + 1, to as int));
        i = i + 1;
    }
    i
}

/// The value of the field `s[from..to]`.
fn parse_field(s: &Vec<char>, from: usize, to: usize) -> (r: Option<i32>)
    requires
        from <= to <= s@.len(),
    ensures
        r == field_value(s@.subrange(from as int, to as int)),
{
    let (a, b): (usize, usize) = trim_bounds(s, from, to);
    parse_i32(s, a, b)
}

/// Splitting off the first of several fields.
proof fn lemma_split_step(s: Seq<char>, from: int, comma: int)
    requires
        0 <= from <= comma <= s.len(),
        comma - from == first_comma(s.subrange(from, s.len() as int)),
    ensures
        comma < s.len() ==> split_commas(s.subrange(from, s.len() as int)) == seq![
            s.subrange(from, comma),
        ] + split_commas(s.subrange(comma + 1, s.len() as int)),
        comma == s.len() ==> split_commas(s.subrange(from, s.len() as int)) == seq![
            s.subrange(from, comma),
        ],
{
    let t = s.subrange(from, s.len() as int);
    if comma < s.len() {
        assert(t.take(comma - from) == s.subrange(from, comma));
        assert(t.skip(comma - from + 1) == s.subrange(comma + 1, s.len() as int));
    }
}

/// No text splits into no fields.
proof fn lemma_split_nonempty(s: Seq<char>)
    ensures
        split_commas(s).len() > 0,
{
}

/// Reads the four values of a line, in the order left x, left y, right x,
/// right y. The line comes without its newline; carriage returns at its end and
/// white space around each value are passed over.
pub fn parse_line(buf: &[u8]) -> (r: Option<(i32, i32, i32, i32)>)
    ensures
        r == line_values(buf@),
{
    let s: Vec<char> = match utf8_text(buf) {
        Some(t) => {
            proof {
                vstd::utf8::encode_utf8_decode_utf8(t@);
            }
            chars_of(t)
        },
        None => {
            return None;
        },
    };
    let mut end: usize = s.len();
    assert(s@.take(end as int) == s@);
    while end > 0 && s[end - 1] == '\r'
        invariant
            end <= s@.len(),
            strip_carriage_returns(s@) == strip_carriage_returns(s@.take(end as int)),
        decreases end,
    {
        assert(s@.take(end as int).drop_last() == s@.take(end - 1));
        end = end - 1;
    }
    let ghost line = s@.take(end as int);
    assert(strip_carriage_returns(s@) == line);
    assert(line.subrange(0, line.len() as int) == line);
    assert(forall|i: int, j: int|
        0 <= i <= j <= end ==> #[trigger] s@.subrange(i, j) == line.subrange(i, j));
    let c0: usize = find_comma(&s, 0, end);
    proof {
        lemma_split_step(line, 0, c0 as int);
    }
    if c0 == end {
        return None;
    }
    let c1: usize = find_comma(&s, c0 + 1, end);
    proof {
        lemma_split_step(line, c0 + 1, c1 as int);
    }
    if c1 == end {
        return None;
    }
    let c2: usize = find_comma(&s, c1 + 1, end);
    proof {
        lemma_split_step(line, c1 + 1, c2 as int);
    }
    if c2 == end {
        return None;
    }
    let c3: usize = find_comma(&s, c2 + 1, end);
    proof {
        lemma_split_step(line, c2 + 1, c3 as int);
    }
    if c3 != end {
        proof {
            lemma_split_nonempty(line.subrange(c3 + 1, line.len() as int));
        }
        return None;
    }
    let ghost f = split_commas(line);
    assert(f.len() == 4);
    assert(f[0] == line.subrange(0, c0 as int));
    assert(f[1] == line.subrange(c0 + 1, c1 as int));
    assert(f[2] == line.subrange(c1 + 1, c2 as int));
    assert(f[3] == line.subrange(c2 + 1, end as int));
    match (
        parse_field(&s, 0, c0),
        parse_field(&s, c0 + 1, c1),
        parse_field(&s, c1 + 1, c2),
        parse_field(&s, c2 + 1, end),
    ) {
        (Some(a), Some(b), Some(c), Some(d)) => Some((a, b, c, d)),
        _ => None,
    }
}

/// The line that carries four values: each a decimal filled up with zeros to
/// four characters, with commas between them and a newline at the end.
pub fn frame_text(lx: i32, ly: i32, rx: i32, ry: i32) -> (r: String)
    ensures
        r@ == frame(lx, ly, rx, ry),
{
    proof {
        reveal_strlit(",");
        reveal_strlit("\n");
    }
    let mut r: String = padded_text(lx);
    r.append(",");
    r.append(padded_text(ly).as_str());
    r.append(",");
    r.append(padded_text(rx).as_str());
    r.append(",");
    r.append(padded_text(ry).as_str());
    r.append("\n");
    assert(r@ == frame(lx, ly, rx, ry));
    r
}

/// Text of digits and minus signs, which is neither split nor trimmed.
pub open spec fn plain(s: Seq<char>) -> bool {
    forall|i: int| 0 <= i < s.len() ==> is_digit(#[trigger] s[i]) || s[i] == '-'
}

/// Padded values are plain text of at least four characters.
pub proof fn padded_is_plain(v: int)
    ensures
        plain(padded(v)),
        padded(v).len() >= 4,
{
    let n = if v < 0 {
        (-v) as nat
    } else {
        v as nat
    };
    decimal_denotes(n);
    let d = decimal(n);
    let s = padded(v);
    assert forall|i: int| 0 <= i < s.len() implies is_digit(#[trigger] s[i]) || s[i] == '-' by {
        let k = i - (s.len() - d.len());
        if k >= 0 {
            assert(s[i] == d[k]);
        }
    }
}

proof fn lemma_plain_trim(s: Seq<char>)
    requires
        plain(s),
    ensures
        trim(s) == s,
{
    if s.len() > 0 {
        assert(!white_space(s[0]));
        assert(!white_space(s.last()));
    }
}

/// Text without commas.
pub open spec fn comma_free(s: Seq<char>) -> bool {
    forall|i: int| 0 <= i < s.len() ==> #[trigger] s[i] != ','
}

proof fn lemma_free_first_comma(a: Seq<char>, rest: Seq<char>)
    requires
        comma_free(a),
        rest.len() == 0 || rest[0] == ',',
    ensures
        first_comma(a + rest) == a.len(),
    decreases a.len(),
{
    if a.len() > 0 {
        assert(a[0] != ',');
        assert forall|i: int| 0 <= i < a.len() - 1 implies #[trigger] a.skip(1)[i] != ',' by {
            assert(a.skip(1)[i] == a[i + 1]);
        }
        lemma_free_first_comma(a.skip(1), rest);
        assert((a + rest).skip(1) == a.skip(1) + rest);
    } else {
        assert(a + rest == rest);
    }
}

proof fn lemma_free_split(a: Seq<char>, rest: Seq<char>)
    requires
        comma_free(a),
    ensures
        split_commas(a) == seq![a],
        split_commas(a + seq![','] + rest) == seq![a] + split_commas(rest),
{
    lemma_free_first_comma(a, Seq::empty());
    assert(a + Seq::<char>::empty() == a);
    let tail = seq![','] + rest;
    lemma_free_first_comma(a, tail);
    let s = a + seq![','] + rest;
    assert(s == a + tail);
    assert(s.take(a.len() as int) == a);
    assert(s.skip(a.len() as int + 1) == rest);
}

proof fn lemma_padded_value(v: i32)
    ensures
        field_value(padded(v as int)) == Some(v),
{
    padded_is_plain(v as int);
    lemma_plain_trim(padded(v as int));
    padded_denotes(v as int);
}

/// What is sent is what is read: the four values of a frame are read back from
/// its line, whatever the values are.
pub proof fn frame_reads_back(lx: i32, ly: i32, rx: i32, ry: i32)
    ensures
        text_values(frame_body(lx, ly, rx, ry)) == Some((lx, ly, rx, ry)),
        line_values(encode_utf8(frame_body(lx, ly, rx, ry))) == Some((lx, ly, rx, ry)),
{
    let (a, b, c, d) = (
        padded(lx as int),
        padded(ly as int),
        padded(rx as int),
        padded(ry as int),
    );
    padded_is_plain(lx as int);
    padded_is_plain(ly as int);
    padded_is_plain(rx as int);
    padded_is_plain(ry as int);
    lemma_padded_value(lx);
    lemma_padded_value(ly);
    lemma_padded_value(rx);
    lemma_padded_value(ry);
    let body = frame_body(lx, ly, rx, ry);
    let r2 = c + seq![','] + d;
    let r1 = b + seq![','] + r2;
    assert(body == a + seq![','] + r1);
    lemma_free_split(a, r1);
    lemma_free_split(b, r2);
    lemma_free_split(c, d);
    lemma_free_split(d, Seq::empty());
    assert(body.last() == d.last());
    assert(strip_carriage_returns(body) == body);
    let f = split_commas(body);
    assert(f == seq![a, b, c, d]);
    vstd::utf8::encode_utf8_valid_utf8(body);
    vstd::utf8::encode_utf8_decode_utf8(body);
}

/// The shape of a frame whose values all lie between -999 and 9999: four
/// fields of four characters each.
pub proof fn frame_shape(lx: i32, ly: i32, rx: i32, ry: i32)
    requires
        -999 <= lx <= 9999,
        -999 <= ly <= 9999,
        -999 <= rx <= 9999,
        -999 <= ry <= 9999,
    ensures
        frame(lx, ly, rx, ry).len() == 20,
        frame(lx, ly, rx, ry).subrange(0, 4) == padded(lx as int),
        frame(lx, ly, rx, ry).subrange(5, 9) == padded(ly as int),
        frame(lx, ly, rx, ry).subrange(10, 14) == padded(rx as int),
        frame(lx, ly, rx, ry).subrange(15, 19) == padded(ry as int),
        frame(lx, ly, rx, ry)[4] == ',',
        frame(lx, ly, rx, ry)[9] == ',',
        frame(lx, ly, rx, ry)[14] == ',',
        frame(lx, ly, rx, ry)[19] == '\n',
{
    lemma_padded_width(lx as int);
    lemma_padded_width(ly as int);
    lemma_padded_width(rx as int);
    lemma_padded_width(ry as int);
    let s = frame(lx, ly, rx, ry);
    assert(s.subrange(0, 4) == padded(lx as int));
    assert(s.subrange(5, 9) == padded(ly as int));
    assert(s.subrange(10, 14) == padded(rx as int));
    assert(s.subrange(15, 19) == padded(ry as int));
}

/// Values from -999 to 9999 are padded to exactly four characters.
proof fn lemma_padded_width(v: int)
    requires
        -999 <= v <= 9999,
    ensures
        padded(v).len() == 4,
{
    padded_is_plain(v);
    reveal_with_fuel(vstd::arithmetic::power::pow, 5);
    if v < 0 {
        decimal_width((-v) as nat, 3);
    } else {
        decimal_width(v as nat, 4);
    }
}

/// The fields of a frame are runs of digits where no value is negative.
pub proof fn padded_is_digits(v: int)
    requires
        0 <= v <= 9999,
    ensures
        padded(v).len() == 4,
        all_digits(padded(v)),
        digits_value(padded(v)) == v,
{
    lemma_padded_width(v);
    padded_denotes(v);
    padded_is_plain(v);
    decimal_denotes(v as nat);
    let s = padded(v);
    let d = decimal(v as nat);
    assert forall|i: int| 0 <= i < s.len() implies is_digit(#[trigger] s[i]) by {
        let k = i - (s.len() - d.len());
        if k >= 0 {
            assert(s[i] == d[k]);
        }
    }
    assert(is_digit(s[0]));
}

/// Four fields with commas between them are read one by one, in their order; if
/// one of them has no value, the line has none.
pub proof fn fields_are_read_in_order(a: Seq<char>, b: Seq<char>, c: Seq<char>, d: Seq<char>)
    requires
        comma_free(a),
        comma_free(b),
        comma_free(c),
        comma_free(d),
        d.len() > 0 ==> d.last() != '\r',
    ensures
        ({
            let s = a + seq![','] + b + seq![','] + c + seq![','] + d;
            let (v, w, x, y) = (field_value(a), field_value(b), field_value(c), field_value(d));
            if v is Some && w is Some && x is Some && y is Some {
                text_values(s) == Some((v->0, w->0, x->0, y->0))
            } else {
                text_values(s) is None
            }
        }),
{
    let s = a + seq![','] + b + seq![','] + c + seq![','] + d;
    let r2 = c + seq![','] + d;
    let r1 = b + seq![','] + r2;
    assert(s == a + seq![','] + r1);
    lemma_free_split(a, r1);
    lemma_free_split(b, r2);
    lemma_free_split(c, d);
    lemma_free_split(d, Seq::empty());
    assert(s.last() == if d.len() > 0 {
        d.last()
    } else {
        ','
    });
    assert(strip_carriage_returns(s) == s);
    assert(split_commas(s) == seq![a, b, c, d]);
}

/// How many commas text has.
pub open spec fn commas(s: Seq<char>) -> nat
    decreases s.len(),
{
    if s.len() == 0 {
        0
    } else if s.last() == ',' {
        commas(s.drop_last()) + 1
    } else {
        commas(s.drop_last())
    }
}

proof fn lemma_commas_add(a: Seq<char>, b: Seq<char>)
    ensures
        commas(a + b) == commas(a) + commas(b),
    decreases b.len(),
{
    if b.len() == 0 {
        assert(a + b == a);
    } else {
        lemma_commas_add(a, b.drop_last());
        assert((a + b).drop_last() == a + b.drop_last());
    }
}

proof fn lemma_before_first_comma(s: Seq<char>)
    ensures
        first_comma(s) <= s.len(),
        commas(s.take(first_comma(s) as int)) == 0,
        first_comma(s) < s.len() ==> s[first_comma(s) as int] == ',',
    decreases s.len(),
{
    if s.len() > 0 && s[0] != ',' {
        let rest = s.skip(1);
        lemma_before_first_comma(rest);
        let n = first_comma(rest) as int;
        assert(s.take(n + 1) == seq![s[0]] + rest.take(n));
        lemma_commas_add(seq![s[0]], rest.take(n));
        let one = seq![s[0]];
        assert(commas(one.drop_last()) == 0);
        assert(one.last() == s[0]);
    } else {
        assert(s.take(0) == Seq::<char>::empty());
    }
}

proof fn lemma_fields_counted(s: Seq<char>)
    ensures
        split_commas(s).len() == commas(s) + 1,
    decreases s.len(),
{
    lemma_before_first_comma(s);
    let i = first_comma(s) as int;
    if i < s.len() {
        let rest = s.skip(i + 1);
        lemma_fields_counted(rest);
        let head = s.take(i).push(',');
        assert(s == head + rest);
        lemma_commas_add(head, rest);
        assert(head.drop_last() == s.take(i));
    } else {
        assert(s.take(i) == s);
    }
}

proof fn lemma_strip_keeps_commas(s: Seq<char>)
    ensures
        commas(strip_carriage_returns(s)) == commas(s),
    decreases s.len(),
{
    if s.len() > 0 && s.last() == '\r' {
        lemma_strip_keeps_commas(s.drop_last());
    }
}

/// A line with more or fewer than three commas has no values.
pub proof fn a_line_has_three_commas(s: Seq<char>)
    requires
        commas(s) != 3,
    ensures
        text_values(s) is None,
{
    lemma_strip_keeps_commas(s);
    lemma_fields_counted(strip_carriage_returns(s));
}

/// A carriage return at the end of a line changes nothing.
pub proof fn carriage_return_at_the_end(s: Seq<char>)
    ensures
        text_values(s.push('\r')) == text_values(s),
{
    assert(s.push('\r').drop_last() == s);
}

/// A field is read as what its white space surrounds; one that holds nothing
/// else has no value.
pub proof fn field_stands_in_white_space(s: Seq<char>, a: int, b: int)
    requires
        0 <= a <= b <= s.len(),
        forall|i: int| 0 <= i < a ==> white_space(#[trigger] s[i]),
        forall|i: int| b <= i < s.len() ==> white_space(#[trigger] s[i]),
        a < b ==> !white_space(s[a]) && !white_space(s[b - 1]),
    ensures
        a < b ==> field_value(s) == i32_value(s.subrange(a, b)),
        a == b ==> field_value(s) is None,
{
    trim_cuts_white_space(s, a, b);
}

/// A line is read as the text that its bytes encode, and bytes that encode none
/// have no values.
pub proof fn lines_are_utf8(s: Seq<char>, bytes: Seq<u8>)
    ensures
        line_values(encode_utf8(s)) == text_values(s),
        !valid_utf8(bytes) ==> line_values(bytes) is None,
{
    vstd::utf8::encode_utf8_valid_utf8(s);
    vstd::utf8::encode_utf8_decode_utf8(s);
}

/// A frame is made of its four padded values, in order, each but the last
/// followed by a comma and the last by the newline, and of nothing else.
pub proof fn frame_is_made_of_fields(lx: i32, ly: i32, rx: i32, ry: i32)
    ensures
        ({
            let (a, b, c, d) = (
                padded(lx as int),
                padded(ly as int),
                padded(rx as int),
                padded(ry as int),
            );
            let s = frame(lx, ly, rx, ry);
            &&& s == a.push(',') + b.push(',') + c.push(',') + d.push('\n')
            &&& s.drop_last() == frame_body(lx, ly, rx, ry)
        }),
{
    let s = frame(lx, ly, rx, ry);
    assert(s == padded(lx as int).push(',') + padded(ly as int).push(',') + padded(
        rx as int,
    ).push(',') + padded(ry as int).push('\n'));
}

} // verus!
