//! Decimal text and white space: what the line protocol and the log lines are
//! made of.

use vstd::prelude::*;

verus! {

/// The character of a decimal digit.
pub open spec fn digit_char(d: int) -> char {
    (d + '0' as int) as char
}

/// `n` in decimal, without leading zeros.
pub open spec fn decimal(n: nat) -> Seq<char>
    decreases n,
{
    if n < 10 {
        seq![digit_char(n as int)]
    } else {
        decimal(n / 10).push(digit_char((n % 10) as int))
    }
}

/// `v` in decimal, with a leading minus sign where it is negative.
pub open spec fn signed_decimal(v: int) -> Seq<char> {
    if v < 0 {
        seq!['-'] + decimal((-v) as nat)
    } else {
        decimal(v as nat)
    }
}

/// `s` filled up on the left with zeros to at least `width` characters.
pub open spec fn zero_filled(s: Seq<char>, width: nat) -> Seq<char> {
    if s.len() < width {
        Seq::new((width - s.len()) as nat, |i: int| '0') + s
    } else {
        s
    }
}

/// `v` in decimal, filled up with zeros to at least four characters; a minus
/// sign comes before the zeros and counts as one of the four.
pub open spec fn padded(v: int) -> Seq<char> {
    if v < 0 {
        seq!['-'] + zero_filled(decimal((-v) as nat), 3)
    } else {
        zero_filled(decimal(v as nat), 4)
    }
}

pub open spec fn is_digit(c: char) -> bool {
    '0' <= c <= '9'
}

pub open spec fn all_digits(s: Seq<char>) -> bool {
    forall|i: int| 0 <= i < s.len() ==> is_digit(#[trigger] s[i])
}

/// The number that a run of decimal digits denotes.
pub open spec fn digits_value(s: Seq<char>) -> nat
    decreases s.len(),
{
    if s.len() == 0 {
        0
    } else {
        digits_value(s.drop_last()) * 10 + (s.last() as nat - '0' as nat) as nat
    }
}

/// The integer that `s` denotes: an optional sign and then at least one
/// decimal digit, and nothing else.
pub open spec fn integer_value(s: Seq<char>) -> Option<int> {
    let signed = s.len() > 0 && (s[0] == '-' || s[0] == '+');
    let digits = if signed {
        s.skip(1)
    } else {
        s
    };
    if digits.len() > 0 && all_digits(digits) {
        if s[0] == '-' {
            Some(-(digits_value(digits) as int))
        } else {
            Some(digits_value(digits) as int)
        }
    } else {
        None
    }
}

/// The `i32` that `s` denotes, where it denotes an integer that an `i32` holds.
pub open spec fn i32_value(s: Seq<char>) -> Option<i32> {
    match integer_value(s) {
        Some(v) => if i32::MIN <= v <= i32::MAX {
            Some(v as i32)
        } else {
            None
        },
        None => None,
    }
}

/// The characters with the Unicode property `White_Space`.
pub open spec fn white_space(c: char) -> bool {
    ||| '\u{9}' <= c <= '\u{d}'
    ||| c == '\u{20}'
    ||| c == '\u{85}'
    ||| c == '\u{a0}'
    ||| c == '\u{1680}'
    ||| '\u{2000}' <= c <= '\u{200a}'
    ||| c == '\u{2028}'
    ||| c == '\u{2029}'
    ||| c == '\u{202f}'
    ||| c == '\u{205f}'
    ||| c == '\u{3000}'
}

/// `s` without the white space at its start.
pub open spec fn trim_start(s: Seq<char>) -> Seq<char>
    decreases s.len(),
{
    if s.len() > 0 && white_space(s[0]) {
        trim_start(s.skip(1))
    } else {
        s
    }
}

/// `s` without the white space at its end.
pub open spec fn trim_end(s: Seq<char>) -> Seq<char>
    decreases s.len(),
{
    if s.len() > 0 && white_space(s.last()) {
        trim_end(s.drop_last())
    } else {
        s
    }
}

/// `s` without the white space at its start and its end.
pub open spec fn trim(s: Seq<char>) -> Seq<char> {
    trim_end(trim_start(s))
}

/// The text of one decimal digit.
fn digit_str(d: u64) -> (r: &'static str)
    requires
        d < 10,
    ensures
        r@ == seq![digit_char(d as int)],
{
    proof {
        reveal_strlit("0");
        reveal_strlit("1");
        reveal_strlit("2");
        reveal_strlit("3");
        reveal_strlit("4");
        reveal_strlit("5");
        reveal_strlit("6");
        reveal_strlit("7");
        reveal_strlit("8");
        reveal_strlit("9");
    }
    if d == 0 {
        "0"
    } else if d == 1 {
        "1"
    } else if d == 2 {
        "2"
    } else if d == 3 {
        "3"
    } else if d == 4 {
        "4"
    } else if d == 5 {
        "5"
    } else if d == 6 {
        "6"
    } else if d == 7 {
        "7"
    } else if d == 8 {
        "8"
    } else {
        "9"
    }
}

/// `n` in decimal.
pub fn decimal_text(n: u64) -> (r: String)
    ensures
        r@ == decimal(n as nat),
    decreases n,
{
    if n < 10 {
        String::from_str(digit_str(n))
    } else {
        let mut r: String = decimal_text(n / 10);
        r.append(digit_str(n % 10));
        r
    }
}

/// `v` in decimal, with a minus sign where it is negative.
pub fn signed_text(v: i32) -> (r: String)
    ensures
        r@ == signed_decimal(v as int),
{
    if v < 0 {
        let mut r: String = String::from_str("-");
        r.append(decimal_text((-(v as i64)) as u64).as_str());
        proof {
            reveal_strlit("-");
        }
        r
    } else {
        decimal_text(v as u64)
    }
}

/// `v` in decimal, filled up with zeros to four characters.
pub fn padded_text(v: i32) -> (r: String)
    ensures
        r@ == padded(v as int),
{
    proof {
        reveal_strlit("-");
        reveal_strlit("0");
    }
    let mut r: String = String::new();
    let mut width: usize = 4;
    let magnitude: u64 = if v < 0 {
        (-(v as i64)) as u64
    } else {
        v as u64
    };
    if v < 0 {
        r.append("-");
        width = 3;
    }
    let digits: String = decimal_text(magnitude);
    let mut have: usize = digits.as_str().unicode_len();
    let ghost sign = r@;
    let ghost len = have as int;
    while have < width
        invariant
            len <= have,
            have <= width || have == len,
            width <= 4,
            len == decimal(magnitude as nat).len(),
            r@ == sign + Seq::new((have - len) as nat, |i: int| '0'),
            "0"@ == seq!['0'],
        decreases width - have,
    {
        r.append("0");
        have = have + 1;
        assert(r@ == sign + Seq::new((have - len) as nat, |i: int| '0'));
    }
    r.append(digits.as_str());
    assert(r@ == padded(v as int));
    r
}

/// Whether `c` has the Unicode property `White_Space`.
pub fn is_white_space(c: char) -> (r: bool)
    ensures
        r == white_space(c),
{
    ('\u{9}' <= c && c <= '\u{d}') || c == '\u{20}' || c == '\u{85}' || c == '\u{a0}' || c
        == '\u{1680}' || ('\u{2000}' <= c && c <= '\u{200a}') || c == '\u{2028}' || c == '\u{2029}'
        || c == '\u{202f}' || c == '\u{205f}' || c == '\u{3000}'
}

/// The characters of `s`.
pub fn chars_of(s: &str) -> (r: Vec<char>)
    ensures
        r@ == s@,
{
    let mut r: Vec<char> = Vec::new();
    for c in it: s.chars()
        invariant
            r@ == s@.take(it.index() as int),
            it.seq() == s@,
    {
        r.push(c);
    }
    r
}

/// Where the text `s[from..to]` starts and ends once its white space on both
/// sides is left out.
pub fn trim_bounds(s: &Vec<char>, from: usize, to: usize) -> (r: (usize, usize))
    requires
        from <= to <= s@.len(),
    ensures
        from <= r.0 <= r.1 <= to,
        s@.subrange(r.0 as int, r.1 as int) == trim(s@.subrange(from as int, to as int)),
{
    let mut a: usize = from;
    while a < to && is_white_space(s[a])
        invariant
            from <= a <= to <= s@.len(),
            trim_start(s@.subrange(from as int, to as int)) == trim_start(
                s@.subrange(a as int, to as int),
            ),
        decreases to - a,
    {
        assert(s@.subrange(a as int, to as int).skip(1) == s@.subrange(a + 1, to as int));
        a = a + 1;
    }
    assert(trim_start(s@.subrange(from as int, to as int)) == s@.subrange(a as int, to as int));
    let mut b: usize = to;
    while b > a && is_white_space(s[b - 1])
        invariant
            a <= b <= to <= s@.len(),
            trim_end(s@.subrange(a as int, to as int)) == trim_end(
                s@.subrange(a as int, b as int),
            ),
        decreases b - a,
    {
        assert(s@.subrange(a as int, b as int).drop_last() == s@.subrange(a as int, b - 1));
        b = b - 1;
    }
    (a, b)
}

/// A digit run denotes at least what each of its prefixes denotes.
proof fn lemma_prefix_value(s: Seq<char>, k: int)
    requires
        0 <= k <= s.len(),
    ensures
        digits_value(s.take(k)) <= digits_value(s),
    decreases s.len() - k,
{
    if k < s.len() {
        lemma_prefix_value(s, k + 1);
        assert(s.take(k + 1).drop_last() == s.take(k));
    } else {
        assert(s.take(k) == s);
    }
}

/// The `i32` that the text `s[from..to]` denotes.
pub fn parse_i32(s: &Vec<char>, from: usize, to: usize) -> (r: Option<i32>)
    requires
        from <= to <= s@.len(),
    ensures
        r == i32_value(s@.subrange(from as int, to as int)),
{
    let ghost whole = s@.subrange(from as int, to as int);
    if from == to {
        return None;
    }
    let negative: bool = s[from] == '-';
    let start: usize = if negative || s[from] == '+' {
        from + 1
    } else {
        from
    };
    let ghost digits = s@.subrange(start as int, to as int);
    assert(digits == if start == from { whole } else { whole.skip(1) });
    if start == to {
        return None;
    }
    let mut value: i64 = 0;
    let mut i: usize = start;
    while i < to
        invariant
            start <= i <= to <= s@.len(),
            whole == s@.subrange(from as int, to as int),
            digits == s@.subrange(start as int, to as int),
            all_digits(digits.take(i - start)),
            value == digits_value(digits.take(i - start)),
            0 <= value <= 2147483648,
            i32_value(whole) is Some ==> all_digits(digits) && digits_value(digits) <= 2147483648,
        decreases to - i,
    {
        let c: char = s[i];
        assert(c == digits[i - start]);
        if c < '0' || c > '9' {
            assert(!is_digit(digits[i - start]));
            return None;
        }
        value = value * 10 + (c as i64 - '0' as i64);
        i = i + 1;
        assert(digits.take(i - start).drop_last() == digits.take(i - start - 1));
        assert(all_digits(digits.take(i - start))) by {
            assert forall|j: int| 0 <= j < i - start implies is_digit(
                #[trigger] digits.take(i - start)[j],
            ) by {
                if j < i - start - 1 {
                    assert(is_digit(digits.take(i - start - 1)[j]));
                }
            }
        }
        if value > 2147483648 {
            proof {
                lemma_prefix_value(digits, i - start);
            }
            return None;
        }
    }
    assert(digits.take(to - start) == digits);
    let signed: i64 = if negative {
        -value
    } else {
        value
    };
    if signed <= 2147483647 {
        Some(signed as i32)
    } else {
        None
    }
}

/// Decimal text is made of digits and denotes the number it was made from.
pub proof fn decimal_denotes(n: nat)
    ensures
        decimal(n).len() > 0,
        all_digits(decimal(n)),
        digits_value(decimal(n)) == n,
    decreases n,
{
    if n < 10 {
        let s = decimal(n);
        assert(s.last() as nat == n + '0' as nat);
        assert(digits_value(s.drop_last()) == 0);
    } else {
        decimal_denotes(n / 10);
        let s = decimal(n);
        assert(s.drop_last() == decimal(n / 10));
        assert(s.last() as nat == n % 10 + '0' as nat);
        assert forall|i: int| 0 <= i < s.len() implies is_digit(#[trigger] s[i]) by {
            if i < s.len() - 1 {
                assert(s[i] == decimal(n / 10)[i]);
            }
        }
    }
}

/// Zeros on the left change neither that text is a digit run nor what it
/// denotes.
proof fn lemma_zeros_denote(s: Seq<char>, zeros: nat)
    requires
        all_digits(s),
    ensures
        all_digits(Seq::new(zeros, |i: int| '0') + s),
        digits_value(Seq::new(zeros, |i: int| '0') + s) == digits_value(s),
    decreases s.len() + zeros,
{
    let z = Seq::new(zeros, |i: int| '0');
    let t = z + s;
    assert forall|i: int| 0 <= i < t.len() implies is_digit(#[trigger] t[i]) by {
        if i >= zeros {
            assert(t[i] == s[i - zeros]);
        }
    }
    if s.len() > 0 {
        assert(all_digits(s.drop_last())) by {
            assert forall|i: int| 0 <= i < s.len() - 1 implies is_digit(
                #[trigger] s.drop_last()[i],
            ) by {
                assert(s.drop_last()[i] == s[i]);
            }
        }
        lemma_zeros_denote(s.drop_last(), zeros);
        assert(t.drop_last() == z + s.drop_last());
    } else if zeros > 0 {
        lemma_zeros_denote(s, (zeros - 1) as nat);
        assert(t.drop_last() == Seq::new((zeros - 1) as nat, |i: int| '0') + s);
    } else {
        assert(t == s);
    }
}

/// Zero-filled text denotes what the text denotes.
proof fn lemma_zero_filled_denotes(s: Seq<char>, width: nat)
    requires
        all_digits(s),
    ensures
        all_digits(zero_filled(s, width)),
        digits_value(zero_filled(s, width)) == digits_value(s),
{
    if s.len() < width {
        lemma_zeros_denote(s, (width - s.len()) as nat);
    }
}

/// Padded text denotes the integer it was made from.
pub proof fn padded_denotes(v: int)
    ensures
        integer_value(padded(v)) == Some(v),
{
    let n = if v < 0 {
        (-v) as nat
    } else {
        v as nat
    };
    let width: nat = if v < 0 {
        3
    } else {
        4
    };
    decimal_denotes(n);
    lemma_zero_filled_denotes(decimal(n), width);
    let digits = zero_filled(decimal(n), width);
    let s = padded(v);
    if v < 0 {
        assert(s.skip(1) == digits);
    } else {
        assert(is_digit(digits[0]));
    }
}

/// Signed decimal text denotes the integer it was made from.
pub proof fn signed_decimal_denotes(v: int)
    ensures
        integer_value(signed_decimal(v)) == Some(v),
{
    let n = if v < 0 {
        (-v) as nat
    } else {
        v as nat
    };
    decimal_denotes(n);
    let s = signed_decimal(v);
    if v < 0 {
        assert(s.skip(1) == decimal(n));
    } else {
        assert(is_digit(decimal(n)[0]));
    }
}

/// How many digits a number below a power of ten has at most.
pub proof fn decimal_width(n: nat, width: nat)
    requires
        width > 0,
        n < vstd::arithmetic::power::pow(10, width),
    ensures
        decimal(n).len() <= width,
    decreases width,
{
    broadcast use vstd::arithmetic::power::lemma_pow0, vstd::arithmetic::power::lemma_pow1;

    if n >= 10 {
        assert(width != 1);
        vstd::arithmetic::power::lemma_pow_adds(10, 1, (width - 1) as nat);
        decimal_width(n / 10, (width - 1) as nat);
    }
}

/// The ten decimal digits are the characters 48 to 57.
pub proof fn digits_are_ten(c: char)
    ensures
        is_digit(c) <==> 48 <= c as int <= 57,
{
}

/// Digits count by their place: each digit that follows makes what comes before
/// it ten times as much.
pub proof fn digits_count_by_place(s: Seq<char>, t: Seq<char>, c: char)
    requires
        all_digits(s),
        all_digits(t),
        is_digit(c),
    ensures
        digits_value(s + t) == digits_value(s) * vstd::arithmetic::power::pow(10, t.len())
            + digits_value(t),
        digits_value(seq![c]) == c as int - 48,
    decreases t.len(),
{
    broadcast use vstd::arithmetic::power::lemma_pow0, vstd::arithmetic::power::lemma_pow1;

    let one = seq![c];
    assert(digits_value(one.drop_last()) == 0);
    assert(one.last() == c);
    if t.len() == 0 {
        assert(s + t == s);
    } else {
        let init = t.drop_last();
        assert forall|i: int| 0 <= i < init.len() implies is_digit(#[trigger] init[i]) by {
            assert(init[i] == t[i]);
        }
        digits_count_by_place(s, init, c);
        assert((s + t).drop_last() == s + init);
        assert((s + t).last() == t.last());
        assert(is_digit(t[t.len() - 1]));
        vstd::arithmetic::power::lemma_pow_adds(10, init.len(), 1);
        let (v, p) = (digits_value(s) as int, vstd::arithmetic::power::pow(10, init.len()));
        assert(v * p * 10 == v * (p * 10)) by (nonlinear_arith);
    }
}

/// Zeros in front change nothing.
pub proof fn zeros_in_front(s: Seq<char>, zeros: nat)
    requires
        all_digits(s),
    ensures
        digits_value(Seq::new(zeros, |i: int| '0') + s) == digits_value(s),
{
    lemma_zeros_denote(s, zeros);
}

/// Decimal text starts with a zero only where it is one.
pub proof fn decimal_has_no_leading_zeros(n: nat)
    ensures
        decimal(n)[0] == '0' <==> n == 0,
        decimal(0).len() == 1,
    decreases n,
{
    if n >= 10 {
        decimal_denotes(n / 10);
        decimal_has_no_leading_zeros(n / 10);
        assert(decimal(n)[0] == decimal(n / 10)[0]);
    } else {
        assert(decimal(n)[0] as int == n + 48);
    }
}

/// A minus sign stands in front of a negative number and nowhere else; the rest
/// is the decimal text of its amount.
pub proof fn minus_stands_in_front(n: nat)
    ensures
        signed_decimal(n as int) == decimal(n),
        n > 0 ==> signed_decimal(-n) == seq!['-'] + decimal(n),
{
}

/// Padded text has four characters, or more where its number needs them: digits,
/// after a minus sign where it is negative.
pub proof fn padded_fills_four_places(n: nat)
    ensures
        all_digits(padded(n as int)),
        padded(n as int).len() == if decimal(n).len() < 4 {
            4
        } else {
            decimal(n).len()
        },
        n > 0 ==> {
            &&& padded(-n)[0] == '-'
            &&& all_digits(padded(-n).skip(1))
            &&& padded(-n).len() == if decimal(n).len() < 3 {
                4
            } else {
                decimal(n).len() + 1
            }
        },
{
    decimal_denotes(n);
    lemma_zero_filled_denotes(decimal(n), 4);
    lemma_zero_filled_denotes(decimal(n), 3);
    if n > 0 {
        assert(padded(-n).skip(1) == zero_filled(decimal(n), 3));
    }
}

/// A run of digits is an integer, with or without a sign in front.
pub proof fn signs_stand_in_front(d: Seq<char>)
    requires
        d.len() > 0,
        all_digits(d),
    ensures
        integer_value(d) == Some(digits_value(d) as int),
        integer_value(seq!['+'] + d) == Some(digits_value(d) as int),
        integer_value(seq!['-'] + d) == Some(-(digits_value(d) as int)),
{
    assert(is_digit(d[0]));
    assert((seq!['+'] + d).skip(1) == d);
    assert((seq!['-'] + d).skip(1) == d);
}

/// Nothing but a run of digits, with or without a sign in front, is an integer.
pub proof fn nothing_else_is_an_integer(s: Seq<char>)
    requires
        integer_value(s) is Some,
    ensures
        ({
            ||| s.len() > 0 && all_digits(s)
            ||| s.len() > 1 && (s[0] == '+' || s[0] == '-') && all_digits(s.skip(1))
        }),
{
}

/// An integer is read where 32 bits hold it, and as what it is.
pub proof fn integers_of_32_bits_are_read(s: Seq<char>, v: i32)
    ensures
        i32_value(s) == Some(v) <==> integer_value(s) == Some(v as int),
        i32_value(s) is None <==> (integer_value(s) matches Some(n) ==> n < -2147483648 || n
            > 2147483647),
{
}

/// The code points that count as white space.
pub proof fn white_space_by_number(c: char)
    ensures
        white_space(c) <==> {
            ||| 9 <= c as int <= 13
            ||| c as int == 32
            ||| c as int == 133
            ||| c as int == 160
            ||| c as int == 5760
            ||| 8192 <= c as int <= 8202
            ||| 8232 <= c as int <= 8233
            ||| c as int == 8239
            ||| c as int == 8287
            ||| c as int == 12288
        },
{
}

/// What is left of text without the white space at its start.
proof fn lemma_trim_start(s: Seq<char>) -> (a: int)
    ensures
        0 <= a <= s.len(),
        trim_start(s) == s.skip(a),
        forall|i: int| 0 <= i < a ==> white_space(#[trigger] s[i]),
        a < s.len() ==> !white_space(s[a]),
    decreases s.len(),
{
    if s.len() > 0 && white_space(s[0]) {
        let rest = s.skip(1);
        let b = lemma_trim_start(rest);
        assert(rest.skip(b) == s.skip(b + 1));
        assert forall|i: int| 0 <= i < b + 1 implies white_space(#[trigger] s[i]) by {
            if i > 0 {
                assert(rest[i - 1] == s[i]);
            }
        }
        b + 1
    } else {
        assert(s.skip(0) == s);
        0
    }
}

/// Text without the white space at its end: what is cut off is white space, and
/// all of it.
pub proof fn trim_end_cuts_white_space(s: Seq<char>) -> (b: int)
    ensures
        0 <= b <= s.len(),
        trim_end(s) == s.take(b),
        forall|i: int| b <= i < s.len() ==> white_space(#[trigger] s[i]),
        b > 0 ==> !white_space(s[b - 1]),
    decreases s.len(),
{
    if s.len() > 0 && white_space(s.last()) {
        let init = s.drop_last();
        let b = trim_end_cuts_white_space(init);
        assert(init.take(b) == s.take(b));
        assert forall|i: int| b <= i < s.len() implies white_space(#[trigger] s[i]) by {
            if i < s.len() - 1 {
                assert(init[i] == s[i]);
            }
        }
        b
    } else {
        assert(s.take(s.len() as int) == s);
        s.len() as int
    }
}

/// Trimmed text is what the white space surrounds: where that starts and ends
/// with something else, nothing more and nothing less is cut off.
pub proof fn trim_cuts_white_space(s: Seq<char>, a: int, b: int)
    requires
        0 <= a <= b <= s.len(),
        forall|i: int| 0 <= i < a ==> white_space(#[trigger] s[i]),
        forall|i: int| b <= i < s.len() ==> white_space(#[trigger] s[i]),
        a < b ==> !white_space(s[a]) && !white_space(s[b - 1]),
    ensures
        trim(s) == s.subrange(a, b),
{
    let x = lemma_trim_start(s);
    let t = s.skip(x);
    let y = trim_end_cuts_white_space(t);
    if a < b {
        assert(x == a);
        assert(t[b - 1 - a] == s[b - 1]);
        assert(y >= b - a);
        if y > b - a {
            assert(t[y - 1] == s[a + y - 1]);
        }
        assert(t.take(y) == s.subrange(a, b));
    } else {
        if x < s.len() {
            assert(white_space(s[x]));
        }
        assert(t.len() == 0);
        assert(trim(s) == s.subrange(a, b));
    }
}

} // verus!
