use solcatears::text::{
    chars_of, decimal_text, is_white_space, padded_text, parse_i32, signed_text, trim_bounds,
};

#[test]
fn decimal_text_has_no_leading_zeros() {
    for n in [0u64, 7, 9, 10, 99, 100, 1024, 4_294_967_296, u64::MAX] {
        assert_eq!(decimal_text(n), n.to_string());
    }
}

#[test]
fn signed_text_has_a_minus_sign() {
    for v in [0i32, 5, -5, 512, i32::MAX, i32::MIN] {
        assert_eq!(signed_text(v), v.to_string());
    }
}

#[test]
fn padded_text_counts_the_sign() {
    for v in -12_000i32..12_000 {
        assert_eq!(padded_text(v), format!("{:04}", v));
    }
    assert_eq!(padded_text(i32::MIN), "-2147483648");
    assert_eq!(padded_text(-5), "-005");
    assert_eq!(padded_text(512), "0512");
}

#[test]
fn white_space_is_that_of_unicode() {
    for n in 0..=0x10_ffffu32 {
        if let Some(c) = char::from_u32(n) {
            assert_eq!(is_white_space(c), c.is_whitespace(), "{:?}", c);
        }
    }
}

#[test]
fn trimming_leaves_what_str_trim_leaves() {
    for text in ["", " ", "\t\r\n", "a", " a b ", "\u{2003}12\u{3000}", "\u{200b}1", "x\u{a0}"] {
        let s = chars_of(text);
        let (a, b) = trim_bounds(&s, 0, s.len());
        let kept: String = s[a..b].iter().collect();
        assert_eq!(kept, text.trim());
    }
}

#[test]
fn integers_are_read_as_i32() {
    for text in [
        "", "+", "-", "0", "-0", "+7", "007", "2147483647", "2147483648", "-2147483648",
        "-2147483649", "99999999999999999999999", "1a", "a1", "--1", "+-1", "1 ", "\u{661}",
        "4294967808",
    ] {
        let s = chars_of(text);
        assert_eq!(parse_i32(&s, 0, s.len()), text.parse::<i32>().ok(), "{:?}", text);
    }
}
