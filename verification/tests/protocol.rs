use solcatears::protocol::{frame_text, parse_line};

/// The four values of a line, read with the string functions of std.
fn read(buf: &[u8]) -> Option<(i32, i32, i32, i32)> {
    let s = core::str::from_utf8(buf).ok()?;
    let mut it = s.trim_end_matches('\r').split(',');
    let a = it.next()?.trim().parse().ok()?;
    let b = it.next()?.trim().parse().ok()?;
    let c = it.next()?.trim().parse().ok()?;
    let d = it.next()?.trim().parse().ok()?;
    match it.next() {
        Some(_) => None,
        None => Some((a, b, c, d)),
    }
}

#[test]
fn a_frame_holds_four_padded_fields() {
    assert_eq!(frame_text(0, 7, 512, 1024), "0000,0007,0512,1024\n");
    assert_eq!(frame_text(-1, -1000, 9999, 10_000), "-001,-1000,9999,10000\n");
}

#[test]
fn a_line_gives_its_values_in_order() {
    assert_eq!(parse_line(b"1,2,3,4"), Some((1, 2, 3, 4)));
    assert_eq!(parse_line(b"0512,0256,0768,1024"), Some((512, 256, 768, 1024)));
    assert_eq!(parse_line(b" 1 ,\t2,3\r,+4\r\r"), Some((1, 2, 3, 4)));
    assert_eq!(parse_line("\u{2003}-1,2,3,4".as_bytes()), Some((-1, 2, 3, 4)));
}

#[test]
fn a_line_without_four_values_gives_none() {
    assert_eq!(parse_line(b""), None);
    assert_eq!(parse_line(b"1,2,3"), None);
    assert_eq!(parse_line(b"1,2,3,4,"), None);
    assert_eq!(parse_line(b"1,2,3,4,5"), None);
    assert_eq!(parse_line(b"1,,3,4"), None);
    assert_eq!(parse_line(b"1,2,3,x"), None);
    assert_eq!(parse_line(b"1,2,3,2147483648"), None);
    assert_eq!(parse_line(b"1,2,3,4\xff"), None);
    assert_eq!(parse_line(b"\xc0\x801,2,3,4"), None);
}

#[test]
fn lines_are_read_as_with_std() {
    let lines: [&[u8]; 16] = [
        b"", b",", b",,,", b"1,2,3,4", b"1 2,3,4,5", b"\r", b"1,2,3,4\r", b"1,2,3,4\r\n",
        b"\xe2\x80\x831,2,3,4", b"\xe2\x80", b"1,2,3,\xc2\x85 4", b"+1,-2,+0,-0", b"1,2,3,4 5",
        b"-2147483648,2147483647,0,0", b"00000000000000000001,1,1,1", b"\x001,2,3,4",
    ];
    for line in lines {
        assert_eq!(parse_line(line), read(line), "{:?}", line);
    }
}

#[test]
fn what_is_sent_is_what_is_read() {
    for v in [i32::MIN, -1000, -999, -1, 0, 1, 512, 1024, 9999, 10_000, i32::MAX] {
        let text = frame_text(v, 0, 512, v);
        let body = text.strip_suffix('\n').unwrap();
        assert_eq!(parse_line(body.as_bytes()), Some((v, 0, 512, v)));
    }
}

#[test]
fn every_protocol_frame_has_four_digits_in_each_field() {
    for v in 0..=1024 {
        let text = frame_text(v, 1024 - v, v, 512);
        assert_eq!(text.len(), 20);
        assert_eq!(text, format!("{:04},{:04},{:04},0512\n", v, 1024 - v, v));
    }
}
