use solcatears::clock::millis_since;
use solcatears::controller::{Controller, Tick};
use solcatears::line::LineBuffer;
use solcatears::message::{bad_message, boot_message, message_of, ok_message, sweep_message};
use solcatears::protocol::frame_text;
use solcatears::servo::{channel_duty, routes, InputAxis};
use solcatears::sweep::sweep_targets;

const MS: u64 = 1000;

/// Feeds bytes to a controller and collects what it answers.
fn feed(c: &mut Controller, bytes: &[u8], now: u64) -> Vec<String> {
    let mut answers = Vec::new();
    for &b in bytes {
        if let Some(m) = c.on_byte(b, now) {
            answers.push(m.as_str().to_string());
        }
    }
    answers
}

fn announced(t: &Tick) -> Option<&str> {
    t.announcement.as_ref().map(|m| m.as_str())
}

fn heartbeat(t: &Tick) -> Option<&str> {
    t.heartbeat.as_ref().map(|m| m.as_str())
}

#[test]
fn milliseconds_are_rounded_down() {
    assert_eq!(millis_since(0, 999), 0);
    assert_eq!(millis_since(1, 1000), 0);
    assert_eq!(millis_since(1, 1001), 1);
    assert_eq!(millis_since(500, 2_500_499), 2_499);
    assert_eq!(millis_since(0, u64::MAX), u64::MAX / 1000);
}

#[test]
fn messages_hold_their_text() {
    assert_eq!(ok_message(1, -2, 512, 1024).as_str(), "OK 1,-2,512,1024\n");
    assert_eq!(
        ok_message(i32::MIN, i32::MIN, i32::MIN, i32::MIN).as_str(),
        "OK -2147483648,-2147483648,-2147483648,-2147483648\n"
    );
    assert_eq!(boot_message().as_str(), "BOOT solcatears-fw v0.1\n");
    assert_eq!(bad_message().as_str(), "BAD\n");
    assert_eq!(sweep_message(3, 256, 257, 258, 768).as_str(), "SWEEP t=3s t=256,257,258,768\n");
    assert_eq!(
        sweep_message(u64::MAX, i32::MIN, 0, 0, 0).as_str(),
        "SWEEP t=18446744073709551615s t=-2147483648,0,0,0\n"
    );
    let long = "x".repeat(128);
    assert_eq!(message_of(&long).as_str(), long);
}

#[test]
fn a_line_buffer_holds_thirty_two_bytes() {
    let mut l = LineBuffer::new();
    for i in 0..32u8 {
        l.gather(b'a' + i % 26);
        l.gather(b'\r');
    }
    assert_eq!(l.bytes().unwrap().len(), 32);
    assert_eq!(l.bytes().unwrap()[31], b'a' + 5);
    l.gather(b'\r');
    assert!(l.bytes().is_some());
    l.gather(b'z');
    assert_eq!(l.bytes(), None);
    l.gather(b'y');
    l.gather(b'\r');
    assert_eq!(l.bytes(), None);
    l.clear();
    assert_eq!(l.bytes(), Some(&b""[..]));
    l.gather(b'y');
    assert_eq!(l.bytes(), Some(&b"y"[..]));
}

#[test]
fn a_valid_line_is_followed() {
    let mut c = Controller::new(0);
    let line = frame_text(300, 400, 600, 700);
    assert_eq!(feed(&mut c, line.as_bytes(), 10 * MS), ["OK 300,400,600,700\n"]);
    let t = c.tick(20 * MS);
    assert_eq!(announced(&t), Some("MODE follow\n"));
    let r = routes();
    assert_eq!(
        t.duties,
        Some([
            channel_duty(300, &r[0]),
            channel_duty(400, &r[1]),
            channel_duty(600, &r[2]),
            channel_duty(700, &r[3]),
        ])
    );
    assert_eq!(heartbeat(&t), None);
    let t = c.tick(40 * MS);
    assert_eq!(announced(&t), None);
    assert_eq!(t.duties, None);
}

#[test]
fn a_bad_line_is_answered_and_changes_nothing() {
    let mut c = Controller::new(0);
    feed(&mut c, b"300,400,600,700\n", MS);
    c.tick(2 * MS);
    assert_eq!(feed(&mut c, b"1,2,3\n\n1,2,3,x\r\n", 3 * MS), ["BAD\n", "BAD\n", "BAD\n"]);
    assert_eq!(c.tick(4 * MS).duties, None);
    // Only the valid line counts for how stale the input is.
    assert_eq!(announced(&c.tick(501 * MS)), Some("MODE center\n"));
}

#[test]
fn a_newline_starts_afresh() {
    let mut c = Controller::new(0);
    let junk = [b'9'; 40];
    assert!(feed(&mut c, &junk, 0).is_empty());
    assert_eq!(feed(&mut c, b"\n", 0), ["BAD\n"]);
    assert_eq!(feed(&mut c, b"1,2,3,4\n", 0), ["OK 1,2,3,4\n"]);
}

#[test]
fn an_overrun_drops_the_whole_line() {
    let mut c = Controller::new(0);
    feed(&mut c, b"300,400,600,700\n", 0);
    c.tick(0);
    // What would be a frame of its own ends a line that is too long.
    assert!(feed(&mut c, &[b'9'; 33], 400 * MS).is_empty());
    c.tick(400 * MS);
    assert_eq!(feed(&mut c, b"1,2,3,4\r\n", 400 * MS), ["BAD\n"]);
    assert_eq!(c.tick(499 * MS).duties, None);
    // The dropped line does not count for how stale the input is.
    assert_eq!(announced(&c.tick(500 * MS)), Some("MODE center\n"));
    assert_eq!(feed(&mut c, b"1,2,3,4\n", 500 * MS), ["OK 1,2,3,4\n"]);
}

#[test]
fn the_longest_line_fits() {
    let mut c = Controller::new(0);
    let line = b"1000000,-100000,+200000,00003000\n";
    assert_eq!(line.len(), 33);
    assert_eq!(feed(&mut c, line, 0), ["OK 1000000,-100000,200000,3000\n"]);
}

#[test]
fn modes_go_by_staleness() {
    let mut c = Controller::new(1_000_000);
    feed(&mut c, b"512,512,512,512\n", 2_000_000);
    for (now, mode) in [
        (2_000_000u64, Some("MODE follow\n")),
        (2_499_999, None),
        (2_500_000, Some("MODE center\n")),
        (4_999_999, None),
        (5_000_000, Some("MODE sweep\n")),
    ] {
        assert_eq!(announced(&c.tick(now)), mode);
    }
    feed(&mut c, b"512,512,512,512\n", 5_100_000);
    assert_eq!(announced(&c.tick(5_100_000)), Some("MODE follow\n"));
}

#[test]
fn a_quiet_boot_rests_and_then_sweeps() {
    let mut c = Controller::new(0);
    let center = channel_duty(512, &routes()[0]);
    let t = c.tick(0);
    assert_eq!(announced(&t), Some("MODE follow\n"));
    assert_eq!(t.duties, Some([center; 4]));
    let t = c.tick(500 * MS);
    assert_eq!(announced(&t), Some("MODE center\n"));
    assert_eq!(t.duties, None);
    let t = c.tick(3_000 * MS);
    assert_eq!(announced(&t), Some("MODE sweep\n"));
    let s = sweep_targets(3_000);
    assert_eq!(s, [450, 677, 565, 759]);
    let r = routes();
    assert_eq!(
        t.duties,
        Some([
            channel_duty(s[0], &r[0]),
            channel_duty(s[1], &r[1]),
            channel_duty(s[2], &r[2]),
            channel_duty(s[3], &r[3]),
        ])
    );
    assert_eq!(heartbeat(&t), Some("SWEEP t=3s t=450,677,565,759\n"));
    assert_eq!(heartbeat(&c.tick(3_020 * MS)), None);
    assert!(c.tick(3_040 * MS).duties.is_some());
    let s = sweep_targets(4_000);
    let expected = format!("SWEEP t=4s t={},{},{},{}\n", s[0], s[1], s[2], s[3]);
    assert_eq!(heartbeat(&c.tick(4_000 * MS)), Some(expected.as_str()));
}

#[test]
fn the_wiring_decides_what_drives_a_channel() {
    let mut r = routes();
    r[0].source = InputAxis::RightY;
    r[1].invert = true;
    r[2].enabled = false;
    let mut c = Controller::with_routes(0, r);
    feed(&mut c, b"300,400,600,700\n", 0);
    let d = c.tick(0).duties.unwrap();
    let usual = routes();
    assert_eq!(d[0], channel_duty(700, &usual[0]));
    assert_eq!(d[1], channel_duty(1024 - 400, &usual[1]));
    assert_eq!(d[2], 0);
    assert_eq!(d[3], channel_duty(700, &usual[3]));
    // The disabled channel is idle in the self-test too.
    assert_eq!(c.tick(10_000 * MS).duties.unwrap()[2], 0);
}

#[test]
fn the_first_tick_drives_whatever_came_before_it() {
    let mut c = Controller::new(0);
    assert!(c.tick(0).duties.is_some());
    assert!(c.tick(0).duties.is_none());
    let mut r = routes();
    for o in 0..4 {
        r[o].source = InputAxis::LeftX;
    }
    let mut c = Controller::with_routes(0, r);
    assert_eq!(feed(&mut c, b"-2147483648,0,0,0\n", 0), ["OK -2147483648,0,0,0\n"]);
    assert_eq!(c.tick(0).duties, Some([channel_duty(i32::MIN, &r[0]); 4]));
    assert!(c.tick(0).duties.is_none());
}

#[test]
fn time_only_moves_on() {
    let mut c = Controller::new(1_000);
    assert!(!c.has_seen_before(999));
    assert!(c.has_seen_before(1_000));
    feed(&mut c, b"1,2,3,4\n", 5_000);
    assert!(!c.has_seen_before(4_999));
    assert!(c.has_seen_before(5_000));
}

#[test]
fn a_frame_is_taken_whatever_ticks_pass_in_it() {
    let mut c = Controller::new(0);
    let line = frame_text(300, 400, 600, 700);
    let mut now = 0;
    for &b in line.as_bytes() {
        now += 100 * MS;
        let answer = c.on_byte(b, now);
        assert_eq!(answer.is_some(), b == b'\n');
        assert!(c.has_seen_before(now));
        c.tick(now);
    }
    // The twenty bytes took two seconds, and the frame counts from the last.
    assert_eq!(now, 2_000 * MS);
    let mut d = Controller::new(0);
    feed(&mut d, line.as_bytes(), now);
    let usual = d.tick(now).duties;
    assert!(usual.is_some());
    assert_eq!(c.tick(2_499 * MS).duties, None);
    assert_eq!(announced(&c.tick(2_500 * MS)), Some("MODE center\n"));
    feed(&mut c, line.as_bytes(), 2_600 * MS);
    assert_eq!(c.tick(2_600 * MS).duties, usual);
}

#[test]
fn the_self_test_goes_by_time_alone() {
    let mut r = routes();
    for o in 0..4 {
        r[o].source = InputAxis::RightY;
    }
    let mut c = Controller::with_routes(0, r);
    let mut d = Controller::new(0);
    feed(&mut c, b"300,400,600,700\n", 0);
    feed(&mut d, b"512,512,512,512\n", 0);
    let t = c.tick(7_123 * MS);
    assert_eq!(t.duties, d.tick(7_123 * MS).duties);
    assert!(t.duties.is_some());
}
