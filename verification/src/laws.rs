//! What holds of the ear controller over several bytes and ticks, and of the
//! controller and the forwarder together.

use vstd::prelude::*;
use vstd::utf8::{encode_utf8, is_ascii_chars};

use crate::clock::millis_between;
use crate::controller::{
    duties_of, ints, mode_text, text_of, Ears, Mode, FAILSAFE_TIMEOUT_MS, SWEEP_AFTER_MS,
};
use crate::line::{empty_line, gathered, CARRIAGE_RETURN, LINE_CAPACITY, NEWLINE};
use crate::message::{bad_text, message_text, ok_text, sweep_text};
use crate::protocol::{
    frame, frame_body, frame_reads_back, frame_shape, line_values, padded_is_plain,
};
use crate::servo::{
    center_is_neutral, clamped, driven_where_enabled, InputAxis, ServoRoute, INPUT_CENTER, MAX_DUTY,
};
use crate::session::GazeSample;
use crate::sweep::sweep_value;
use crate::text::{is_digit, padded};

verus! {

impl Ears {
    /// The state after `bytes` came in at the time `now`.
    pub open spec fn after_bytes(self, bytes: Seq<u8>, now: int) -> Ears
        decreases bytes.len(),
    {
        if bytes.len() == 0 {
            self
        } else {
            self.after_bytes(bytes.drop_last(), now).after_byte(bytes.last(), now)
        }
    }

    /// The answers to `bytes` that come in at the time `now`.
    pub open spec fn answers(self, bytes: Seq<u8>, now: int) -> Seq<Seq<char>>
        decreases bytes.len(),
    {
        if bytes.len() == 0 {
            Seq::empty()
        } else {
            let earlier = self.answers(bytes.drop_last(), now);
            match self.after_bytes(bytes.drop_last(), now).answer(bytes.last()) {
                Some(text) => earlier.push(text),
                None => earlier,
            }
        }
    }
}

/// Whatever comes in, the state stays valid.
pub proof fn bytes_keep_valid(e: Ears, bytes: Seq<u8>, now: int)
    requires
        e.valid(),
    ensures
        e.after_bytes(bytes, now).valid(),
    decreases bytes.len(),
{
    if bytes.len() > 0 {
        bytes_keep_valid(e, bytes.drop_last(), now);
    }
}

/// Bytes come in one after the other: cutting them in two changes nothing.
pub proof fn bytes_come_in_any_portions(e: Ears, first: Seq<u8>, second: Seq<u8>, now: int)
    ensures
        e.after_bytes(first + second, now) == e.after_bytes(first, now).after_bytes(second, now),
        e.answers(first + second, now) == e.answers(first, now) + e.after_bytes(
            first,
            now,
        ).answers(second, now),
    decreases second.len(),
{
    if second.len() == 0 {
        assert(first + second == first);
        assert(e.answers(first, now) + Seq::<Seq<char>>::empty() == e.answers(first, now));
    } else {
        bytes_come_in_any_portions(e, first, second.drop_last(), now);
        let all = first + second;
        assert(all.drop_last() == first + second.drop_last());
        assert(all.last() == second.last());
    }
}

/// `bytes` without the carriage returns among them.
pub open spec fn kept(bytes: Seq<u8>) -> Seq<u8>
    decreases bytes.len(),
{
    if bytes.len() == 0 {
        Seq::empty()
    } else if bytes.last() == CARRIAGE_RETURN {
        kept(bytes.drop_last())
    } else {
        kept(bytes.drop_last()).push(bytes.last())
    }
}

/// What a line holds once all of `bytes` have come in: its bytes but for the
/// carriage returns, or nothing where those are more than a line may have.
pub open spec fn line_of(bytes: Seq<u8>) -> Option<Seq<u8>> {
    if kept(bytes).len() <= LINE_CAPACITY {
        Some(kept(bytes))
    } else {
        None
    }
}

/// The values of a line of `bytes`, given without its newline; one that is too
/// long has none.
pub open spec fn values_of(bytes: Seq<u8>) -> Option<(i32, i32, i32, i32)> {
    match line_of(bytes) {
        Some(line) => line_values(line),
        None => None,
    }
}

/// One more byte of a line is gathered.
proof fn lemma_line_step(bytes: Seq<u8>)
    requires
        bytes.len() > 0,
    ensures
        gathered(line_of(bytes.drop_last()), bytes.last()) == line_of(bytes),
{
}

/// A line starts with nothing.
proof fn lemma_line_start()
    ensures
        line_of(Seq::<u8>::empty()) == empty_line(),
{
}

/// Without carriage returns all bytes are kept.
proof fn lemma_kept_all(bytes: Seq<u8>)
    requires
        forall|i: int| 0 <= i < bytes.len() ==> #[trigger] bytes[i] != CARRIAGE_RETURN,
    ensures
        kept(bytes) == bytes,
    decreases bytes.len(),
{
    if bytes.len() > 0 {
        let init = bytes.drop_last();
        assert forall|i: int| 0 <= i < init.len() implies #[trigger] init[i]
            != CARRIAGE_RETURN by {
            assert(init[i] == bytes[i]);
        }
        lemma_kept_all(init);
        assert(init.push(bytes.last()) == bytes);
    }
}

/// The bytes of a line are gathered as they come in.
proof fn lemma_gathered(e: Ears, bytes: Seq<u8>, now: int)
    requires
        e.line == empty_line(),
        forall|i: int| 0 <= i < bytes.len() ==> #[trigger] bytes[i] != NEWLINE,
    ensures
        e.after_bytes(bytes, now) == (Ears { line: line_of(bytes), ..e }),
        e.answers(bytes, now) == Seq::<Seq<char>>::empty(),
    decreases bytes.len(),
{
    if bytes.len() == 0 {
        lemma_line_start();
        assert(bytes == Seq::<u8>::empty());
    } else {
        let init = bytes.drop_last();
        assert forall|i: int| 0 <= i < init.len() implies #[trigger] init[i] != NEWLINE by {
            assert(init[i] == bytes[i]);
        }
        lemma_gathered(e, init, now);
        assert(bytes[bytes.len() - 1] != NEWLINE);
        lemma_line_step(bytes);
    }
}

/// A line is judged as a whole: what becomes of it goes by all its bytes but
/// for the carriage returns, and by nothing that came before it.
pub proof fn line_is_judged_whole(e: Ears, bytes: Seq<u8>, now: int)
    requires
        e.line == empty_line(),
        forall|i: int| 0 <= i < bytes.len() ==> #[trigger] bytes[i] != NEWLINE,
    ensures
        values_of(bytes) matches Some((a, b, x, y)) ==> e.after_bytes(bytes.push(NEWLINE), now)
            == (Ears {
            last_line: Some(now),
            targets: seq![a as int, b as int, x as int, y as int],
            ..e
        }) && e.answers(bytes.push(NEWLINE), now) == seq![
            ok_text(a as int, b as int, x as int, y as int),
        ],
        values_of(bytes) is None ==> e.after_bytes(bytes.push(NEWLINE), now) == e && e.answers(
            bytes.push(NEWLINE),
            now,
        ) == seq![bad_text()],
{
    lemma_gathered(e, bytes, now);
    let all = bytes.push(NEWLINE);
    assert(all.drop_last() == bytes);
    match e.after_bytes(bytes, now).answer(NEWLINE) {
        Some(text) => {
            assert(e.answers(all, now) == seq![text]);
        },
        None => {},
    }
}

/// A line with more bytes than a line may have is dropped as a whole, whatever
/// it ends with: it is answered as one without values and changes nothing.
pub proof fn overrun_drops_line(e: Ears, bytes: Seq<u8>, now: int)
    requires
        e.line == empty_line(),
        forall|i: int| 0 <= i < bytes.len() ==> #[trigger] bytes[i] != NEWLINE,
        kept(bytes).len() > LINE_CAPACITY,
    ensures
        e.after_bytes(bytes.push(NEWLINE), now) == e,
        e.answers(bytes.push(NEWLINE), now) == seq![bad_text()],
{
    line_is_judged_whole(e, bytes, now);
}

/// A frame is sent as one byte for each of its characters, and only its last
/// byte ends a line.
proof fn lemma_frame_bytes(lx: i32, ly: i32, rx: i32, ry: i32)
    ensures
        encode_utf8(frame(lx, ly, rx, ry)) == encode_utf8(frame_body(lx, ly, rx, ry)).push(NEWLINE),
        encode_utf8(frame_body(lx, ly, rx, ry)).len() == frame_body(lx, ly, rx, ry).len(),
        forall|i: int|
            0 <= i < frame_body(lx, ly, rx, ry).len() ==> #[trigger] encode_utf8(
                frame_body(lx, ly, rx, ry),
            )[i] != NEWLINE && encode_utf8(frame_body(lx, ly, rx, ry))[i] != CARRIAGE_RETURN,
{
    let (a, b, c, d) = (
        padded(lx as int),
        padded(ly as int),
        padded(rx as int),
        padded(ry as int),
    );
    padded_is_plain(lx as int);
    padded_is_plain(ly as int);
    padded_is_plain(rx as int);
    padded_is_plain(ry as int);
    let body = frame_body(lx, ly, rx, ry);
    let (p, q, r) = (a.len() as int, a.len() + b.len() + 1, a.len() + b.len() + c.len() + 2);
    assert forall|i: int| 0 <= i < body.len() implies is_digit(#[trigger] body[i]) || body[i]
        == '-' || body[i] == ',' by {
        if i < p {
            assert(body[i] == a[i]);
        } else if p < i < q {
            assert(body[i] == b[i - p - 1]);
        } else if q < i < r {
            assert(body[i] == c[i - q - 1]);
        } else if i > r {
            assert(body[i] == d[i - r - 1]);
        }
    }
    let all = frame(lx, ly, rx, ry);
    assert(is_ascii_chars(body));
    assert(is_ascii_chars(all));
    vstd::utf8::is_ascii_chars_encode_utf8(body);
    vstd::utf8::is_ascii_chars_encode_utf8(all);
    let x = encode_utf8(body);
    let y = encode_utf8(all);
    assert forall|i: int| 0 <= i < y.len() implies #[trigger] y[i] == x.push(NEWLINE)[i] by {
        assert(y[i] == all[i] as u8);
        if i < x.len() {
            assert(x[i] == body[i] as u8);
        }
    }
    assert(y == x.push(NEWLINE));
    assert forall|i: int| 0 <= i < body.len() implies #[trigger] x[i] != NEWLINE && x[i]
        != CARRIAGE_RETURN by {
        assert(x[i] == body[i] as u8);
    }
}

/// A frame that fits is kept whole and has its values.
proof fn lemma_frame_kept(lx: i32, ly: i32, rx: i32, ry: i32)
    requires
        frame_body(lx, ly, rx, ry).len() <= LINE_CAPACITY,
    ensures
        values_of(encode_utf8(frame_body(lx, ly, rx, ry))) == Some((lx, ly, rx, ry)),
{
    lemma_frame_bytes(lx, ly, rx, ry);
    lemma_kept_all(encode_utf8(frame_body(lx, ly, rx, ry)));
    frame_reads_back(lx, ly, rx, ry);
}

/// A frame that comes in at the start of a line is taken as the new values and
/// answered with them, and nothing else changes.
pub proof fn frame_is_taken(e: Ears, lx: i32, ly: i32, rx: i32, ry: i32, now: int)
    requires
        e.line == empty_line(),
        frame_body(lx, ly, rx, ry).len() <= LINE_CAPACITY,
    ensures
        e.after_bytes(encode_utf8(frame(lx, ly, rx, ry)), now) == (Ears {
            last_line: Some(now),
            targets: seq![lx as int, ly as int, rx as int, ry as int],
            ..e
        }),
        e.answers(encode_utf8(frame(lx, ly, rx, ry)), now) == seq![
            ok_text(lx as int, ly as int, rx as int, ry as int),
        ],
{
    let body = encode_utf8(frame_body(lx, ly, rx, ry));
    lemma_frame_bytes(lx, ly, rx, ry);
    lemma_frame_kept(lx, ly, rx, ry);
    line_is_judged_whole(e, body, now);
}

/// Every line that the protocol allows, with values from 0 to 1024, fits the
/// controller's buffer and is taken.
pub proof fn protocol_frame_is_taken(e: Ears, lx: i32, ly: i32, rx: i32, ry: i32, now: int)
    requires
        e.line == empty_line(),
        0 <= lx <= 1024,
        0 <= ly <= 1024,
        0 <= rx <= 1024,
        0 <= ry <= 1024,
    ensures
        e.after_bytes(encode_utf8(frame(lx, ly, rx, ry)), now) == (Ears {
            last_line: Some(now),
            targets: seq![lx as int, ly as int, rx as int, ry as int],
            ..e
        }),
        e.answers(encode_utf8(frame(lx, ly, rx, ry)), now) == seq![
            ok_text(lx as int, ly as int, rx as int, ry as int),
        ],
{
    frame_shape(lx, ly, rx, ry);
    frame_is_taken(e, lx, ly, rx, ry, now);
}

/// A newline starts a line afresh.
pub proof fn newline_clears(e: Ears, junk: Seq<u8>, now: int)
    ensures
        e.after_bytes(junk.push(NEWLINE), now).line == empty_line(),
{
    assert(junk.push(NEWLINE).drop_last() == junk);
}

/// Whatever came before it, a newline starts a line afresh: the frame after it
/// is taken.
pub proof fn newline_recovers(
    e: Ears,
    junk: Seq<u8>,
    lx: i32,
    ly: i32,
    rx: i32,
    ry: i32,
    now: int,
)
    requires
        frame_body(lx, ly, rx, ry).len() <= LINE_CAPACITY,
    ensures
        ({
            let after = e.after_bytes(
                junk.push(NEWLINE) + encode_utf8(frame(lx, ly, rx, ry)),
                now,
            );
            &&& after.targets == seq![lx as int, ly as int, rx as int, ry as int]
            &&& after.last_line == Some(now)
            &&& after.line == empty_line()
        }),
{
    let first = junk.push(NEWLINE);
    let second = encode_utf8(frame(lx, ly, rx, ry));
    let middle = e.after_bytes(first, now);
    let after = e.after_bytes(first + second, now);
    newline_clears(e, junk, now);
    assert(after == middle.after_bytes(second, now)) by {
        bytes_come_in_any_portions(e, first, second, now);
    }
    assert(middle.after_bytes(second, now) == (Ears {
        last_line: Some(now),
        targets: seq![lx as int, ly as int, rx as int, ry as int],
        ..middle
    })) by {
        frame_is_taken(middle, lx, ly, rx, ry, now);
    }
}

/// A line without values is answered so and changes nothing that the ears go
/// by.
pub proof fn bad_line_changes_nothing(e: Ears, now: int)
    requires
        e.values() is None,
    ensures
        e.answer(NEWLINE) == Some(bad_text()),
        e.after_byte(NEWLINE, now) == (Ears { line: empty_line(), ..e }),
{
}

/// Only a newline is answered, and it always is.
pub proof fn one_answer_for_each_line(e: Ears, c: u8)
    ensures
        e.answer(c) is Some <==> c == NEWLINE,
{
}

/// The ears move as they were told within the failsafe time: each channel is
/// given the value that it is wired to.
pub proof fn ears_follow_gaze(
    e: Ears,
    lx: i32,
    ly: i32,
    rx: i32,
    ry: i32,
    sent: int,
    now: int,
    o: int,
)
    requires
        e.valid(),
        e.line == empty_line(),
        0 <= lx <= 1024,
        0 <= ly <= 1024,
        0 <= rx <= 1024,
        0 <= ry <= 1024,
        sent <= now,
        millis_between(sent, now) < FAILSAFE_TIMEOUT_MS,
        0 <= o < 4,
    ensures
        ({
            let after = e.after_bytes(encode_utf8(frame(lx, ly, rx, ry)), sent);
            &&& after.mode_at(now) == Mode::Follow
            &&& after.inputs_at(now)[o] == seq![lx as int, ly as int, rx as int, ry as int][
                e.routes[o].source.place()
            ]
        }),
{
    protocol_frame_is_taken(e, lx, ly, rx, ry, sent);
}

/// What can happen to a controller.
pub ghost enum Event {
    /// A byte comes in.
    Byte(u8),
    /// A tick passes.
    Tick,
}

impl Ears {
    /// The state after an event at the time `now`.
    pub open spec fn after_event(self, event: Event, now: int) -> Ears {
        match event {
            Event::Byte(c) => self.after_byte(c, now),
            Event::Tick => self.after_tick(now),
        }
    }

    /// The state after events, each with its time.
    pub open spec fn after_events(self, events: Seq<(Event, int)>) -> Ears
        decreases events.len(),
    {
        if events.len() == 0 {
            self
        } else {
            self.after_events(events.drop_last()).after_event(events.last().0, events.last().1)
        }
    }
}

/// The bytes among events.
pub open spec fn bytes_among(events: Seq<(Event, int)>) -> Seq<u8>
    decreases events.len(),
{
    if events.len() == 0 {
        Seq::empty()
    } else {
        let earlier = bytes_among(events.drop_last());
        match events.last().0 {
            Event::Byte(c) => earlier.push(c),
            Event::Tick => earlier,
        }
    }
}

/// Whatever happens, the state stays valid.
pub proof fn events_keep_valid(e: Ears, events: Seq<(Event, int)>)
    requires
        e.valid(),
    ensures
        e.after_events(events).valid(),
    decreases events.len(),
{
    if events.len() > 0 {
        events_keep_valid(e, events.drop_last());
    }
}

/// As long as the clock does not go back, a tick can always be made.
pub proof fn a_tick_can_follow(e: Ears, events: Seq<(Event, int)>, now: int)
    requires
        e.seen_before(now),
        forall|i: int| 0 <= i < events.len() ==> (#[trigger] events[i]).1 <= now,
    ensures
        e.after_events(events).seen_before(now),
    decreases events.len(),
{
    if events.len() > 0 {
        let init = events.drop_last();
        assert forall|i: int| 0 <= i < init.len() implies (#[trigger] init[i]).1 <= now by {
            assert(init[i] == events[i]);
        }
        a_tick_can_follow(e, init, now);
        assert(events[events.len() - 1].1 <= now);
    }
}

/// The bytes of a line are gathered whenever they come in and whatever ticks
/// pass meanwhile.
proof fn lemma_gathered_among(e: Ears, events: Seq<(Event, int)>)
    requires
        e.line == empty_line(),
        forall|i: int|
            0 <= i < bytes_among(events).len() ==> #[trigger] bytes_among(events)[i] != NEWLINE,
    ensures
        e.after_events(events).line == line_of(bytes_among(events)),
        e.after_events(events).targets == e.targets,
        e.after_events(events).last_line == e.last_line,
    decreases events.len(),
{
    if events.len() == 0 {
        lemma_line_start();
    } else {
        let init = events.drop_last();
        let all = bytes_among(events);
        let some = bytes_among(init);
        assert forall|i: int| 0 <= i < some.len() implies #[trigger] some[i] != NEWLINE by {
            assert(some[i] == all[i]);
        }
        lemma_gathered_among(e, init);
        match events.last().0 {
            Event::Byte(c) => {
                assert(all[all.len() - 1] == c);
                assert(all.drop_last() == some);
                lemma_line_step(all);
            },
            Event::Tick => {},
        }
    }
}

/// A line that is too long is dropped however its bytes are spread over time
/// and whatever ticks pass between them.
pub proof fn overrun_drops_line_among_ticks(e: Ears, events: Seq<(Event, int)>, now: int)
    requires
        e.line == empty_line(),
        forall|i: int|
            0 <= i < bytes_among(events).len() ==> #[trigger] bytes_among(events)[i] != NEWLINE,
        kept(bytes_among(events)).len() > LINE_CAPACITY,
    ensures
        ({
            let before = e.after_events(events);
            let after = e.after_events(events.push((Event::Byte(NEWLINE), now)));
            &&& before.answer(NEWLINE) == Some(bad_text())
            &&& after.targets == e.targets
            &&& after.last_line == e.last_line
            &&& after.line == empty_line()
        }),
{
    lemma_gathered_among(e, events);
    assert(events.push((Event::Byte(NEWLINE), now)).drop_last() == events);
}

/// A frame is taken however its bytes are spread over time and whatever ticks
/// pass between them: it counts from the moment at which it is complete.
pub proof fn frame_is_taken_among_ticks(
    e: Ears,
    events: Seq<(Event, int)>,
    lx: i32,
    ly: i32,
    rx: i32,
    ry: i32,
    now: int,
)
    requires
        e.line == empty_line(),
        frame_body(lx, ly, rx, ry).len() <= LINE_CAPACITY,
        bytes_among(events) == encode_utf8(frame_body(lx, ly, rx, ry)),
    ensures
        ({
            let before = e.after_events(events);
            let after = e.after_events(events.push((Event::Byte(NEWLINE), now)));
            &&& before.answer(NEWLINE) == Some(
                ok_text(lx as int, ly as int, rx as int, ry as int),
            )
            &&& before.targets == e.targets
            &&& after.targets == seq![lx as int, ly as int, rx as int, ry as int]
            &&& after.last_line == Some(now)
            &&& after.line == empty_line()
        }),
{
    lemma_frame_bytes(lx, ly, rx, ry);
    lemma_frame_kept(lx, ly, rx, ry);
    lemma_gathered_among(e, events);
    assert(events.push((Event::Byte(NEWLINE), now)).drop_last() == events);
}

/// From the headset to the ears: the line for a sample sets the values that the
/// ears go by, the gaze while the headset is worn and the center while it is
/// not.
pub proof fn sample_reaches_ears(e: Ears, sample: GazeSample, now: int)
    requires
        e.line == empty_line(),
        0 <= sample.left_x <= 1024,
        0 <= sample.left_y <= 1024,
        0 <= sample.right_x <= 1024,
        0 <= sample.right_y <= 1024,
    ensures
        e.after_bytes(encode_utf8(sample.line()), now) == (Ears {
            last_line: Some(now),
            targets: if sample.eyes_in_headset {
                seq![
                    sample.left_x as int,
                    sample.left_y as int,
                    sample.right_x as int,
                    sample.right_y as int,
                ]
            } else {
                seq![512int, 512int, 512int, 512int]
            },
            ..e
        }),
{
    if sample.eyes_in_headset {
        protocol_frame_is_taken(
            e,
            sample.left_x,
            sample.left_y,
            sample.right_x,
            sample.right_y,
            now,
        );
    } else {
        protocol_frame_is_taken(e, 512, 512, 512, 512, now);
    }
}

/// The mode goes by staleness alone: two controllers that are equally stale are
/// in the same mode, whatever they did before.
pub proof fn mode_goes_by_staleness(e: Ears, f: Ears, now: int, then: int)
    requires
        e.stale_ms(now) == f.stale_ms(then),
    ensures
        e.mode_at(now) == f.mode_at(then),
        e.mode_at(now) == Mode::Follow <==> e.stale_ms(now) < FAILSAFE_TIMEOUT_MS,
        e.mode_at(now) == Mode::Center <==> FAILSAFE_TIMEOUT_MS <= e.stale_ms(now)
            < SWEEP_AFTER_MS,
        e.mode_at(now) == Mode::Sweep <==> e.stale_ms(now) >= SWEEP_AFTER_MS,
{
}

/// While no line comes in, the ears go from following to holding still to the
/// self-test, and never back.
pub proof fn modes_come_in_order(e: Ears, now: int, then: int)
    requires
        now <= then,
    ensures
        e.mode_at(then) == Mode::Follow ==> e.mode_at(now) == Mode::Follow,
        e.mode_at(now) == Mode::Sweep ==> e.mode_at(then) == Mode::Sweep,
{
}

/// The self-test takes each channel through its own wave, however it is wired
/// and whatever the last values were.
pub proof fn self_test_ignores_wiring(e: Ears, f: Ears, now: int)
    requires
        e.mode_at(now) == Mode::Sweep,
        f.boot == e.boot,
        f.last_line == e.last_line,
    ensures
        f.inputs_at(now) == e.inputs_at(now),
{
}

/// Until a valid line comes in, the ears rest at the center and then go over to
/// the self-test, as they do when the input stops.
pub proof fn quiet_boot_rests(e: Ears, now: int, o: int)
    requires
        e.valid(),
        e.last_line is None,
        e.boot <= now,
        0 <= o < 4,
    ensures
        e.uptime_ms(now) < SWEEP_AFTER_MS ==> e.inputs_at(now)[o] == INPUT_CENTER,
        e.uptime_ms(now) >= SWEEP_AFTER_MS ==> e.mode_at(now) == Mode::Sweep,
{
}

/// In a short gap of the input every channel holds its rest angle.
pub proof fn gap_holds_neutral(e: Ears, now: int, o: int)
    requires
        e.valid(),
        e.mode_at(now) == Mode::Center,
        0 <= o < 4,
    ensures
        e.routes[o].angle(e.inputs_at(now)[o]) == clamped(e.routes[o].neutral_deg as int, 0, 180),
{
    center_is_neutral(e.routes[o]);
}

/// In every mode the enabled channels are driven, and the others are not.
pub proof fn driven_in_every_mode(e: Ears, now: int, o: int)
    requires
        e.valid(),
        e.duties(now) is Some,
        0 <= o < 4,
    ensures
        e.duties(now)->0.len() == 4,
        e.routes[o].enabled ==> 0 < e.duties(now)->0[o] < MAX_DUTY,
        !e.routes[o].enabled ==> e.duties(now)->0[o] == 0,
{
    driven_where_enabled(e.routes[o], e.inputs_at(now)[o]);
}

/// The first tick drives the channels, whatever came in before it.
pub proof fn first_tick_drives(e: Ears, bytes: Seq<u8>, sent: int, now: int)
    requires
        e.applied is None,
    ensures
        e.after_bytes(bytes, sent).duties(now) is Some,
{
    lemma_bytes_drive_nothing(e, bytes, sent);
}

/// Bytes alone do not drive the channels.
proof fn lemma_bytes_drive_nothing(e: Ears, bytes: Seq<u8>, now: int)
    ensures
        e.after_bytes(bytes, now).applied == e.applied,
    decreases bytes.len(),
{
    if bytes.len() > 0 {
        lemma_bytes_drive_nothing(e, bytes.drop_last(), now);
    }
}

/// After a tick the channels stand where the tick put them: duties are set
/// again only when an input changes.
pub proof fn duties_set_once(e: Ears, now: int, then: int)
    ensures
        e.after_tick(now).duties(then) is None <==> e.after_tick(now).inputs_at(then)
            == e.inputs_at(now),
{
}

/// A mode is announced when it begins, and not again while it lasts.
pub proof fn mode_announced_once(e: Ears, now: int, then: int)
    ensures
        e.mode_at(now) != e.mode ==> e.announcement(now) == Some(mode_text(e.mode_at(now))),
        e.after_tick(now).announcement(then) is None <==> e.mode_at(then) == e.mode_at(now),
{
}

/// The self-test gives a sign of life in each second, and one only.
pub proof fn one_heartbeat_each_second(e: Ears, now: int, then: int)
    requires
        e.mode_at(now) == Mode::Sweep,
    ensures
        e.after_tick(now).heartbeat(then) is Some <==> e.mode_at(then) == Mode::Sweep
            && e.uptime_ms(then) / 1000 != e.uptime_ms(now) / 1000,
{
}

/// A tick changes neither the values nor the line, so that it does not affect
/// what later lines do.
pub proof fn tick_keeps_input(e: Ears, now: int)
    requires
        e.valid(),
    ensures
        e.after_tick(now).valid(),
        e.after_tick(now).line == e.line,
        e.after_tick(now).targets == e.targets,
        e.after_tick(now).last_line == e.last_line,
        e.after_tick(now).routes == e.routes,
        forall|then: int| e.after_tick(now).inputs_at(then) == e.inputs_at(then),
{
    assert forall|then: int| e.after_tick(now).inputs_at(then) == e.inputs_at(then) by {
        assert(e.after_tick(now).inputs_at(then) =~= e.inputs_at(then));
    }
}

/// The mode by the clock: the ears follow for half a second after a valid line,
/// hold still until three seconds after it, and are in the self-test from then
/// on, however long after power-on the line came in.
pub proof fn mode_by_last_line(e: Ears, t: int, now: int)
    requires
        e.last_line == Some(t),
        t <= now,
    ensures
        e.mode_at(now) == Mode::Follow <==> now - t < 500_000,
        e.mode_at(now) == Mode::Center <==> 500_000 <= now - t < 3_000_000,
        e.mode_at(now) == Mode::Sweep <==> now - t >= 3_000_000,
        e.mode_at(now) == Mode::Follow <==> (now - t) / 1000 < 500,
        e.mode_at(now) == Mode::Center <==> 500 <= (now - t) / 1000 < 3000,
        e.mode_at(now) == Mode::Sweep <==> (now - t) / 1000 >= 3000,
{
}

/// The mode by the clock while no valid line has come in: as if one had come in
/// at power-on.
pub proof fn mode_by_boot(e: Ears, now: int)
    requires
        e.last_line is None,
        e.boot <= now,
    ensures
        e.mode_at(now) == Mode::Follow <==> now - e.boot < 500_000,
        e.mode_at(now) == Mode::Center <==> 500_000 <= now - e.boot < 3_000_000,
        e.mode_at(now) == Mode::Sweep <==> now - e.boot >= 3_000_000,
{
}

/// The failsafe: after a frame was taken and as long as no other comes, its
/// values are followed for half a second, then every channel is given the
/// center, and from three seconds after it on the self-test runs.
pub proof fn failsafe_fires(
    e: Ears,
    lx: i32,
    ly: i32,
    rx: i32,
    ry: i32,
    sent: int,
    now: int,
    o: int,
)
    requires
        e.line == empty_line(),
        frame_body(lx, ly, rx, ry).len() <= LINE_CAPACITY,
        e.routes.len() == 4,
        sent <= now,
        0 <= o < 4,
    ensures
        ({
            let after = e.after_bytes(encode_utf8(frame(lx, ly, rx, ry)), sent);
            &&& now - sent < 500_000 <==> after.mode_at(now) == Mode::Follow
            &&& 500_000 <= now - sent < 3_000_000 <==> after.mode_at(now) == Mode::Center
            &&& now - sent >= 3_000_000 <==> after.mode_at(now) == Mode::Sweep
            &&& now - sent < 500_000 ==> after.inputs_at(now)[o] == match e.routes[o].source {
                InputAxis::LeftX => lx,
                InputAxis::LeftY => ly,
                InputAxis::RightX => rx,
                InputAxis::RightY => ry,
            }
            &&& 500_000 <= now - sent < 3_000_000 ==> after.inputs_at(now)[o] == 512
        }),
{
    frame_is_taken(e, lx, ly, rx, ry, sent);
    let after = e.after_bytes(encode_utf8(frame(lx, ly, rx, ry)), sent);
    mode_by_last_line(after, sent, now);
}

/// What each channel is given, by the clock: `since` is when the last valid line
/// came in, or power-on where none has. In the first half second a channel gets
/// the value of the axis that it is wired to, then the center, and from three
/// seconds on its own wave at the milliseconds since power-on.
pub proof fn inputs_by_clock(e: Ears, since: int, now: int, ms: int)
    requires
        e.last_line == Some(since) || (e.last_line is None && since == e.boot),
        since <= now,
        1000 * ms <= now - e.boot < 1000 * (ms + 1),
    ensures
        e.inputs_at(now).len() == 4,
        now - since < 500_000 ==> forall|o: int|
            0 <= o < 4 ==> #[trigger] e.inputs_at(now)[o] == match e.routes[o].source {
                InputAxis::LeftX => e.targets[0],
                InputAxis::LeftY => e.targets[1],
                InputAxis::RightX => e.targets[2],
                InputAxis::RightY => e.targets[3],
            },
        500_000 <= now - since < 3_000_000 ==> forall|o: int|
            0 <= o < 4 ==> #[trigger] e.inputs_at(now)[o] == 512,
        now - since >= 3_000_000 ==> {
            &&& e.inputs_at(now)[0] == sweep_value(ms, 3_700)
            &&& e.inputs_at(now)[1] == sweep_value(ms, 5_100)
            &&& e.inputs_at(now)[2] == sweep_value(ms, 4_300)
            &&& e.inputs_at(now)[3] == sweep_value(ms, 6_100)
        },
{
    assert(e.uptime_ms(now) == ms);
}

/// What a tick announces, by the clock: the mode that `since` and `now` call
/// for, where another one was announced last; after it, that mode was.
pub proof fn announcement_by_clock(e: Ears, since: int, now: int)
    requires
        e.last_line == Some(since) || (e.last_line is None && since == e.boot),
        since <= now,
    ensures
        now - since < 500_000 ==> {
            &&& e.after_tick(now).mode == Mode::Follow
            &&& e.mode == Mode::Follow ==> e.announcement(now) is None
            &&& e.mode != Mode::Follow ==> e.announcement(now) == Some("MODE follow\n"@)
        },
        500_000 <= now - since < 3_000_000 ==> {
            &&& e.after_tick(now).mode == Mode::Center
            &&& e.mode == Mode::Center ==> e.announcement(now) is None
            &&& e.mode != Mode::Center ==> e.announcement(now) == Some("MODE center\n"@)
        },
        now - since >= 3_000_000 ==> {
            &&& e.after_tick(now).mode == Mode::Sweep
            &&& e.mode == Mode::Sweep ==> e.announcement(now) is None
            &&& e.mode != Mode::Sweep ==> e.announcement(now) == Some("MODE sweep\n"@)
        },
{
}

/// A tick drives each channel with the duty for its input, unless all four
/// inputs are those that the channels are driven with already; after it, they
/// are.
pub proof fn tick_drives_inputs(e: Ears, now: int)
    ensures
        e.duties(now) is None <==> e.applied == Some(e.inputs_at(now)),
        e.duties(now) matches Some(d) ==> d.len() == 4 && forall|o: int|
            0 <= o < 4 ==> #[trigger] d[o] == e.routes[o].duty(e.inputs_at(now)[o]),
        e.after_tick(now).applied == Some(e.inputs_at(now)),
{
}

/// The sign of life by the clock: `s` is the whole seconds since power-on. It is
/// given from three seconds after the last valid line on, once in each second,
/// with that second and the four inputs.
pub proof fn sign_of_life_by_clock(e: Ears, since: int, now: int, s: nat)
    requires
        e.last_line == Some(since) || (e.last_line is None && since == e.boot),
        since <= now,
        1_000_000 * s <= now - e.boot < 1_000_000 * (s + 1),
    ensures
        e.heartbeat(now) is Some <==> now - since >= 3_000_000 && s != e.logged_s,
        e.heartbeat(now) matches Some(text) ==> text == sweep_text(
            s,
            e.inputs_at(now)[0],
            e.inputs_at(now)[1],
            e.inputs_at(now)[2],
            e.inputs_at(now)[3],
        ),
        e.after_tick(now).logged_s == if now - since >= 3_000_000 {
            s as int
        } else {
            e.logged_s
        },
{
    assert(e.uptime_ms(now) / 1000 == s);
}

/// A tick leaves alone all that the channels, the clock and the line go by.
pub proof fn tick_leaves_the_rest(e: Ears, now: int)
    ensures
        e.after_tick(now) == (Ears {
            mode: e.after_tick(now).mode,
            applied: e.after_tick(now).applied,
            logged_s: e.after_tick(now).logged_s,
            ..e
        }),
{
}

/// A controller starts without a line, with all values at the center, driving
/// nothing, and with the mode that holds still as the one last announced; no
/// second has had a sign of life.
pub proof fn start_is_at_rest(boot: int, routes: Seq<ServoRoute>, o: int)
    requires
        0 <= o < 4,
    ensures
        ({
            let e = Ears::started(boot, routes);
            &&& e.routes == routes
            &&& e.boot == boot
            &&& e.line == Some(Seq::<u8>::empty())
            &&& e.last_line is None
            &&& e.targets.len() == 4
            &&& e.targets[o] == 512
            &&& e.mode == Mode::Center
            &&& e.applied is None
            &&& e.logged_s == 18_446_744_073_709_551_615
        }),
{
}

/// A tick can be made at any time that lies neither before power-on nor before
/// the last valid line.
pub proof fn a_tick_needs_only_time(e: Ears, now: int)
    ensures
        e.seen_before(now) <==> e.boot <= now && (e.last_line matches Some(t) ==> t <= now),
{
}

/// What is handed out is what was decided: messages by their text, duties and
/// values number by number.
pub proof fn results_are_taken_as_they_are(
    m: heapless::String<128>,
    d: [u32; 4],
    v: [i32; 4],
    o: int,
)
    requires
        0 <= o < 4,
    ensures
        text_of(Some(m)) == Some(message_text(m)),
        text_of(None) is None,
        duties_of(Some(d)) matches Some(n) && n.len() == 4 && n[o] == d@[o],
        duties_of(None) is None,
        ints(v).len() == 4,
        ints(v)[o] == v@[o],
{
}

/// A byte that ends no line only adds to the line.
pub proof fn bytes_only_gather(e: Ears, c: u8, now: int)
    requires
        c != NEWLINE,
    ensures
        e.after_byte(c, now) == (Ears { line: e.after_byte(c, now).line, ..e }),
        e.answer(c) is None,
        e.line matches Some(bytes) ==> e.after_byte(c, now).line == if c == 13 {
            Some(bytes)
        } else if bytes.len() < 32 {
            Some(bytes.push(c))
        } else {
            None
        },
        e.line is None ==> e.after_byte(c, now).line is None,
{
}

/// A line is judged as a whole however its bytes are spread over time and
/// whatever ticks pass between them; it counts from the moment at which it is
/// complete.
pub proof fn line_is_judged_whole_among_ticks(e: Ears, events: Seq<(Event, int)>, now: int)
    requires
        e.line == empty_line(),
        forall|i: int|
            0 <= i < bytes_among(events).len() ==> #[trigger] bytes_among(events)[i] != NEWLINE,
    ensures
        ({
            let before = e.after_events(events);
            let after = e.after_events(events.push((Event::Byte(NEWLINE), now)));
            &&& after.line == empty_line()
            &&& values_of(bytes_among(events)) matches Some((a, b, x, y)) ==> {
                &&& before.answer(NEWLINE) == Some(ok_text(a as int, b as int, x as int, y as int))
                &&& after.targets == seq![a as int, b as int, x as int, y as int]
                &&& after.last_line == Some(now)
            }
            &&& values_of(bytes_among(events)) is None ==> {
                &&& before.answer(NEWLINE) == Some("BAD\n"@)
                &&& after.targets == e.targets
                &&& after.last_line == e.last_line
            }
        }),
{
    lemma_gathered_among(e, events);
    assert(events.push((Event::Byte(NEWLINE), now)).drop_last() == events);
}

} // verus!
