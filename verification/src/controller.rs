//! The ear controller: takes in lines of gaze values, and decides at every tick
//! what each servo channel does.

use vstd::prelude::*;

use crate::clock::{millis_between, millis_since};
use crate::line::{empty_line, gathered, LineBuffer, LINE_CAPACITY, NEWLINE};
use crate::message::{
    bad_message, bad_text, message_of, message_text, ok_message, ok_text, sweep_message,
    sweep_text,
};
use crate::protocol::{line_values, parse_line};
use crate::servo::{
    channel_duty, default_routes, fits_means_every_input, routes, ServoRoute, INPUT_CENTER,
};
use crate::sweep::{sweep_inputs, sweep_targets};

verus! {

/// How long after a valid line the ears still follow it, in milliseconds.
pub const FAILSAFE_TIMEOUT_MS: u64 = 500;

/// How long after a valid line the self-test begins, in milliseconds.
pub const SWEEP_AFTER_MS: u64 = 3_000;

/// What the ears are doing.
#[derive(Copy, Clone, Debug, PartialEq, Eq, Structural)]
pub enum Mode {
    /// Tracking the gaze.
    Follow,
    /// Holding neutral through a short gap in the input.
    Center,
    /// Moving through the self-test, for want of input.
    Sweep,
}

/// The mode after `stale_ms` without a valid line.
pub open spec fn mode_after(stale_ms: int) -> Mode {
    if stale_ms < FAILSAFE_TIMEOUT_MS {
        Mode::Follow
    } else if stale_ms < SWEEP_AFTER_MS {
        Mode::Center
    } else {
        Mode::Sweep
    }
}

/// The announcement of a mode.
pub open spec fn mode_text(mode: Mode) -> Seq<char> {
    match mode {
        Mode::Follow => "MODE follow\n"@,
        Mode::Center => "MODE center\n"@,
        Mode::Sweep => "MODE sweep\n"@,
    }
}

/// What the controller knows, all times in ticks.
pub ghost struct Ears {
    /// How the channels are wired.
    pub routes: Seq<ServoRoute>,
    /// What has come in of the current line, or nothing where that was too
    /// much.
    pub line: Option<Seq<u8>>,
    /// When the controller started.
    pub boot: int,
    /// When the last valid line came in.
    pub last_line: Option<int>,
    /// The values of the last valid line.
    pub targets: Seq<int>,
    /// The mode that was last announced.
    pub mode: Mode,
    /// The inputs that the channels were last driven with, or nothing before
    /// the first tick.
    pub applied: Option<Seq<int>>,
    /// The second after boot in which the self-test last gave a sign of life.
    pub logged_s: int,
}

/// The same input for all four channels.
pub open spec fn all_four(v: int) -> Seq<int> {
    Seq::new(4, |i: int| v)
}

impl Ears {
    /// A controller that has just started.
    pub open spec fn started(boot: int, routes: Seq<ServoRoute>) -> Ears {
        Ears {
            routes,
            line: empty_line(),
            boot,
            last_line: None,
            targets: all_four(INPUT_CENTER as int),
            mode: Mode::Center,
            applied: None,
            logged_s: u64::MAX as int,
        }
    }

    /// There are four channels, each wired so that every input can be scaled
    /// for it, and four values, which rest at the center until a valid line
    /// comes in. No more is gathered than a line may have.
    pub open spec fn valid(self) -> bool {
        &&& self.line matches Some(bytes) ==> bytes.len() <= LINE_CAPACITY
        &&& self.routes.len() == 4
        &&& forall|o: int|
            0 <= o < 4 ==> #[trigger] self.routes[o].enabled ==> self.routes[o].fits()
        &&& self.targets.len() == 4
        &&& self.applied matches Some(inputs) ==> inputs.len() == 4
        &&& self.last_line is None ==> self.targets == all_four(INPUT_CENTER as int)
    }

    /// Whether `now` lies after all that the controller has seen.
    pub open spec fn seen_before(self, now: int) -> bool {
        &&& self.boot <= now
        &&& self.last_line matches Some(t) ==> t <= now
    }

    /// The values of the current line as it stands; one that is too long has
    /// none.
    pub open spec fn values(self) -> Option<(i32, i32, i32, i32)> {
        match self.line {
            Some(bytes) => line_values(bytes),
            None => None,
        }
    }

    /// The state after the byte `c` came in at the time `now`.
    pub open spec fn after_byte(self, c: u8, now: int) -> Ears {
        if c == NEWLINE {
            match self.values() {
                Some((a, b, x, y)) => Ears {
                    line: empty_line(),
                    last_line: Some(now),
                    targets: seq![a as int, b as int, x as int, y as int],
                    ..self
                },
                None => Ears { line: empty_line(), ..self },
            }
        } else {
            Ears { line: gathered(self.line, c), ..self }
        }
    }

    /// The answer to the byte `c`: one for each line.
    pub open spec fn answer(self, c: u8) -> Option<Seq<char>> {
        if c == NEWLINE {
            match self.values() {
                Some((a, b, x, y)) => Some(ok_text(a as int, b as int, x as int, y as int)),
                None => Some(bad_text()),
            }
        } else {
            None
        }
    }

    /// The milliseconds since boot.
    pub open spec fn uptime_ms(self, now: int) -> int {
        millis_between(self.boot, now)
    }

    /// The milliseconds since the last valid line, or since boot where none has
    /// come in.
    pub open spec fn stale_ms(self, now: int) -> int {
        match self.last_line {
            Some(t) => millis_between(t, now),
            None => self.uptime_ms(now),
        }
    }

    /// The mode at the time `now`.
    pub open spec fn mode_at(self, now: int) -> Mode {
        mode_after(self.stale_ms(now))
    }

    /// The inputs of the four channels at the time `now`.
    pub open spec fn inputs_at(self, now: int) -> Seq<int> {
        match self.mode_at(now) {
            Mode::Follow => Seq::new(4, |o: int| self.targets[self.routes[o].source.place()]),
            Mode::Center => all_four(INPUT_CENTER as int),
            Mode::Sweep => sweep_inputs(self.uptime_ms(now)),
        }
    }

    /// What a tick at the time `now` announces: a mode that was not announced
    /// before.
    pub open spec fn announcement(self, now: int) -> Option<Seq<char>> {
        if self.mode_at(now) != self.mode {
            Some(mode_text(self.mode_at(now)))
        } else {
            None
        }
    }

    /// The duties that a tick at the time `now` sets: none where the channels
    /// are driven with the same inputs already.
    pub open spec fn duties(self, now: int) -> Option<Seq<int>> {
        let inputs = self.inputs_at(now);
        if self.applied != Some(inputs) {
            Some(Seq::new(4, |o: int| self.routes[o].duty(inputs[o])))
        } else {
            None
        }
    }

    /// The sign of life that a tick at the time `now` gives: one in each second
    /// of the self-test.
    pub open spec fn heartbeat(self, now: int) -> Option<Seq<char>> {
        let s = self.uptime_ms(now) / 1000;
        let inputs = self.inputs_at(now);
        if self.mode_at(now) == Mode::Sweep && s != self.logged_s {
            Some(sweep_text(s as nat, inputs[0], inputs[1], inputs[2], inputs[3]))
        } else {
            None
        }
    }

    /// The state after a tick at the time `now`.
    pub open spec fn after_tick(self, now: int) -> Ears {
        Ears {
            mode: self.mode_at(now),
            applied: Some(self.inputs_at(now)),
            logged_s: if self.mode_at(now) == Mode::Sweep {
                self.uptime_ms(now) / 1000
            } else {
                self.logged_s
            },
            ..self
        }
    }
}

/// The text of a message, where there is one.
pub open spec fn text_of(m: Option<heapless::String<128>>) -> Option<Seq<char>> {
    match m {
        Some(m) => Some(message_text(m)),
        None => None,
    }
}

/// Four values as integers.
pub open spec fn ints(a: [i32; 4]) -> Seq<int> {
    a@.map_values(|v: i32| v as int)
}

/// Four duties as integers, where there are any.
pub open spec fn duties_of(a: Option<[u32; 4]>) -> Option<Seq<int>> {
    match a {
        Some(a) => Some(a@.map_values(|v: u32| v as int)),
        None => None,
    }
}

/// What is to be done at a tick, in this order.
pub struct Tick {
    /// A mode to announce.
    pub announcement: Option<heapless::String<128>>,
    /// The duties to set on the four channels.
    pub duties: Option<[u32; 4]>,
    /// A sign of life to give.
    pub heartbeat: Option<heapless::String<128>>,
}

/// The ear controller.
pub struct Controller {
    routes: [ServoRoute; 4],
    line: LineBuffer,
    boot: u64,
    last_line: Option<u64>,
    targets: [i32; 4],
    mode: Mode,
    applied: Option<[i32; 4]>,
    logged_s: u64,
}

impl View for Controller {
    type V = Ears;

    closed spec fn view(&self) -> Ears {
        Ears {
            routes: self.routes@,
            line: self.line@,
            boot: self.boot as int,
            last_line: match self.last_line {
                Some(t) => Some(t as int),
                None => None,
            },
            targets: ints(self.targets),
            mode: self.mode,
            applied: match self.applied {
                Some(inputs) => Some(ints(inputs)),
                None => None,
            },
            logged_s: self.logged_s as int,
        }
    }
}

/// Whether two sets of inputs are the same.
fn same_inputs(a: &[i32; 4], b: &[i32; 4]) -> (r: bool)
    ensures
        r == (ints(*a) == ints(*b)),
{
    let r: bool = a[0] == b[0] && a[1] == b[1] && a[2] == b[2] && a[3] == b[3];
    proof {
        if r {
            assert(ints(*a) == ints(*b));
        } else {
            assert(ints(*a)[0] != ints(*b)[0] || ints(*a)[1] != ints(*b)[1] || ints(*a)[2] != ints(
                *b,
            )[2] || ints(*a)[3] != ints(*b)[3]);
        }
    }
    r
}

/// The announcement of a mode.
pub fn mode_message(mode: Mode) -> (m: heapless::String<128>)
    ensures
        message_text(m) == mode_text(mode),
{
    proof {
        reveal_strlit("MODE follow\n");
        reveal_strlit("MODE center\n");
        reveal_strlit("MODE sweep\n");
    }
    match mode {
        Mode::Follow => message_of("MODE follow\n"),
        Mode::Center => message_of("MODE center\n"),
        Mode::Sweep => message_of("MODE sweep\n"),
    }
}

impl Controller {
    /// A controller that started at the tick `boot`, with the usual wiring.
    pub fn new(boot: u64) -> (r: Self)
        ensures
            r@ == Ears::started(boot as int, default_routes()),
            r@.valid(),
    {
        Controller::with_routes(boot, routes())
    }

    /// A controller that started at the tick `boot`, wired as `routes` says.
    pub fn with_routes(boot: u64, routes: [ServoRoute; 4]) -> (r: Self)
        requires
            forall|o: int| 0 <= o < 4 ==> #[trigger] routes@[o].enabled ==> routes@[o].fits(),
        ensures
            r@ == Ears::started(boot as int, routes@),
            r@.valid(),
    {
        let r: Controller = Controller {
            routes,
            line: LineBuffer::new(),
            boot,
            last_line: None,
            targets: [INPUT_CENTER; 4],
            mode: Mode::Center,
            applied: None,
            logged_s: u64::MAX,
        };
        assert(r@.targets == all_four(INPUT_CENTER as int));
        r
    }

    /// Whether `now` lies after all that the controller has seen.
    pub fn has_seen_before(&self, now: u64) -> (r: bool)
        ensures
            r == self@.seen_before(now as int),
    {
        self.boot <= now && match self.last_line {
            Some(t) => t <= now,
            None => true,
        }
    }

    /// Takes in one byte at the tick `now`, and returns what is to be answered.
    pub fn on_byte(&mut self, c: u8, now: u64) -> (r: Option<heapless::String<128>>)
        requires
            old(self)@.valid(),
        ensures
            final(self)@ == old(self)@.after_byte(c, now as int),
            text_of(r) == old(self)@.answer(c),
            final(self)@.valid(),
    {
        if c == NEWLINE {
            let values: Option<(i32, i32, i32, i32)> = match self.line.bytes() {
                Some(bytes) => parse_line(bytes),
                None => None,
            };
            self.line.clear();
            match values {
                Some((a, b, x, y)) => {
                    self.targets = [a, b, x, y];
                    self.last_line = Some(now);
                    assert(self@.targets == seq![a as int, b as int, x as int, y as int]);
                    Some(ok_message(a, b, x, y))
                },
                None => Some(bad_message()),
            }
        } else {
            self.line.gather(c);
            None
        }
    }

    /// Decides at the tick `now` what is to be done.
    pub fn tick(&mut self, now: u64) -> (r: Tick)
        requires
            old(self)@.valid(),
            old(self)@.seen_before(now as int),
        ensures
            final(self)@ == old(self)@.after_tick(now as int),
            text_of(r.announcement) == old(self)@.announcement(now as int),
            duties_of(r.duties) == old(self)@.duties(now as int),
            text_of(r.heartbeat) == old(self)@.heartbeat(now as int),
            final(self)@.valid(),
    {
        let ghost before = self@;
        let uptime_ms: u64 = millis_since(self.boot, now);
        let stale_ms: u64 = match self.last_line {
            Some(t) => millis_since(t, now),
            None => uptime_ms,
        };
        let mode: Mode = if stale_ms < FAILSAFE_TIMEOUT_MS {
            Mode::Follow
        } else if stale_ms < SWEEP_AFTER_MS {
            Mode::Center
        } else {
            Mode::Sweep
        };
        assert(mode == before.mode_at(now as int));
        let announcement: Option<heapless::String<128>> = if mode != self.mode {
            Some(mode_message(mode))
        } else {
            None
        };
        let inputs: [i32; 4] = match mode {
            Mode::Follow => [
                self.targets[self.routes[0].source.index()],
                self.targets[self.routes[1].source.index()],
                self.targets[self.routes[2].source.index()],
                self.targets[self.routes[3].source.index()],
            ],
            Mode::Center => [INPUT_CENTER; 4],
            Mode::Sweep => sweep_targets(uptime_ms),
        };
        assert(ints(inputs) == before.inputs_at(now as int));
        let driven: bool = match &self.applied {
            Some(applied) => same_inputs(&inputs, applied),
            None => false,
        };
        let duties: Option<[u32; 4]> = if driven {
            None
        } else {
            proof {
                assert(before.routes[0] == self.routes@[0]);
                assert(before.routes[1] == self.routes@[1]);
                assert(before.routes[2] == self.routes@[2]);
                assert(before.routes[3] == self.routes@[3]);
                fits_means_every_input(self.routes@[0]);
                fits_means_every_input(self.routes@[1]);
                fits_means_every_input(self.routes@[2]);
                fits_means_every_input(self.routes@[3]);
            }
            let d: [u32; 4] = [
                channel_duty(inputs[0], &self.routes[0]),
                channel_duty(inputs[1], &self.routes[1]),
                channel_duty(inputs[2], &self.routes[2]),
                channel_duty(inputs[3], &self.routes[3]),
            ];
            proof {
                let all = ints(inputs);
                assert(d@.map_values(|v: u32| v as int) == Seq::new(
                    4,
                    |o: int| before.routes[o].duty(all[o]),
                ));
            }
            Some(d)
        };
        let s: u64 = uptime_ms / 1000;
        let heartbeat: Option<heapless::String<128>> = if mode == Mode::Sweep && s
            != self.logged_s {
            Some(sweep_message(s, inputs[0], inputs[1], inputs[2], inputs[3]))
        } else {
            None
        };
        self.mode = mode;
        self.applied = Some(inputs);
        if mode == Mode::Sweep {
            self.logged_s = s;
        }
        Tick { announcement, duties, heartbeat }
    }
}

} // verus!
