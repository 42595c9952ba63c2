//! How an input value becomes the pulse and the duty of a servo channel.

use vstd::prelude::*;

verus! {

/// The least input that moves a servo; nominal inputs run from 0 to 1024.
pub const INPUT_MIN: i32 = 256;

/// The greatest input that moves a servo.
pub const INPUT_MAX: i32 = 768;

/// The input at which a servo rests.
pub const INPUT_CENTER: i32 = 512;

/// How far an input moves a servo to either side of the center.
pub const INPUT_REACH: i32 = 256;

/// The pulse at 0 degrees, in microseconds.
pub const SERVO_MIN_US: u32 = 500;

/// The pulse at 180 degrees, in microseconds.
pub const SERVO_MAX_US: u32 = 2400;

/// The time from one pulse to the next, in microseconds.
pub const PERIOD_US: u32 = 20_000;

/// The number of duty steps in a period: the timer counts in 14 bits.
pub const MAX_DUTY: u32 = 16_384;

/// One of the four values of a line, in the order in which a line gives them.
#[derive(Copy, Clone, Debug, PartialEq, Eq, Structural)]
pub enum InputAxis {
    LeftX,
    LeftY,
    RightX,
    RightY,
}

impl InputAxis {
    /// The place of this axis in a line.
    pub open spec fn place(self) -> int {
        match self {
            InputAxis::LeftX => 0,
            InputAxis::LeftY => 1,
            InputAxis::RightX => 2,
            InputAxis::RightY => 3,
        }
    }

    /// The place of this axis in a line.
    pub fn index(self) -> (r: usize)
        ensures
            r == self.place(),
            r < 4,
    {
        match self {
            InputAxis::LeftX => 0,
            InputAxis::LeftY => 1,
            InputAxis::RightX => 2,
            InputAxis::RightY => 3,
        }
    }
}

/// How one servo channel turns an input axis into an angle.
#[derive(Copy, Clone, Debug, PartialEq, Eq, Structural)]
pub struct ServoRoute {
    /// Where false, the channel stays idle (duty 0, no pulses) in every mode.
    pub enabled: bool,
    /// Which input drives this servo.
    pub source: InputAxis,
    /// Whether the travel direction is flipped.
    pub invert: bool,
    /// The rest angle, from 0 to 180; 90 is the mechanical center.
    pub neutral_deg: i32,
    /// The greatest swing from neutral, at full input deflection, in degrees.
    pub deflection_deg: i32,
}

/// `v`, brought into the range from `lo` to `hi`.
pub open spec fn clamped(v: int, lo: int, hi: int) -> int {
    if v < lo {
        lo
    } else if v > hi {
        hi
    } else {
        v
    }
}

/// The quotient of `a` and a positive `b`, rounded toward zero.
pub open spec fn quotient(a: int, b: int) -> int {
    if a >= 0 {
        a / b
    } else {
        -((-a) / b)
    }
}

impl ServoRoute {
    /// How far from center the input `v` lies, in this channel's direction.
    pub open spec fn offset(self, v: int) -> int {
        let off = clamped(v, INPUT_MIN as int, INPUT_MAX as int) - INPUT_CENTER;
        if self.invert {
            -off
        } else {
            off
        }
    }

    /// How far the input `v` swings the servo from its rest angle.
    pub open spec fn swing(self, v: int) -> int {
        quotient(self.offset(v) * self.deflection_deg, INPUT_REACH as int)
    }

    /// The angle that the input `v` puts the servo at.
    pub open spec fn angle(self, v: int) -> int {
        clamped(self.neutral_deg + self.swing(v), 0, 180)
    }

    /// The pulse for the input `v`, in microseconds.
    pub open spec fn pulse(self, v: int) -> int {
        SERVO_MIN_US + (SERVO_MAX_US - SERVO_MIN_US) * self.angle(v) / 180
    }

    /// Whether the arithmetic for the input `v` stays within 32 bits.
    pub open spec fn admits(self, v: int) -> bool {
        &&& i32::MIN <= self.offset(v) * self.deflection_deg <= i32::MAX
        &&& i32::MIN <= self.neutral_deg + self.swing(v) <= i32::MAX
    }

    /// Whether the route works for every input: its deflection can be scaled
    /// within 32 bits, and its rest angle plus or minus it fits too.
    pub open spec fn fits(self) -> bool {
        let d = if self.deflection_deg < 0 {
            -self.deflection_deg
        } else {
            self.deflection_deg as int
        };
        &&& d <= 8_388_607
        &&& i32::MIN <= self.neutral_deg - d
        &&& self.neutral_deg + d <= i32::MAX
    }

    /// The duty of this channel for the input `v`.
    pub open spec fn duty(self, v: int) -> int {
        if self.enabled {
            pulse_duty(self.pulse(v))
        } else {
            0
        }
    }
}

/// The duty of a pulse: its share of the period in duty steps, rounded down,
/// and less than the whole period.
pub open spec fn pulse_duty(pulse_us: int) -> int {
    let d = pulse_us * MAX_DUTY / PERIOD_US as int;
    if d < MAX_DUTY - 1 {
        d
    } else {
        MAX_DUTY - 1
    }
}

/// The wiring of the four channels: each takes its own axis, uninverted, and
/// swings 30 degrees to either side of center.
pub open spec fn default_routes() -> Seq<ServoRoute> {
    seq![
        default_route(InputAxis::LeftX),
        default_route(InputAxis::LeftY),
        default_route(InputAxis::RightX),
        default_route(InputAxis::RightY),
    ]
}

pub open spec fn default_route(source: InputAxis) -> ServoRoute {
    ServoRoute { enabled: true, source, invert: false, neutral_deg: 90, deflection_deg: 30 }
}

/// The wiring of the four channels, in hardware order.
pub fn routes() -> (r: [ServoRoute; 4])
    ensures
        r@ == default_routes(),
{
    let r: [ServoRoute; 4] = [
        ServoRoute {
            enabled: true,
            source: InputAxis::LeftX,
            invert: false,
            neutral_deg: 90,
            deflection_deg: 30,
        },
        ServoRoute {
            enabled: true,
            source: InputAxis::LeftY,
            invert: false,
            neutral_deg: 90,
            deflection_deg: 30,
        },
        ServoRoute {
            enabled: true,
            source: InputAxis::RightX,
            invert: false,
            neutral_deg: 90,
            deflection_deg: 30,
        },
        ServoRoute {
            enabled: true,
            source: InputAxis::RightY,
            invert: false,
            neutral_deg: 90,
            deflection_deg: 30,
        },
    ];
    assert(r@ == default_routes());
    r
}

/// The pulse, in microseconds, for the input `v` on the channel `route`.
pub fn pulse_us_from_input(v: i32, route: &ServoRoute) -> (r: u32)
    requires
        route.admits(v as int),
    ensures
        r == route.pulse(v as int),
{
    let w: i32 = if v < INPUT_MIN {
        INPUT_MIN
    } else if v > INPUT_MAX {
        INPUT_MAX
    } else {
        v
    };
    let mut off: i32 = w - INPUT_CENTER;
    if route.invert {
        off = -off;
    }
    let deflection: i32 = (off * route.deflection_deg) / INPUT_REACH;
    let raised: i32 = route.neutral_deg + deflection;
    let angle: u32 = if raised < 0 {
        0
    } else if raised > 180 {
        180
    } else {
        raised as u32
    };
    SERVO_MIN_US + (SERVO_MAX_US - SERVO_MIN_US) * angle / 180
}

/// The duty that makes pulses of `pulse_us` microseconds.
pub fn duty_for_pulse_us(pulse_us: u32) -> (r: u32)
    ensures
        r == pulse_duty(pulse_us as int),
{
    let d: u64 = pulse_us as u64 * MAX_DUTY as u64 / PERIOD_US as u64;
    if d < (MAX_DUTY - 1) as u64 {
        d as u32
    } else {
        MAX_DUTY - 1
    }
}

/// The duty of the channel `route` for the input `v`: 0 where the channel is
/// not enabled.
pub fn channel_duty(v: i32, route: &ServoRoute) -> (r: u32)
    requires
        route.enabled ==> route.admits(v as int),
    ensures
        r == route.duty(v as int),
{
    if route.enabled {
        duty_for_pulse_us(pulse_us_from_input(v, route))
    } else {
        0
    }
}

/// The swing is no greater than the deflection, and reaches it on both sides.
proof fn lemma_swing(route: ServoRoute, v: int)
    ensures
        -256 <= route.offset(v) <= 256,
        route.deflection_deg >= 0 ==> -route.deflection_deg <= route.swing(v)
            <= route.deflection_deg,
        route.deflection_deg <= 0 ==> route.deflection_deg <= route.swing(v)
            <= -route.deflection_deg,
        route.offset(v) == 256 ==> route.swing(v) == route.deflection_deg,
        route.offset(v) == -256 ==> route.swing(v) == -route.deflection_deg,
        route.offset(v) == 0 ==> route.swing(v) == 0,
        route.deflection_deg >= 0 ==> -256 * route.deflection_deg <= route.offset(v)
            * route.deflection_deg <= 256 * route.deflection_deg,
        route.deflection_deg <= 0 ==> 256 * route.deflection_deg <= route.offset(v)
            * route.deflection_deg <= -256 * route.deflection_deg,
{
    let o = route.offset(v);
    let d = route.deflection_deg as int;
    assert(d >= 0 ==> -256 * d <= o * d <= 256 * d) by (nonlinear_arith)
        requires
            -256 <= o <= 256,
    ;
    assert(d <= 0 ==> 256 * d <= o * d <= -256 * d) by (nonlinear_arith)
        requires
            -256 <= o <= 256,
    ;
    assert(o == 0 ==> o * d == 0) by (nonlinear_arith);
    assert(o == 256 ==> o * d == 256 * d) by (nonlinear_arith);
    assert(o == -256 ==> o * d == -256 * d) by (nonlinear_arith);
}

/// A route that fits works for every input, and no other route does.
pub proof fn fits_means_every_input(route: ServoRoute)
    ensures
        route.fits() <==> forall|v: i32| route.admits(v as int),
{
    if route.fits() {
        assert forall|v: i32| route.admits(v as int) by {
            lemma_swing(route, v as int);
        }
    } else {
        lemma_swing(route, 0);
        lemma_swing(route, 1024);
        assert(!route.admits(0i32 as int) || !route.admits(1024i32 as int));
    }
}

/// No input drives a servo outside its electrical limits.
pub proof fn pulse_within_limits(route: ServoRoute, v: int)
    ensures
        SERVO_MIN_US <= route.pulse(v) <= SERVO_MAX_US,
{
}

/// A servo swings no further from its rest angle than its deflection allows.
pub proof fn swing_within_deflection(route: ServoRoute, v: int)
    requires
        0 <= route.neutral_deg <= 180,
        route.deflection_deg >= 0,
    ensures
        route.neutral_deg - route.deflection_deg <= route.angle(v) <= route.neutral_deg
            + route.deflection_deg,
{
    lemma_swing(route, v);
}

/// Full input deflection swings the servo by its whole deflection, to one side
/// at the greatest input and to the other at the least; beyond those an input
/// counts as the nearest of them.
pub proof fn full_deflection(route: ServoRoute, v: int)
    requires
        v <= INPUT_MIN || v >= INPUT_MAX,
    ensures
        ((v >= INPUT_MAX) != route.invert) ==> route.angle(v) == clamped(
            route.neutral_deg + route.deflection_deg,
            0,
            180,
        ),
        ((v <= INPUT_MIN) != route.invert) ==> route.angle(v) == clamped(
            route.neutral_deg - route.deflection_deg,
            0,
            180,
        ),
{
    lemma_swing(route, v);
}

/// The center input puts a servo at its rest angle, whichever way it travels.
pub proof fn center_is_neutral(route: ServoRoute)
    ensures
        route.angle(INPUT_CENTER as int) == clamped(route.neutral_deg as int, 0, 180),
{
    lemma_swing(route, INPUT_CENTER as int);
}

/// Inverting a channel mirrors its input about the center.
pub proof fn invert_mirrors(route: ServoRoute, v: int)
    ensures
        (ServoRoute { invert: !route.invert, ..route }).pulse(v) == route.pulse(
            2 * INPUT_CENTER - v,
        ),
        (ServoRoute { invert: !route.invert, ..route }).duty(v) == route.duty(
            2 * INPUT_CENTER - v,
        ),
{
    let flipped = ServoRoute { invert: !route.invert, ..route };
    assert(flipped.offset(v) == route.offset(2 * INPUT_CENTER - v));
}

/// A greater input never turns an uninverted servo back.
pub proof fn pulse_follows_input(route: ServoRoute, v: int, w: int)
    requires
        v <= w,
        route.deflection_deg >= 0,
    ensures
        !route.invert ==> route.pulse(v) <= route.pulse(w),
        route.invert ==> route.pulse(w) <= route.pulse(v),
{
    let (a, b) = if route.invert {
        (route.offset(w), route.offset(v))
    } else {
        (route.offset(v), route.offset(w))
    };
    let d = route.deflection_deg as int;
    assert(a * d <= b * d) by (nonlinear_arith)
        requires
            a <= b,
            d >= 0,
    ;
    let (x, y) = if route.invert {
        (w, v)
    } else {
        (v, w)
    };
    assert(route.swing(x) <= route.swing(y));
    assert(route.angle(x) <= route.angle(y));
}

/// Every duty is less than the whole period, a longer pulse never has a smaller
/// one, and where the pulse is shorter than the period, a duty is its exact
/// share of the period, rounded down.
pub proof fn duty_follows_pulse(p: int, q: int)
    requires
        0 <= p <= q,
    ensures
        0 <= pulse_duty(p) <= pulse_duty(q) < MAX_DUTY,
        q < PERIOD_US ==> pulse_duty(q) * PERIOD_US <= q * MAX_DUTY < (pulse_duty(q) + 1)
            * PERIOD_US,
{
}

/// A channel is driven for every input exactly where it is enabled.
pub proof fn driven_where_enabled(route: ServoRoute, v: int)
    ensures
        route.enabled ==> 0 < route.duty(v) < MAX_DUTY,
        !route.enabled ==> route.duty(v) == 0,
{
}

/// How a pulse comes from an input, by whole numbers alone: the input's distance
/// from the center, at most 256 either way, is the same share of 256 as the
/// swing is of the deflection, but for a rest that is less than a degree and is
/// left out; the angle stays from 0 to 180; and the pulse is the same share of
/// the way from 500 to 2400, but for less than a microsecond.
pub proof fn pulse_is_proportional(route: ServoRoute, v: int) -> (swing: int)
    ensures
        ({
            let reach = if v < 256 {
                -256
            } else if v > 768 {
                256
            } else {
                v - 512
            };
            let whole = (if route.invert {
                -reach
            } else {
                reach
            }) * route.deflection_deg;
            let turned = route.neutral_deg + swing;
            let angle = if turned < 0 {
                0
            } else if turned > 180 {
                180
            } else {
                turned
            };
            &&& whole >= 0 ==> 0 <= 256 * swing <= whole < 256 * (swing + 1)
            &&& whole <= 0 ==> 256 * (swing - 1) < whole <= 256 * swing <= 0
            &&& route.angle(v) == angle
            &&& 180 * (route.pulse(v) - 500) <= 1900 * angle < 180 * (route.pulse(v) - 499)
        }),
{
    route.swing(v)
}

/// An input beyond those that move a servo counts as the nearest that does.
pub proof fn inputs_beyond_reach(route: ServoRoute, v: int)
    ensures
        v <= 256 ==> route.duty(v) == route.duty(256) && route.pulse(v) == route.pulse(256),
        v >= 768 ==> route.duty(v) == route.duty(768) && route.pulse(v) == route.pulse(768),
{
}

/// The duty of an enabled channel is its pulse's share of 20 ms in steps of a
/// 16384th, rounded down, and that of any other is 0.
pub proof fn duty_is_share_of_pulse(route: ServoRoute, v: int)
    ensures
        route.enabled ==> 20_000 * route.duty(v) <= 16_384 * route.pulse(v) < 20_000 * (route.duty(
            v,
        ) + 1),
        !route.enabled ==> route.duty(v) == 0,
        500 <= route.pulse(v) <= 2400,
{
}

/// A pulse that fills the period or more has the greatest duty, and a shorter
/// one its exact share, rounded down.
pub proof fn duty_by_length(p: int)
    requires
        p >= 0,
    ensures
        p >= 20_000 ==> pulse_duty(p) == 16_383,
        p < 20_000 ==> 20_000 * pulse_duty(p) <= 16_384 * p < 20_000 * (pulse_duty(p) + 1),
{
}

/// Every input can be scaled for a route whose deflection is less than 2^23
/// degrees either way and keeps the angle within 32 bits.
pub proof fn ordinary_routes_take_every_input(route: ServoRoute, v: int)
    requires
        -8_388_607 <= route.deflection_deg <= 8_388_607,
        -2_147_483_648 <= route.neutral_deg - route.deflection_deg <= 2_147_483_647,
        -2_147_483_648 <= route.neutral_deg + route.deflection_deg <= 2_147_483_647,
    ensures
        route.fits(),
        route.admits(v),
{
    lemma_swing(route, v);
}

/// Each axis has its own place in a line.
pub proof fn axes_in_order()
    ensures
        InputAxis::LeftX.place() == 0,
        InputAxis::LeftY.place() == 1,
        InputAxis::RightX.place() == 2,
        InputAxis::RightY.place() == 3,
{
}

/// In the usual wiring every channel is enabled and takes the axis of its own
/// place; it rests at 90 degrees, and goes to 120 at the greatest input and to
/// 60 at the least.
pub proof fn usual_wiring(o: int)
    requires
        0 <= o < 4,
    ensures
        default_routes().len() == 4,
        default_routes()[o].enabled,
        default_routes()[o].fits(),
        default_routes()[o].source.place() == o,
        default_routes()[o].angle(512) == 90,
        default_routes()[o].angle(768) == 120,
        default_routes()[o].angle(256) == 60,
{
    lemma_swing(default_routes()[o], 512);
    lemma_swing(default_routes()[o], 768);
    lemma_swing(default_routes()[o], 256);
}

} // verus!
