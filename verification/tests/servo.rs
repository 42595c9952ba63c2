use solcatears::servo::{
    channel_duty, duty_for_pulse_us, pulse_us_from_input, routes, InputAxis, ServoRoute, MAX_DUTY,
    SERVO_MAX_US, SERVO_MIN_US,
};
use solcatears::sweep::{sweep_axis, sweep_targets, SWEEP_PERIODS_MS};

fn route(invert: bool, neutral_deg: i32, deflection_deg: i32) -> ServoRoute {
    ServoRoute { enabled: true, source: InputAxis::LeftX, invert, neutral_deg, deflection_deg }
}

#[test]
fn the_usual_wiring_takes_each_axis_once() {
    let r = routes();
    for (o, axis) in [InputAxis::LeftX, InputAxis::LeftY, InputAxis::RightX, InputAxis::RightY]
        .into_iter()
        .enumerate()
    {
        assert_eq!(r[o].source, axis);
        assert_eq!(r[o].source.index(), o);
        assert!(r[o].enabled);
        assert!(!r[o].invert);
        assert_eq!(r[o].neutral_deg, 90);
        assert_eq!(r[o].deflection_deg, 30);
    }
}

#[test]
fn pulses_span_the_deflection() {
    let r = route(false, 90, 30);
    assert_eq!(pulse_us_from_input(512, &r), 1450);
    assert_eq!(pulse_us_from_input(768, &r), 1766);
    assert_eq!(pulse_us_from_input(256, &r), 1133);
    assert_eq!(pulse_us_from_input(1024, &r), 1766);
    assert_eq!(pulse_us_from_input(i32::MIN, &r), 1133);
    assert_eq!(pulse_us_from_input(i32::MAX, &r), 1766);
    // 8 * 30 / 256 rounds to nothing on both sides of the center.
    assert_eq!(pulse_us_from_input(504, &r), 1450);
    assert_eq!(pulse_us_from_input(520, &r), 1450);
    assert_eq!(pulse_us_from_input(503, &r), 1439);
}

#[test]
fn angles_stay_within_the_servo() {
    assert_eq!(pulse_us_from_input(768, &route(false, 170, 30)), SERVO_MAX_US);
    assert_eq!(pulse_us_from_input(256, &route(false, 10, 30)), SERVO_MIN_US);
    assert_eq!(pulse_us_from_input(768, &route(false, 90, 8_388_607)), SERVO_MAX_US);
    assert_eq!(pulse_us_from_input(768, &route(false, 90, -30)), 1133);
}

#[test]
fn inverting_mirrors_the_input() {
    for v in -100..1200 {
        assert_eq!(
            pulse_us_from_input(v, &route(true, 80, 45)),
            pulse_us_from_input(1024 - v, &route(false, 80, 45))
        );
    }
}

#[test]
fn pulses_follow_the_input() {
    for v in 0..1024 {
        let (a, b) = (route(false, 90, 30), route(true, 90, 30));
        assert!(pulse_us_from_input(v, &a) <= pulse_us_from_input(v + 1, &a));
        assert!(pulse_us_from_input(v, &b) >= pulse_us_from_input(v + 1, &b));
    }
}

#[test]
fn duties_are_shares_of_the_period() {
    assert_eq!(duty_for_pulse_us(0), 0);
    assert_eq!(duty_for_pulse_us(1450), 1187);
    assert_eq!(duty_for_pulse_us(1766), 1446);
    assert_eq!(duty_for_pulse_us(20_000), MAX_DUTY - 1);
    assert_eq!(duty_for_pulse_us(19_999), 16_383);
    assert_eq!(duty_for_pulse_us(u32::MAX), MAX_DUTY - 1);
    for p in [2_400u32, 2_401, 10_000, 19_999] {
        let d = duty_for_pulse_us(p);
        assert!(d * 20_000 <= p * MAX_DUTY && p * MAX_DUTY < (d + 1) * 20_000);
    }
}

#[test]
fn a_disabled_channel_is_not_driven() {
    let mut r = route(false, 90, 30);
    assert_eq!(channel_duty(512, &r), 1187);
    r.enabled = false;
    assert_eq!(channel_duty(512, &r), 0);
}

#[test]
fn the_wave_goes_up_and_down() {
    assert_eq!(sweep_axis(0, 3_700), 256);
    assert_eq!(sweep_axis(925, 3_700), 512);
    assert_eq!(sweep_axis(1_850, 3_700), 768);
    assert_eq!(sweep_axis(2_775, 3_700), 512);
    assert_eq!(sweep_axis(3_699, 3_700), 256);
    assert_eq!(sweep_axis(3_700, 3_700), 256);
    assert_eq!(sweep_axis(1, 2), 768);
    assert_eq!(sweep_axis(2, 3), 256);
    for t in 0..4_999 {
        let (a, b) = (sweep_axis(t, 5_001), sweep_axis(t + 1, 5_001));
        assert!((256..=768).contains(&a));
        if t + 1 <= 2_500 {
            assert!(a <= b);
        }
        if t >= 2_500 {
            assert!(a >= b);
        }
        assert_eq!(a, sweep_axis(t + 7 * 5_001, 5_001));
    }
}

#[test]
fn the_four_waves_run_side_by_side() {
    assert_eq!(sweep_targets(0), [256, 256, 256, 256]);
    assert_eq!(SWEEP_PERIODS_MS, [3_700, 5_100, 4_300, 6_100]);
    for t in [1u64, 3_000, 60_000, 494_960_099, u64::MAX] {
        let all = sweep_targets(t);
        for o in 0..4 {
            assert_eq!(all[o], sweep_axis(t, SWEEP_PERIODS_MS[o]));
        }
    }
    for t in [0u64, 17, 1_234_567] {
        assert_eq!(sweep_targets(t), sweep_targets(t + 494_960_100));
    }
    assert_ne!(sweep_targets(1_850), sweep_targets(1_850 + 247_480_050));
}
