use solcatears::host::{
    check_init, check_interface, host_mode_warning, next_library, role_warning, step_error,
    usb_mode_path, Step,
};
use solcatears::session::{
    forward, Action, ErrorLog, Event, GazeSample, GazeState, Heartbeat, Session,
};

const S: u128 = 1_000_000_000;

fn sample(eyes_in_headset: bool, blinking: bool) -> GazeSample {
    GazeSample { eyes_in_headset, blinking, left_x: 1, left_y: 20, right_x: 300, right_y: 1024 }
}

#[test]
fn the_gaze_is_forwarded_while_the_headset_is_worn() {
    let expected = (GazeState::Follow, "0001,0020,0300,1024\n".to_string());
    assert_eq!(forward(&sample(true, false)), expected);
    assert_eq!(forward(&sample(true, true)), expected);
}

#[test]
fn the_center_is_sent_while_it_is_not() {
    let expected = (GazeState::NoEyes, "0512,0512,0512,0512\n".to_string());
    assert_eq!(forward(&sample(false, false)), expected);
    assert_eq!(forward(&sample(false, true)), expected);
}

#[test]
fn states_have_names() {
    assert_eq!(GazeState::NoEyes.name(), "no-eyes");
    assert_eq!(GazeState::Follow.name(), "follow");
}

#[test]
fn heartbeats_come_on_changes_and_once_a_second() {
    let mut h = Heartbeat::new(5 * S);
    let line = "0001,0020,0300,1024\n";
    assert_eq!(
        h.beat(GazeState::Follow, line, 5 * S),
        Some("[fwd] state=follow tx=0001,0020,0300,1024".to_string())
    );
    assert_eq!(h.beat(GazeState::Follow, line, 6 * S - 1), None);
    assert!(h.beat(GazeState::Follow, line, 6 * S).is_some());
    assert_eq!(
        h.beat(GazeState::NoEyes, "x \t\r\n", 6 * S + 1),
        Some("[fwd] state=no-eyes tx=x".to_string())
    );
    assert_eq!(h.beat(GazeState::NoEyes, line, 7 * S), None);
    assert!(h.beat(GazeState::Follow, line, 7 * S).is_some());
    // A clock that goes back counts as standing still.
    assert_eq!(h.beat(GazeState::Follow, line, 0), None);
}

#[test]
fn repeated_errors_are_logged_every_ten_seconds() {
    let mut l = ErrorLog::new();
    let a = || "serial open failed: a".to_string();
    assert_eq!(
        l.record(a(), 0),
        Some("[fwd] session ended: serial open failed: a".to_string())
    );
    assert_eq!(l.record(a(), 2 * S), None);
    assert_eq!(l.record(a(), 10 * S - 1), None);
    assert!(l.record(a(), 10 * S).is_some());
    assert_eq!(l.record("b".to_string(), 11 * S), Some("[fwd] session ended: b".to_string()));
    assert!(l.record(a(), 11 * S).is_some());
}

#[test]
fn the_first_error_is_logged_even_where_it_is_empty() {
    let mut l = ErrorLog::new();
    assert_eq!(l.record(String::new(), 0), Some("[fwd] session ended: ".to_string()));
    assert_eq!(l.record(String::new(), 1), None);
}

#[test]
fn vr_errors_are_reported_with_their_code() {
    assert_eq!(check_init(0), Ok(()));
    assert_eq!(check_init(121), Err("VR_InitInternal2 failed: EVRInitError=121".to_string()));
    assert_eq!(check_init(-1), Err("VR_InitInternal2 failed: EVRInitError=-1".to_string()));
    assert_eq!(check_interface(false, 0), Ok(()));
    let text = |code: &str| {
        Err(format!(
            "VR_GetGenericInterface(IVRClientInternal_XXX) returned null (EVRInitError={code}) — \
             is SteamVR running?"
        ))
    };
    assert_eq!(check_interface(true, 0), text("0"));
    assert_eq!(check_interface(false, 105), text("105"));
}

#[test]
fn errors_say_where_they_came_from() {
    for (step, prefix) in [
        (Step::OpenVr, "openvr init failed: "),
        (Step::SerialOpen, "serial open failed: "),
        (Step::SerialWrite, "serial write: "),
        (Step::LoadLibrary, "dlopen libopenvr_api.so: "),
        (Step::FindInit, "VR_InitInternal2: "),
        (Step::FindInterface, "VR_GetGenericInterface: "),
        (Step::FindShutdown, "VR_ShutdownInternal: "),
        (Step::UsbInit, "libusb init: "),
        (Step::UsbList, "list devices: "),
        (Step::UsbConfig, "config descriptor: "),
        (Step::UsbOpen, "open: "),
    ] {
        assert_eq!(step.prefix(), prefix);
        assert_eq!(step_error(step, "cause"), format!("{prefix}cause"));
    }
}

#[test]
fn only_the_host_role_is_no_cause_for_a_warning() {
    assert_eq!(host_mode_warning("host"), None);
    assert_eq!(host_mode_warning(" host\n"), None);
    let w = host_mode_warning("device\n").unwrap();
    assert_eq!(
        w,
        "[fwd] WARNING: USB-C role is \"device\", expected \"host\". The ESP will not enumerate \
         until you run:\n  sudo sh -c 'echo host > /sys/kernel/debug/usb/a600000.usb/mode'\n  \
         (and then physically replug the ESP, per the dwc3 stuck-state thing)."
    );
    assert_eq!(w, role_warning("\"device\""));
    assert_eq!(host_mode_warning("a\tb"), Some(role_warning("\"a\\tb\"")));
    assert_eq!(host_mode_warning(""), Some(role_warning("\"\"")));
    assert!(host_mode_warning("Host").is_some());
}

#[test]
fn the_library_is_looked_for_under_three_names() {
    assert_eq!(next_library(0), Some("libopenvr_api.so"));
    assert_eq!(next_library(1), Some("libopenvr_api.so.0"));
    assert_eq!(next_library(2), Some("/usr/lib/libopenvr_api.so"));
    assert_eq!(next_library(3), None);
    assert_eq!(next_library(usize::MAX), None);
}

#[test]
fn the_role_is_read_from_debugfs() {
    assert_eq!(usb_mode_path(), "/sys/kernel/debug/usb/a600000.usb/mode");
}

/// Takes a session on, and requires that it asks for `expected`.
fn step(session: Session, event: Event, expected: Action) -> Session {
    let (session, action) = session.step(event).unwrap();
    assert_eq!(action, expected);
    session
}

/// A session that waits for its serial port.
fn opening() -> Session {
    let (s, first) = Session::start();
    assert_eq!(first, Action::StartVr);
    step(s, Event::VrStarted(Ok(())), Action::OpenSerial)
}

/// A session that waits for a sample.
fn up(now: u128) -> Session {
    let text = "[fwd] session up: openvr + esp serial ready".to_string();
    let s = step(opening(), Event::SerialOpened(Ok(())), Action::Log(text));
    step(s, Event::Logged(now), Action::Sample)
}

#[test]
fn each_sample_is_sent_then_drained_then_logged() {
    let line = "0001,0020,0300,1024\n".to_string();
    let beat = "[fwd] state=follow tx=0001,0020,0300,1024".to_string();
    let mut s = up(0);
    for (now, due) in [(1, true), (2, false), (S, false), (S + 1, true)] {
        s = step(s, Event::Sampled(sample(true, false)), Action::Send(line.clone()));
        s = step(s, Event::Sent(Ok(())), Action::Drain);
        if due {
            s = step(s, Event::Drained(now), Action::Log(beat.clone()));
            s = step(s, Event::Logged(now), Action::Rest);
        } else {
            s = step(s, Event::Drained(now), Action::Rest);
        }
        s = step(s, Event::Rested, Action::Sample);
    }
}

#[test]
fn a_failed_write_ends_the_session() {
    let center = "0512,0512,0512,0512\n".to_string();
    let s = step(up(0), Event::Sampled(sample(false, false)), Action::Send(center));
    let s = step(
        s,
        Event::Sent(Err("short write 7/20".to_string())),
        Action::End("serial write: short write 7/20".to_string()),
    );
    assert!(s.step(Event::Rested).is_none());
}

#[test]
fn a_failed_start_ends_the_session() {
    let (s, _) = Session::start();
    step(
        s,
        Event::VrStarted(Err("a".to_string())),
        Action::End("openvr init failed: a".to_string()),
    );
}

#[test]
fn a_failed_open_looks_at_the_role_once() {
    let failed = || {
        step(opening(), Event::SerialOpened(Err("open: b".to_string())), Action::ReadRole)
    };
    let end = || Action::End("serial open failed: open: b".to_string());
    step(failed(), Event::RoleRead(None), end());
    step(failed(), Event::RoleRead(Some("host\n".to_string())), end());
    let s = step(
        failed(),
        Event::RoleRead(Some("device\n".to_string())),
        Action::Log(role_warning("\"device\"")),
    );
    step(s, Event::Logged(0), end());
}

#[test]
fn an_event_out_of_turn_is_not_taken() {
    assert!(Session::start().0.step(Event::Rested).is_none());
    assert!(opening().step(Event::VrStarted(Ok(()))).is_none());
    assert!(up(0).step(Event::Sent(Ok(()))).is_none());
}
