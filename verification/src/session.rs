//! The forwarder's session: what is sent for each gaze sample, and what is
//! logged.

use vstd::prelude::*;

use crate::host::{host_mode_warning, step_error, warning_for, Step};
use crate::protocol::{
    frame, frame_is_made_of_fields, frame_reads_back, frame_text, text_values, PROTOCOL_CENTER,
};
use crate::text::{
    chars_of, decimal, is_white_space, padded, trim_end, trim_end_cuts_white_space, white_space,
};

verus! {

/// The longest time without a heartbeat, in nanoseconds.
pub const HEARTBEAT_PERIOD_NS: u128 = 1_000_000_000;

/// How long a repeated error stays unlogged, in nanoseconds.
pub const ERROR_REPEAT_PERIOD_NS: u128 = 10_000_000_000;

/// The time from `earlier` to `later`, or nothing where `later` comes first.
pub open spec fn elapsed(earlier: int, later: int) -> int {
    if later >= earlier {
        later - earlier
    } else {
        0
    }
}

fn elapsed_ns(earlier: u128, later: u128) -> (r: u128)
    ensures
        r == elapsed(earlier as int, later as int),
{
    if later >= earlier {
        later - earlier
    } else {
        0
    }
}

/// What the headset tells about the eyes, the gaze on the protocol's scale.
#[derive(Copy, Clone, Debug, PartialEq, Eq, Structural)]
pub struct GazeSample {
    pub eyes_in_headset: bool,
    pub blinking: bool,
    pub left_x: i32,
    pub left_y: i32,
    pub right_x: i32,
    pub right_y: i32,
}

/// What the forwarder makes of a sample.
#[derive(Copy, Clone, Debug, PartialEq, Eq, Structural)]
pub enum GazeState {
    /// The headset is on no head.
    NoEyes,
    /// The gaze is followed.
    Follow,
}

impl GazeState {
    /// The state's name in the log.
    pub open spec fn text(self) -> Seq<char> {
        match self {
            GazeState::NoEyes => "no-eyes"@,
            GazeState::Follow => "follow"@,
        }
    }

    /// The state's name in the log.
    pub fn name(self) -> (r: &'static str)
        ensures
            r@ == self.text(),
    {
        match self {
            GazeState::NoEyes => "no-eyes",
            GazeState::Follow => "follow",
        }
    }
}

impl GazeSample {
    /// The state that the sample shows: the gaze is followed while the headset
    /// is worn.
    pub open spec fn shows(self) -> GazeState {
        if self.eyes_in_headset {
            GazeState::Follow
        } else {
            GazeState::NoEyes
        }
    }

    /// The line to send for the sample: the gaze, or the center where it is not
    /// followed.
    pub open spec fn line(self) -> Seq<char> {
        match self.shows() {
            GazeState::Follow => frame(self.left_x, self.left_y, self.right_x, self.right_y),
            GazeState::NoEyes => frame(
                PROTOCOL_CENTER,
                PROTOCOL_CENTER,
                PROTOCOL_CENTER,
                PROTOCOL_CENTER,
            ),
        }
    }
}

/// What the sample shows, and the line to send for it.
pub fn forward(sample: &GazeSample) -> (r: (GazeState, String))
    ensures
        r.0 == sample.shows(),
        r.1@ == sample.line(),
{
    if !sample.eyes_in_headset {
        (
            GazeState::NoEyes,
            frame_text(PROTOCOL_CENTER, PROTOCOL_CENTER, PROTOCOL_CENTER, PROTOCOL_CENTER),
        )
    } else {
        (
            GazeState::Follow,
            frame_text(sample.left_x, sample.left_y, sample.right_x, sample.right_y),
        )
    }
}

/// When the last heartbeat was logged, and the state that it showed.
pub ghost struct Beat {
    pub at: int,
    pub state: Option<GazeState>,
}

impl Beat {
    /// Whether a heartbeat is due: the state has changed, or the last one is a
    /// whole period ago.
    pub open spec fn due(self, state: GazeState, now: int) -> bool {
        self.state != Some(state) || elapsed(self.at, now) >= HEARTBEAT_PERIOD_NS
    }

    /// The last heartbeat, after `state` was seen at the time `now`.
    pub open spec fn after(self, state: GazeState, now: int) -> Beat {
        if self.due(state, now) {
            Beat { at: now, state: Some(state) }
        } else {
            self
        }
    }
}

/// A heartbeat in the log: the state and the line that was sent.
pub open spec fn heartbeat_text(state: GazeState, line: Seq<char>) -> Seq<char> {
    "[fwd] state="@ + state.text() + " tx="@ + trim_end(line)
}

/// The part of `line` before the white space at its end.
fn trimmed_end(line: &str) -> (r: &str)
    ensures
        r@ == trim_end(line@),
{
    let s: Vec<char> = chars_of(line);
    let mut b: usize = s.len();
    assert(s@.take(b as int) == s@);
    while b > 0 && is_white_space(s[b - 1])
        invariant
            b <= s@.len(),
            trim_end(s@) == trim_end(s@.take(b as int)),
        decreases b,
    {
        assert(s@.take(b as int).drop_last() == s@.take(b - 1));
        b = b - 1;
    }
    line.substring_char(0, b)
}

/// Decides when the forwarder logs a heartbeat. Times are in nanoseconds.
pub struct Heartbeat {
    last_ns: u128,
    last_state: Option<GazeState>,
}

impl View for Heartbeat {
    type V = Beat;

    closed spec fn view(&self) -> Beat {
        Beat { at: self.last_ns as int, state: self.last_state }
    }
}

impl Heartbeat {
    /// At the start of a session no state has been shown.
    pub fn new(now: u128) -> (r: Self)
        ensures
            r@ == (Beat { at: now as int, state: None }),
    {
        Heartbeat { last_ns: now, last_state: None }
    }

    /// What to log after `line` was sent for `state` at the time `now`.
    pub fn beat(&mut self, state: GazeState, line: &str, now: u128) -> (r: Option<String>)
        ensures
            final(self)@ == old(self)@.after(state, now as int),
            r is Some <==> old(self)@.due(state, now as int),
            r matches Some(text) ==> text@ == heartbeat_text(state, line@),
    {
        let changed: bool = match self.last_state {
            Some(last) => last != state,
            None => true,
        };
        if changed || elapsed_ns(self.last_ns, now) >= HEARTBEAT_PERIOD_NS {
            self.last_ns = now;
            self.last_state = Some(state);
            let mut text: String = String::from_str("[fwd] state=");
            text.append(state.name());
            text.append(" tx=");
            text.append(trimmed_end(line));
            Some(text)
        } else {
            None
        }
    }
}

/// What is to be done next in a session.
#[derive(Debug, PartialEq, Eq)]
pub enum Action {
    /// Start the VR runtime.
    StartVr,
    /// Open the controller's serial port.
    OpenSerial,
    /// Read the role of the headset's USB-C port.
    ReadRole,
    /// Log a text.
    Log(String),
    /// Ask the headset for a gaze sample.
    Sample,
    /// Write a line to the controller.
    Send(String),
    /// Read what the controller has answered.
    Drain,
    /// Pause until the next sample.
    Rest,
    /// End the session with an error.
    End(String),
}

/// What is to be done next in a session, with its text.
pub ghost enum Doing {
    StartVr,
    OpenSerial,
    ReadRole,
    Log(Seq<char>),
    Sample,
    Send(Seq<char>),
    Drain,
    Rest,
    End(Seq<char>),
}

impl View for Action {
    type V = Doing;

    open spec fn view(&self) -> Doing {
        match self {
            Action::StartVr => Doing::StartVr,
            Action::OpenSerial => Doing::OpenSerial,
            Action::ReadRole => Doing::ReadRole,
            Action::Log(text) => Doing::Log(text@),
            Action::Sample => Doing::Sample,
            Action::Send(line) => Doing::Send(line@),
            Action::Drain => Doing::Drain,
            Action::Rest => Doing::Rest,
            Action::End(error) => Doing::End(error@),
        }
    }
}

/// What came of the last action. Times are in nanoseconds.
#[derive(Debug)]
pub enum Event {
    /// The VR runtime was started, or why not.
    VrStarted(Result<(), String>),
    /// The serial port was opened, or why not.
    SerialOpened(Result<(), String>),
    /// What the role file holds, where it could be read.
    RoleRead(Option<String>),
    /// A text was logged, at this time.
    Logged(u128),
    /// The headset gave a sample.
    Sampled(GazeSample),
    /// A line was written, or why not.
    Sent(Result<(), String>),
    /// The controller's answers were read, up to this time.
    Drained(u128),
    /// The pause is over.
    Rested,
}

/// How far a session has come.
pub ghost enum Stage {
    StartingVr,
    OpeningSerial,
    /// The session will end with `error`, but the role is looked at before.
    ReadingRole { error: Seq<char> },
    /// The session will end with `error` once the warning is logged.
    Warning { error: Seq<char> },
    /// Logging that the session is up.
    Announcing,
    Sampling { beat: Beat },
    Sending { beat: Beat, state: GazeState, line: Seq<char> },
    Draining { beat: Beat, state: GazeState, line: Seq<char> },
    /// Logging a heartbeat.
    Beating { beat: Beat },
    Resting { beat: Beat },
    Ended,
}

/// The warning to give of the port's role: none where it could not be read.
pub open spec fn role_log(contents: Option<String>) -> Option<Seq<char>> {
    match contents {
        Some(contents) => warning_for(contents@),
        None => None,
    }
}

impl Stage {
    /// Where a session is after `event`, and what is to be done then; nothing
    /// where the event is not the outcome of what was being done.
    pub open spec fn next(self, event: Event) -> Option<(Stage, Doing)> {
        match (self, event) {
            (Stage::StartingVr, Event::VrStarted(outcome)) => match outcome {
                Ok(_) => Some((Stage::OpeningSerial, Doing::OpenSerial)),
                Err(e) => Some((Stage::Ended, Doing::End(Step::OpenVr.text() + e@))),
            },
            (Stage::OpeningSerial, Event::SerialOpened(outcome)) => match outcome {
                Ok(_) => Some(
                    (
                        Stage::Announcing,
                        Doing::Log("[fwd] session up: openvr + esp serial ready"@),
                    ),
                ),
                Err(e) => Some(
                    (Stage::ReadingRole { error: Step::SerialOpen.text() + e@ }, Doing::ReadRole),
                ),
            },
            (Stage::ReadingRole { error }, Event::RoleRead(contents)) => match role_log(contents) {
                Some(text) => Some((Stage::Warning { error }, Doing::Log(text))),
                None => Some((Stage::Ended, Doing::End(error))),
            },
            (Stage::Warning { error }, Event::Logged(_)) => Some(
                (Stage::Ended, Doing::End(error)),
            ),
            (Stage::Announcing, Event::Logged(now)) => Some(
                (Stage::Sampling { beat: Beat { at: now as int, state: None } }, Doing::Sample),
            ),
            (Stage::Sampling { beat }, Event::Sampled(sample)) => Some(
                (
                    Stage::Sending { beat, state: sample.shows(), line: sample.line() },
                    Doing::Send(sample.line()),
                ),
            ),
            (Stage::Sending { beat, state, line }, Event::Sent(outcome)) => match outcome {
                Ok(_) => Some((Stage::Draining { beat, state, line }, Doing::Drain)),
                Err(e) => Some((Stage::Ended, Doing::End(Step::SerialWrite.text() + e@))),
            },
            (Stage::Draining { beat, state, line }, Event::Drained(now)) => {
                if beat.due(state, now as int) {
                    Some(
                        (
                            Stage::Beating { beat: beat.after(state, now as int) },
                            Doing::Log(heartbeat_text(state, line)),
                        ),
                    )
                } else {
                    Some((Stage::Resting { beat }, Doing::Rest))
                }
            },
            (Stage::Beating { beat }, Event::Logged(_)) => Some(
                (Stage::Resting { beat }, Doing::Rest),
            ),
            (Stage::Resting { beat }, Event::Rested) => Some(
                (Stage::Sampling { beat }, Doing::Sample),
            ),
            _ => None,
        }
    }

    /// Whether `doing` is what is being done at this stage.
    pub open spec fn does(self, doing: Doing) -> bool {
        match self {
            Stage::StartingVr => doing == Doing::StartVr,
            Stage::OpeningSerial => doing == Doing::OpenSerial,
            Stage::ReadingRole { .. } => doing == Doing::ReadRole,
            Stage::Warning { .. } => doing is Log,
            Stage::Announcing => doing is Log,
            Stage::Sampling { .. } => doing == Doing::Sample,
            Stage::Sending { line, .. } => doing == Doing::Send(line),
            Stage::Draining { .. } => doing == Doing::Drain,
            Stage::Beating { .. } => doing is Log,
            Stage::Resting { .. } => doing == Doing::Rest,
            Stage::Ended => doing is End,
        }
    }
}

/// How far a session has come, with what is needed to go on.
enum Phase {
    StartingVr,
    OpeningSerial,
    ReadingRole { error: String },
    Warning { error: String },
    Announcing,
    Sampling { heartbeat: Heartbeat },
    Sending { heartbeat: Heartbeat, state: GazeState, line: String },
    Draining { heartbeat: Heartbeat, state: GazeState, line: String },
    Beating { heartbeat: Heartbeat },
    Resting { heartbeat: Heartbeat },
    Ended,
}

/// A session of the forwarder: says what is to be done, one step at a time.
pub struct Session {
    phase: Phase,
}

impl View for Session {
    type V = Stage;

    closed spec fn view(&self) -> Stage {
        match self.phase {
            Phase::StartingVr => Stage::StartingVr,
            Phase::OpeningSerial => Stage::OpeningSerial,
            Phase::ReadingRole { error } => Stage::ReadingRole { error: error@ },
            Phase::Warning { error } => Stage::Warning { error: error@ },
            Phase::Announcing => Stage::Announcing,
            Phase::Sampling { heartbeat } => Stage::Sampling { beat: heartbeat@ },
            Phase::Sending { heartbeat, state, line } => Stage::Sending {
                beat: heartbeat@,
                state,
                line: line@,
            },
            Phase::Draining { heartbeat, state, line } => Stage::Draining {
                beat: heartbeat@,
                state,
                line: line@,
            },
            Phase::Beating { heartbeat } => Stage::Beating { beat: heartbeat@ },
            Phase::Resting { heartbeat } => Stage::Resting { beat: heartbeat@ },
            Phase::Ended => Stage::Ended,
        }
    }
}

impl Session {
    /// A session that begins, and what is to be done first.
    pub fn start() -> (r: (Session, Action))
        ensures
            r.0@ == Stage::StartingVr,
            r.1@ == Doing::StartVr,
    {
        (Session { phase: Phase::StartingVr }, Action::StartVr)
    }

    /// Goes on after `event`, and says what is to be done next; nothing where
    /// the event is not the outcome of what was being done.
    pub fn step(self, event: Event) -> (r: Option<(Session, Action)>)
        ensures
            r is Some <==> self@.next(event) is Some,
            r matches Some((session, action)) ==> self@.next(event) == Some((session@, action@)),
    {
        let (phase, action): (Phase, Action) = match (self.phase, event) {
            (Phase::StartingVr, Event::VrStarted(outcome)) => match outcome {
                Ok(_) => (Phase::OpeningSerial, Action::OpenSerial),
                Err(e) => (Phase::Ended, Action::End(step_error(Step::OpenVr, e.as_str()))),
            },
            (Phase::OpeningSerial, Event::SerialOpened(outcome)) => match outcome {
                Ok(_) => (
                    Phase::Announcing,
                    Action::Log(String::from_str("[fwd] session up: openvr + esp serial ready")),
                ),
                Err(e) => (
                    Phase::ReadingRole { error: step_error(Step::SerialOpen, e.as_str()) },
                    Action::ReadRole,
                ),
            },
            (Phase::ReadingRole { error }, Event::RoleRead(contents)) => {
                let warning: Option<String> = match contents {
                    Some(contents) => host_mode_warning(contents.as_str()),
                    None => None,
                };
                match warning {
                    Some(text) => (Phase::Warning { error }, Action::Log(text)),
                    None => (Phase::Ended, Action::End(error)),
                }
            },
            (Phase::Warning { error }, Event::Logged(_)) => (Phase::Ended, Action::End(error)),
            (Phase::Announcing, Event::Logged(now)) => (
                Phase::Sampling { heartbeat: Heartbeat::new(now) },
                Action::Sample,
            ),
            (Phase::Sampling { heartbeat }, Event::Sampled(sample)) => {
                let (state, line): (GazeState, String) = forward(&sample);
                let sent: String = String::from_str(line.as_str());
                (Phase::Sending { heartbeat, state, line }, Action::Send(sent))
            },
            (Phase::Sending { heartbeat, state, line }, Event::Sent(outcome)) => match outcome {
                Ok(_) => (Phase::Draining { heartbeat, state, line }, Action::Drain),
                Err(e) => (Phase::Ended, Action::End(step_error(Step::SerialWrite, e.as_str()))),
            },
            (Phase::Draining { heartbeat, state, line }, Event::Drained(now)) => {
                let mut heartbeat: Heartbeat = heartbeat;
                match heartbeat.beat(state, line.as_str(), now) {
                    Some(text) => (Phase::Beating { heartbeat }, Action::Log(text)),
                    None => (Phase::Resting { heartbeat }, Action::Rest),
                }
            },
            (Phase::Beating { heartbeat }, Event::Logged(_)) => (
                Phase::Resting { heartbeat },
                Action::Rest,
            ),
            (Phase::Resting { heartbeat }, Event::Rested) => (
                Phase::Sampling { heartbeat },
                Action::Sample,
            ),
            _ => {
                return None;
            },
        };
        Some((Session { phase }, action))
    }
}

/// Where a session is, and all that was done in it.
pub ghost struct Course {
    pub stage: Stage,
    pub done: Seq<Doing>,
}

/// How a session goes with `events`; nothing where an event is not the outcome
/// of what was being done.
pub open spec fn course(events: Seq<Event>) -> Option<Course>
    decreases events.len(),
{
    if events.len() == 0 {
        Some(Course { stage: Stage::StartingVr, done: seq![Doing::StartVr] })
    } else {
        match course(events.drop_last()) {
            Some(before) => match before.stage.next(events.last()) {
                Some((stage, doing)) => Some(Course { stage, done: before.done.push(doing) }),
                None => None,
            },
            None => None,
        }
    }
}

/// Whether `b` may be done directly after `a`: a sample is sent, what was sent
/// is drained, then at most one text is logged, and then comes the pause before
/// the next sample. After the end nothing is done.
pub open spec fn may_follow(a: Doing, b: Doing) -> bool {
    match a {
        Doing::StartVr => b == Doing::OpenSerial || b is End,
        Doing::OpenSerial => b is Log || b == Doing::ReadRole,
        Doing::ReadRole => b is Log || b is End,
        Doing::Log(_) => b == Doing::Sample || b == Doing::Rest || b is End,
        Doing::Sample => b is Send,
        Doing::Send(_) => b == Doing::Drain || b is End,
        Doing::Drain => b is Log || b == Doing::Rest,
        Doing::Rest => b == Doing::Sample,
        Doing::End(_) => false,
    }
}

/// A session does one thing after the other in this order, however long it
/// lasts.
pub proof fn session_keeps_order(events: Seq<Event>, i: int)
    requires
        course(events) is Some,
        0 <= i < course(events)->0.done.len() - 1,
    ensures
        may_follow(course(events)->0.done[i], course(events)->0.done[i + 1]),
    decreases events.len(),
{
    let init = events.drop_last();
    lemma_course(init);
    if i < course(init)->0.done.len() - 1 {
        session_keeps_order(init, i);
    }
}

/// What was done last belongs to the stage that a session is at.
proof fn lemma_course(events: Seq<Event>)
    requires
        course(events) is Some,
    ensures
        course(events)->0.done.len() > 0,
        course(events)->0.stage.does(course(events)->0.done.last()),
    decreases events.len(),
{
    if events.len() > 0 {
        lemma_course(events.drop_last());
    }
}

/// The role of the port is looked at only after the serial port could not be
/// opened, and once.
pub proof fn role_is_read_once(events: Seq<Event>, i: int)
    requires
        course(events) is Some,
        0 <= i < course(events)->0.done.len(),
        course(events)->0.done[i] == Doing::ReadRole,
    ensures
        events[i - 1] matches Event::SerialOpened(Err(_)),
        forall|j: int|
            0 <= j < course(events)->0.done.len() && j != i ==> #[trigger] course(events)->0.done[j]
                != Doing::ReadRole,
{
    let done = course(events)->0.done;
    lemma_role(events, i);
    assert forall|j: int| 0 <= j < done.len() && j != i implies #[trigger] done[j]
        != Doing::ReadRole by {
        if i < j {
            lemma_role_once(events, i, j);
        } else if done[j] == Doing::ReadRole {
            lemma_role_once(events, j, i);
        }
    }
}

/// After the role was looked at, it is not looked at again.
proof fn lemma_role_once(events: Seq<Event>, i: int, j: int)
    requires
        course(events) is Some,
        0 <= i < j < course(events)->0.done.len(),
        course(events)->0.done[i] == Doing::ReadRole,
    ensures
        course(events)->0.done[j] != Doing::ReadRole,
{
    let first = events.take(j);
    lemma_length(events);
    lemma_prefix(events, j);
    lemma_length(first);
    lemma_course(first);
    lemma_role(first, i);
}

/// Each event leads to one thing that is done.
proof fn lemma_length(events: Seq<Event>)
    requires
        course(events) is Some,
    ensures
        course(events)->0.done.len() == events.len() + 1,
    decreases events.len(),
{
    if events.len() > 0 {
        lemma_length(events.drop_last());
    }
}

/// What was done first stays done.
proof fn lemma_prefix(events: Seq<Event>, k: int)
    requires
        course(events) is Some,
        0 <= k <= events.len(),
    ensures
        course(events.take(k)) is Some,
        course(events.take(k))->0.done == course(events)->0.done.take(k + 1),
    decreases events.len(),
{
    lemma_length(events);
    if k == events.len() {
        assert(events.take(k) == events);
        assert(course(events)->0.done.take(k + 1) == course(events)->0.done);
    } else {
        let init = events.drop_last();
        lemma_length(init);
        lemma_prefix(init, k);
        assert(init.take(k) == events.take(k));
        assert(course(init)->0.done.take(k + 1) == course(events)->0.done.take(k + 1));
    }
}

/// Once the role was looked at, a session only goes to its end.
proof fn lemma_role(events: Seq<Event>, i: int)
    requires
        course(events) is Some,
        0 <= i < course(events)->0.done.len(),
        course(events)->0.done[i] == Doing::ReadRole,
    ensures
        i > 0,
        events[i - 1] matches Event::SerialOpened(Err(_)),
        ({
            ||| course(events)->0.stage is ReadingRole && i == course(events)->0.done.len() - 1
            ||| course(events)->0.stage is Warning
            ||| course(events)->0.stage is Ended
        }),
    decreases events.len(),
{
    lemma_length(events);
    if events.len() > 0 {
        let init = events.drop_last();
        lemma_length(init);
        if i < course(init)->0.done.len() {
            lemma_role(init, i);
            assert(init[i - 1] == events[i - 1]);
        }
    }
}

/// Where the serial port cannot be opened, the session ends with that error,
/// after a warning where the port's role calls for one and without it where
/// not.
pub proof fn failed_open_ends_session(e: String, contents: Option<String>, now: u128)
    ensures
        ({
            let error = Step::SerialOpen.text() + e@;
            let reading = Stage::ReadingRole { error };
            let end = Some((Stage::Ended, Doing::End(error)));
            &&& Stage::OpeningSerial.next(Event::SerialOpened(Err(e))) == Some(
                (reading, Doing::ReadRole),
            )
            &&& match role_log(contents) {
                Some(text) => {
                    let warning = Stage::Warning { error };
                    &&& reading.next(Event::RoleRead(contents)) == Some(
                        (warning, Doing::Log(text)),
                    )
                    &&& warning.next(Event::Logged(now)) == end
                },
                None => reading.next(Event::RoleRead(contents)) == end,
            }
        }),
{
}

/// A session ends only when something failed, and a failed write ends it.
pub proof fn session_ends_on_failure(stage: Stage, event: Event)
    requires
        stage.next(event) is Some,
    ensures
        (stage.next(event) matches Some((_, Doing::End(_)))) ==> {
            ||| event matches Event::VrStarted(Err(_))
            ||| event matches Event::Sent(Err(_))
            ||| stage is ReadingRole
            ||| stage is Warning
        },
        event matches Event::Sent(Err(e)) ==> stage.next(event) == Some(
            (Stage::Ended, Doing::End(Step::SerialWrite.text() + e@)),
        ),
        event matches Event::VrStarted(Err(e)) ==> stage.next(event) == Some(
            (Stage::Ended, Doing::End(Step::OpenVr.text() + e@)),
        ),
{
}

/// The last error that was logged, and when.
pub ghost struct Logged {
    pub error: Seq<char>,
    pub at: Option<int>,
}

impl Logged {
    /// Whether an error is logged: it is another one than the last, or the last
    /// was logged long enough ago.
    pub open spec fn due(self, error: Seq<char>, now: int) -> bool {
        error != self.error || (match self.at {
            Some(t) => elapsed(t, now) >= ERROR_REPEAT_PERIOD_NS,
            None => true,
        })
    }

    /// The last error that was logged, after `error` came up at the time `now`.
    pub open spec fn after(self, error: Seq<char>, now: int) -> Logged {
        if self.due(error, now) {
            Logged { error, at: Some(now) }
        } else {
            self
        }
    }
}

/// Decides which errors the forwarder logs. Times are in nanoseconds.
pub struct ErrorLog {
    last: String,
    logged_ns: Option<u128>,
}

impl View for ErrorLog {
    type V = Logged;

    closed spec fn view(&self) -> Logged {
        Logged {
            error: self.last@,
            at: match self.logged_ns {
                Some(t) => Some(t as int),
                None => None,
            },
        }
    }
}

impl ErrorLog {
    /// Nothing has been logged.
    pub fn new() -> (r: Self)
        ensures
            r@ == (Logged { error: Seq::empty(), at: None }),
    {
        ErrorLog { last: String::new(), logged_ns: None }
    }

    /// What to log when a session ended with `error` at the time `now`.
    pub fn record(&mut self, error: String, now: u128) -> (r: Option<String>)
        ensures
            final(self)@ == old(self)@.after(error@, now as int),
            r is Some <==> old(self)@.due(error@, now as int),
            r matches Some(text) ==> text@ == "[fwd] session ended: "@ + error@,
    {
        let stale: bool = match self.logged_ns {
            Some(t) => elapsed_ns(t, now) >= ERROR_REPEAT_PERIOD_NS,
            None => true,
        };
        let same: bool = error == self.last;
        if !same || stale {
            let mut text: String = String::from_str("[fwd] session ended: ");
            text.append(error.as_str());
            self.last = error;
            self.logged_ns = Some(now);
            Some(text)
        } else {
            None
        }
    }
}

/// A blink changes nothing: the gaze is followed through it.
pub proof fn blinks_are_followed(sample: GazeSample, blinking: bool)
    ensures
        (GazeSample { blinking, ..sample }).shows() == sample.shows(),
        (GazeSample { blinking, ..sample }).line() == sample.line(),
{
}

/// Without a head in the headset the center is sent, whatever the gaze reads.
pub proof fn no_eyes_is_center(sample: GazeSample)
    requires
        !sample.eyes_in_headset,
    ensures
        sample.line() == "0512,0512,0512,0512\n"@,
{
    reveal_strlit("0512,0512,0512,0512\n");
    reveal_with_fuel(decimal, 4);
    assert(decimal(512) == seq!['5', '1', '2']);
    assert(padded(512) == seq!['0', '5', '1', '2']);
    assert(sample.line() == "0512,0512,0512,0512\n"@);
}

/// A heartbeat shows a change of state at once; while the state lasts, the next
/// one comes a whole period after the last.
pub proof fn heartbeat_rate(b: Beat, state: GazeState, at: int, next: GazeState, now: int)
    requires
        b.due(state, at),
    ensures
        b.after(state, at).due(next, now) <==> next != state || elapsed(at, now)
            >= HEARTBEAT_PERIOD_NS,
{
}

/// The last heartbeat always shows the state that was last seen.
pub proof fn heartbeat_is_current(b: Beat, state: GazeState, now: int)
    ensures
        b.after(state, now).state == Some(state),
{
}

/// The first error of all is logged.
pub proof fn first_error_logged(error: Seq<char>, now: int)
    ensures
        (Logged { error: Seq::empty(), at: None }).due(error, now),
{
}

/// Once an error is logged, another one is logged at once, and the same one not
/// before the repeat period is over.
pub proof fn error_rate(l: Logged, error: Seq<char>, at: int, next: Seq<char>, now: int)
    requires
        l.due(error, at),
    ensures
        l.after(error, at).due(next, now) <==> next != error || elapsed(at, now)
            >= ERROR_REPEAT_PERIOD_NS,
{
}

/// An error that is not logged is the one that was logged last, and leaves the
/// time of that as it is: repeats do not put off the next log.
pub proof fn suppressed_error_was_logged(l: Logged, error: Seq<char>, now: int)
    requires
        !l.due(error, now),
    ensures
        l.error == error,
        l.at matches Some(t) && elapsed(t, now) < ERROR_REPEAT_PERIOD_NS,
        l.after(error, now) == l,
{
}

/// The gaze is followed exactly while the headset is worn, and then the line is
/// the frame of the four values, whatever they are; otherwise it is that of the
/// center.
pub proof fn forwarded_by_wearing(sample: GazeSample)
    ensures
        sample.shows() == GazeState::Follow <==> sample.eyes_in_headset,
        sample.shows() == GazeState::NoEyes <==> !sample.eyes_in_headset,
        sample.eyes_in_headset ==> sample.line() == frame(
            sample.left_x,
            sample.left_y,
            sample.right_x,
            sample.right_y,
        ),
        !sample.eyes_in_headset ==> sample.line() == frame(512, 512, 512, 512),
{
}

/// What is forwarded can be read: a worn headset's values come back from the
/// line, and four times 512 come back otherwise.
pub proof fn forwarded_values_read_back(sample: GazeSample)
    ensures
        text_values(sample.line().drop_last()) == if sample.eyes_in_headset {
            Some((sample.left_x, sample.left_y, sample.right_x, sample.right_y))
        } else {
            Some((512i32, 512i32, 512i32, 512i32))
        },
        sample.line().last() == '\n',
{
    if sample.eyes_in_headset {
        frame_reads_back(sample.left_x, sample.left_y, sample.right_x, sample.right_y);
        frame_is_made_of_fields(sample.left_x, sample.left_y, sample.right_x, sample.right_y);
    } else {
        frame_reads_back(512, 512, 512, 512);
        frame_is_made_of_fields(512, 512, 512, 512);
    }
}

/// Time does not run back.
pub proof fn elapsed_is_the_difference(earlier: int, later: int)
    ensures
        elapsed(earlier, later) >= 0,
        later >= earlier ==> elapsed(earlier, later) == later - earlier,
        later <= earlier ==> elapsed(earlier, later) == 0,
{
}

/// Heartbeats by the clock: one is due where its state is not the one shown
/// last, or a second after that one; it is then the last one, and otherwise the
/// last one stays.
pub proof fn heartbeat_by_clock(b: Beat, state: GazeState, now: int)
    ensures
        b.state is None ==> b.due(state, now),
        b.state matches Some(last) ==> (b.due(state, now) <==> state != last || now - b.at
            >= 1_000_000_000),
        b.due(state, now) ==> b.after(state, now).at == now && b.after(state, now).state == Some(
            state,
        ),
        !b.due(state, now) ==> b.after(state, now) == b,
{
}

/// A heartbeat gives the state by name and the line that was sent, up to the
/// white space at its end.
pub proof fn heartbeat_gives_state_and_line(line: Seq<char>, b: int)
    requires
        0 <= b <= line.len(),
        forall|i: int| b <= i < line.len() ==> white_space(#[trigger] line[i]),
        b > 0 ==> !white_space(line[b - 1]),
    ensures
        heartbeat_text(GazeState::Follow, line) == "[fwd] state="@ + "follow"@ + " tx="@
            + line.take(b),
        heartbeat_text(GazeState::NoEyes, line) == "[fwd] state="@ + "no-eyes"@ + " tx="@
            + line.take(b),
{
    let c = trim_end_cuts_white_space(line);
    if c < b {
        assert(white_space(line[b - 1]));
    }
    if b < c {
        assert(white_space(line[c - 1]));
    }
}

/// The error log by the clock: an error is logged unless it is the one logged
/// last and that was less than ten seconds ago; it is then the last one, and
/// otherwise the last one stays.
pub proof fn errors_by_clock(l: Logged, error: Seq<char>, now: int)
    ensures
        l.at is None ==> l.due(error, now),
        error != l.error ==> l.due(error, now),
        l.at matches Some(t) ==> error == l.error ==> (l.due(error, now) <==> now - t
            >= 10_000_000_000),
        l.due(error, now) ==> l.after(error, now).error == error && l.after(error, now).at == Some(
            now,
        ),
        !l.due(error, now) ==> l.after(error, now) == l,
{
}

/// What a session asks for is what was decided.
pub proof fn actions_are_taken_as_they_are(text: String)
    ensures
        Action::StartVr@ == Doing::StartVr,
        Action::OpenSerial@ == Doing::OpenSerial,
        Action::ReadRole@ == Doing::ReadRole,
        Action::Log(text)@ == Doing::Log(text@),
        Action::Sample@ == Doing::Sample,
        Action::Send(text)@ == Doing::Send(text@),
        Action::Drain@ == Doing::Drain,
        Action::Rest@ == Doing::Rest,
        Action::End(text)@ == Doing::End(text@),
{
}

/// A session comes up: once the VR runtime and the serial port are there, that is
/// logged, and then the first sample is asked for, with no heartbeat given yet.
pub proof fn session_comes_up(now: u128)
    ensures
        Stage::StartingVr.next(Event::VrStarted(Ok(()))) == Some(
            (Stage::OpeningSerial, Doing::OpenSerial),
        ),
        Stage::OpeningSerial.next(Event::SerialOpened(Ok(()))) == Some(
            (Stage::Announcing, Doing::Log("[fwd] session up: openvr + esp serial ready"@)),
        ),
        Stage::Announcing.next(Event::Logged(now)) == Some(
            (Stage::Sampling { beat: Beat { at: now as int, state: None } }, Doing::Sample),
        ),
{
}

/// One round of a session, by the headset and the clock: the frame of the sample,
/// or of the center where the headset is not worn, is sent, the answers are
/// drained, and a heartbeat is logged where the state is new or the last one is
/// a second old. Then comes the pause, and the next sample.
pub proof fn session_round(beat: Beat, sample: GazeSample, now: u128, then: u128)
    ensures
        ({
            let state = if sample.eyes_in_headset {
                GazeState::Follow
            } else {
                GazeState::NoEyes
            };
            let line = if sample.eyes_in_headset {
                frame(sample.left_x, sample.left_y, sample.right_x, sample.right_y)
            } else {
                frame(512, 512, 512, 512)
            };
            let sending = Stage::Sending { beat, state, line };
            let draining = Stage::Draining { beat, state, line };
            let shown = Beat { at: now as int, state: Some(state) };
            let beating = Stage::Beating { beat: shown };
            let fresh = beat.state == Some(state) && now - beat.at < 1_000_000_000;
            &&& Stage::Sampling { beat }.next(Event::Sampled(sample)) == Some(
                (sending, Doing::Send(line)),
            )
            &&& sending.next(Event::Sent(Ok(()))) == Some((draining, Doing::Drain))
            &&& fresh ==> draining.next(Event::Drained(now)) == Some(
                (Stage::Resting { beat }, Doing::Rest),
            )
            &&& !fresh ==> draining.next(Event::Drained(now)) == Some(
                (beating, Doing::Log(heartbeat_text(state, line))),
            )
            &&& beating.next(Event::Logged(then)) == Some(
                (Stage::Resting { beat: shown }, Doing::Rest),
            )
            &&& Stage::Resting { beat }.next(Event::Rested) == Some(
                (Stage::Sampling { beat }, Doing::Sample),
            )
        }),
{
}

/// Whether `event` is what can come of `doing`.
pub open spec fn comes_of(event: Event, doing: Doing) -> bool {
    match doing {
        Doing::StartVr => event is VrStarted,
        Doing::OpenSerial => event is SerialOpened,
        Doing::ReadRole => event is RoleRead,
        Doing::Log(_) => event is Logged,
        Doing::Sample => event is Sampled,
        Doing::Send(_) => event is Sent,
        Doing::Drain => event is Drained,
        Doing::Rest => event is Rested,
        Doing::End(_) => false,
    }
}

/// A session goes on whatever comes of what it asked for, and takes nothing else
/// for its outcome.
pub proof fn session_goes_on(stage: Stage, doing: Doing, event: Event)
    requires
        stage.does(doing),
    ensures
        stage.next(event) is Some <==> comes_of(event, doing),
        stage.next(event) matches Some((after, next)) ==> after.does(next),
{
}

/// A role file that cannot be read calls for no warning; one that can, for the
/// warning that its role calls for.
pub proof fn role_is_judged_where_it_is_read(contents: String)
    ensures
        role_log(None) is None,
        role_log(Some(contents)) == warning_for(contents@),
{
}

} // verus!
