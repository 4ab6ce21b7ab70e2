//! The three tools: drive forward, drive backward, stop.
//!
//! A tool call is a short conversation with the rover. It is written here as
//! a machine that never touches the network: each step either names the next
//! request and waits for what comes of it, or ends the call with the text to
//! report. A motion tool sends its drive command and then asks for the
//! inertial readings, whatever the rover made of the drive command; `stop`
//! only asks for the readings. A call always ends with a text: a request
//! that failed shows in the text, never as an error.

use crate::command::{
    bare_json, drive_json, lemma_bare_is_no_drive, GoBackward, GoForward, DRIVE_TAG,
    TELEMETRY_TAG,
};
use crate::quoting::{debug_quoted, debug_text};
use crate::speed::{Numeral, Speed};
use crate::transport::{
    command_to_robot, command_url, lemma_url_tells_commands_apart, reply_text, retrieve_imu_data,
    Exchange, ExchangeView, HttpOutcome, OnFailure, Outcome,
};
use vstd::prelude::*;
use vstd::string::*;

verus! {

/// The way a motion tool drives.
#[derive(Clone, Copy, PartialEq, Eq, Structural)]
pub enum Direction {
    Forward,
    Backward,
}

/// How far a tool call has come.
enum Stage {
    /// The drive command is out.
    Driving { direction: Direction },
    /// The drive command was answered by `drive_reply`, and the request for
    /// the readings is out.
    Reading { direction: Direction, drive_reply: String },
    /// `stop` has asked for the readings.
    Stopping,
}

/// How far a tool call has come, in the model.
pub enum StageView {
    Driving { direction: Direction },
    Reading { direction: Direction, drive_reply: Seq<char> },
    Stopping,
}

impl View for Stage {
    type V = StageView;

    closed spec fn view(&self) -> StageView {
        match self {
            Stage::Driving { direction } => StageView::Driving { direction: *direction },
            Stage::Reading { direction, drive_reply } => StageView::Reading {
                direction: *direction,
                drive_reply: drive_reply@,
            },
            Stage::Stopping => StageView::Stopping,
        }
    }
}

/// A tool call that waits for a request to be made.
pub struct Pending {
    exchange: Exchange,
    stage: Stage,
}

/// The model of a [`Pending`] call.
pub struct PendingView {
    pub exchange: ExchangeView,
    pub stage: StageView,
}

impl View for Pending {
    type V = PendingView;

    closed spec fn view(&self) -> PendingView {
        PendingView { exchange: self.exchange@, stage: self.stage@ }
    }
}

/// What a tool call does next.
pub enum Step {
    /// Make the request and come back with what came of it.
    Request(Pending),
    /// The call is over; this is its result.
    Done(String),
}

/// The model of a [`Step`].
pub enum StepView {
    Request(PendingView),
    Done(Seq<char>),
}

impl View for Step {
    type V = StepView;

    open spec fn view(&self) -> StepView {
        match self {
            Step::Request(pending) => StepView::Request(pending@),
            Step::Done(text) => StepView::Done(text@),
        }
    }
}

impl PendingView {
    /// The request that is out is the one the stage speaks of: the drive
    /// command of a motion tool at some speed, or the request for the
    /// readings.
    pub open spec fn wf(self) -> bool {
        match self.stage {
            StageView::Driving { direction } => exists|speed: Numeral|
                self.exchange == #[trigger] drive_exchange(direction, speed),
            StageView::Reading { .. } => self.exchange == telemetry_exchange(),
            StageView::Stopping => self.exchange == telemetry_exchange(),
        }
    }
}

impl StepView {
    /// A step that asks for a request asks for one that fits its stage.
    pub open spec fn wf(self) -> bool {
        match self {
            StepView::Request(pending) => pending.wf(),
            StepView::Done(_) => true,
        }
    }
}

/// The word for a direction in a report.
pub open spec fn direction_word(direction: Direction) -> Seq<char> {
    match direction {
        Direction::Forward => "forward"@,
        Direction::Backward => "backward"@,
    }
}

/// The report of a motion tool, from the two replies as they are shown.
pub open spec fn motion_report(
    direction: Direction,
    drive_shown: Seq<char>,
    imu_shown: Seq<char>,
) -> Seq<char> {
    "reaction of Robot is "@ + drive_shown + "\n. IMU data of robot after this move "@
        + direction_word(direction) + " is "@ + imu_shown
}

/// Puts the report of a motion tool together from the two replies as they
/// are to be shown.
pub fn write_motion_report(
    direction: Direction,
    drive_shown: &str,
    imu_shown: &str,
) -> (report: String)
    ensures
        report@ == motion_report(direction, drive_shown@, imu_shown@),
{
    let mut report = String::from_str("reaction of Robot is ");
    report.append(drive_shown);
    report.append("\n. IMU data of robot after this move ");
    match direction {
        Direction::Forward => report.append("forward"),
        Direction::Backward => report.append("backward"),
    }
    report.append(" is ");
    report.append(imu_shown);
    report
}

/// The speed at which a motion tool drives either side.
pub open spec fn wheel_speed(direction: Direction, speed: Numeral) -> Numeral {
    match direction {
        Direction::Forward => speed,
        Direction::Backward => speed.negated(),
    }
}

/// The exchange that delivers the drive command of a motion tool.
pub open spec fn drive_exchange(direction: Direction, speed: Numeral) -> ExchangeView {
    ExchangeView {
        url: command_url(
            drive_json(
                DRIVE_TAG as nat,
                wheel_speed(direction, speed).text(),
                wheel_speed(direction, speed).text(),
            ),
        ),
        on_failure: OnFailure::NotResponding,
    }
}

/// The exchange that asks for the inertial readings.
pub open spec fn telemetry_exchange() -> ExchangeView {
    ExchangeView {
        url: command_url(bare_json(TELEMETRY_TAG as nat)),
        on_failure: OnFailure::NotResponding,
    }
}

/// The first step of a motion tool: send the drive command.
pub open spec fn begin_motion(direction: Direction, speed: Numeral) -> StepView {
    StepView::Request(
        PendingView {
            exchange: drive_exchange(direction, speed),
            stage: StageView::Driving { direction },
        },
    )
}

/// The first step of `stop`: ask for the readings.
pub open spec fn begin_stop() -> StepView {
    StepView::Request(PendingView { exchange: telemetry_exchange(), stage: StageView::Stopping })
}

/// The step that follows when the request of `pending` came to `outcome`.
pub open spec fn next_step(pending: PendingView, outcome: Outcome) -> StepView {
    let reply = reply_text(pending.exchange.on_failure, outcome);
    match pending.stage {
        StageView::Driving { direction } => StepView::Request(
            PendingView {
                exchange: telemetry_exchange(),
                stage: StageView::Reading { direction, drive_reply: reply },
            },
        ),
        StageView::Reading { direction, drive_reply } => StepView::Done(
            motion_report(direction, debug_text(drive_reply), debug_text(reply)),
        ),
        StageView::Stopping => StepView::Done(reply),
    }
}

/// Drives forward at `speed`, then reads the inertial sensor.
pub fn move_forward(speed: Speed) -> (step: Step)
    ensures
        step@ == begin_motion(Direction::Forward, speed@),
        step@.wf(),
{
    let command = GoForward::new(speed);
    Step::Request(
        Pending {
            exchange: command_to_robot(command),
            stage: Stage::Driving { direction: Direction::Forward },
        },
    )
}

/// Drives backward at `speed`, then reads the inertial sensor.
pub fn move_backward(speed: Speed) -> (step: Step)
    ensures
        step@ == begin_motion(Direction::Backward, speed@),
        step@.wf(),
{
    let command = GoBackward::new(speed);
    Step::Request(
        Pending {
            exchange: command_to_robot(command),
            stage: Stage::Driving { direction: Direction::Backward },
        },
    )
}

/// Reads the inertial sensor. No drive command is sent.
pub fn stop() -> (step: Step)
    ensures
        step@ == begin_stop(),
        step@.wf(),
{
    Step::Request(Pending { exchange: retrieve_imu_data(), stage: Stage::Stopping })
}

impl Pending {
    /// What holds of every call that waits: its request fits its stage.
    #[verifier::type_invariant]
    spec fn well_formed(&self) -> bool {
        self@.wf()
    }

    /// The URL to get.
    pub fn url(&self) -> (url: &str)
        ensures
            url@ == self@.exchange.url,
            self@.wf(),
    {
        proof {
            use_type_invariant(self);
        }
        self.exchange.url()
    }

    /// Goes on with the call once the request has been made and `outcome`
    /// is what came of it.
    pub fn resume(self, outcome: HttpOutcome) -> (step: Step)
        ensures
            step@ == next_step(self@, outcome@),
            step@.wf(),
    {
        proof {
            use_type_invariant(&self);
        }
        let reply = self.exchange.conclude(outcome);
        match self.stage {
            Stage::Driving { direction } => Step::Request(
                Pending {
                    exchange: retrieve_imu_data(),
                    stage: Stage::Reading { direction, drive_reply: reply },
                },
            ),
            Stage::Reading { direction, drive_reply } => {
                let drive_shown = debug_quoted(drive_reply.as_str());
                let imu_shown = debug_quoted(reply.as_str());
                Step::Done(write_motion_report(direction, drive_shown.as_str(), imu_shown.as_str()))
            },
            Stage::Stopping => Step::Done(reply),
        }
    }
}

/// At every step of every call the request that is out fits the stage: a
/// call starts so, and goes on so whatever comes of a request.
pub proof fn lemma_steps_stay_well_formed(
    direction: Direction,
    speed: Numeral,
    pending: PendingView,
    outcome: Outcome,
)
    requires
        pending.wf(),
    ensures
        begin_motion(direction, speed).wf(),
        begin_stop().wf(),
        next_step(pending, outcome).wf(),
{
    assert(begin_motion(direction, speed)->Request_0.exchange == drive_exchange(direction, speed));
}

/// The number of requests that a call has yet to make.
pub open spec fn requests_left(step: StepView) -> nat {
    match step {
        StepView::Done(_) => 0,
        StepView::Request(pending) => match pending.stage {
            StageView::Driving { .. } => 2,
            StageView::Reading { .. } => 1,
            StageView::Stopping => 1,
        },
    }
}

/// Every call ends: a motion tool starts two requests from its end, `stop`
/// one, and each request made, whatever comes of it, leaves one fewer.
pub proof fn lemma_calls_end(
    direction: Direction,
    speed: Numeral,
    pending: PendingView,
    outcome: Outcome,
)
    ensures
        requests_left(begin_motion(direction, speed)) == 2,
        requests_left(begin_stop()) == 1,
        requests_left(next_step(pending, outcome)) + 1 == requests_left(StepView::Request(pending)),
{
}

/// The drive command of a motion tool holds the speed asked for on both
/// sides: as it was given to drive forward, with its sign changed to drive
/// backward.
pub proof fn lemma_motion_drives_both_sides_alike(speed: Numeral)
    ensures
        begin_motion(Direction::Forward, speed) matches StepView::Request(driving)
            && driving.exchange.url == command_url(
            drive_json(DRIVE_TAG as nat, speed.text(), speed.text()),
        ),
        begin_motion(Direction::Backward, speed) matches StepView::Request(driving)
            && driving.exchange.url == command_url(
            drive_json(DRIVE_TAG as nat, speed.negated().text(), speed.negated().text()),
        ),
{
}

/// A motion tool makes two requests, whatever comes of either: first the
/// drive command, then the request for the readings, once. After the second
/// the call is over, and its result shows both replies, each as it came or
/// as the text that stands for it.
pub proof fn lemma_motion_call(
    direction: Direction,
    speed: Numeral,
    drive_outcome: Outcome,
    imu_outcome: Outcome,
)
    ensures
        ({
            &&& begin_motion(direction, speed) matches StepView::Request(driving)
            &&& driving.exchange == drive_exchange(direction, speed)
            &&& next_step(driving, drive_outcome) matches StepView::Request(reading)
            &&& reading.exchange == telemetry_exchange()
            &&& next_step(reading, imu_outcome) == StepView::Done(
                motion_report(
                    direction,
                    debug_text(reply_text(OnFailure::NotResponding, drive_outcome)),
                    debug_text(reply_text(OnFailure::NotResponding, imu_outcome)),
                ),
            )
        }),
{
}

/// `stop` makes one request, the one for the readings, and its result is
/// the reply to it and nothing more.
pub proof fn lemma_stop_call(outcome: Outcome)
    ensures
        ({
            &&& begin_stop() matches StepView::Request(stopping)
            &&& stopping.exchange == telemetry_exchange()
            &&& next_step(stopping, outcome) == StepView::Done(
                reply_text(OnFailure::NotResponding, outcome),
            )
        }),
{
}

/// The request for the readings delivers no drive command, at whatever
/// speeds: its URL is the URL of none.
pub proof fn lemma_telemetry_is_no_drive(tag: nat, left: Seq<char>, right: Seq<char>)
    ensures
        telemetry_exchange().url != command_url(drive_json(tag, left, right)),
{
    lemma_bare_is_no_drive(TELEMETRY_TAG as nat, tag, left, right);
    lemma_url_tells_commands_apart(bare_json(TELEMETRY_TAG as nat), drive_json(tag, left, right));
}

} // verus!
