//! One exchange with the rover: the request to make and the reply to report.
//!
//! The rover is reached by an HTTP GET that carries the command's JSON in
//! the query. This module says which URL to get and what reply to report for
//! whatever came of the request; making the request is the caller's part.
//! A request that fails is never an error here: the reply is then a fixed
//! text that stands in for the rover's answer.

use crate::command::{bare_json, IMUData, RobotCommand, TELEMETRY_TAG};
use vstd::prelude::*;
use vstd::string::*;

verus! {

/// The address at which the rover listens.
pub const ROVER_IP: &'static str = "192.168.4.1";

/// The reply that stands in for a response without a readable body.
pub const NO_RESPONSE: &'static str = "No response";

/// The reply that stands in for a rover that could not be reached.
pub const NOT_RESPONDING: &'static str = "Robot not responding";

/// What precedes the cause in a reply that reports why a request failed.
pub const ERROR_PREFIX: &'static str = "Error: ";

/// The URL that delivers the command `json`. The command stands in the
/// query as it is written; to escape what a query cannot hold is left to
/// the HTTP client that takes the URL.
pub open spec fn command_url(json: Seq<char>) -> Seq<char> {
    "http://"@ + ROVER_IP@ + "/js?json="@ + json
}

/// What came of one request.
pub enum HttpOutcome {
    /// A response arrived, with this body.
    Body(String),
    /// A response arrived, and its body could not be read as text.
    Unreadable,
    /// No response arrived; the text says why.
    Failed(String),
}

/// The model of an [`HttpOutcome`].
pub enum Outcome {
    Body(Seq<char>),
    Unreadable,
    Failed(Seq<char>),
}

impl View for HttpOutcome {
    type V = Outcome;

    open spec fn view(&self) -> Outcome {
        match self {
            HttpOutcome::Body(body) => Outcome::Body(body@),
            HttpOutcome::Unreadable => Outcome::Unreadable,
            HttpOutcome::Failed(cause) => Outcome::Failed(cause@),
        }
    }
}

/// How a request that failed is reported.
#[derive(Clone, Copy, PartialEq, Eq, Structural)]
pub enum OnFailure {
    /// By the cause of the failure.
    ReportCause,
    /// By the one fixed text, whatever the cause.
    NotResponding,
}

/// The reply to report for `outcome`: the body where there is one, and a
/// fixed text in its place where there is none.
pub open spec fn reply_text(on_failure: OnFailure, outcome: Outcome) -> Seq<char> {
    match outcome {
        Outcome::Body(body) => if body.len() == 0 {
            NO_RESPONSE@
        } else {
            body
        },
        Outcome::Unreadable => NO_RESPONSE@,
        Outcome::Failed(cause) => match on_failure {
            OnFailure::ReportCause => ERROR_PREFIX@ + cause,
            OnFailure::NotResponding => NOT_RESPONDING@,
        },
    }
}

/// A request to the rover that waits to be made.
pub struct Exchange {
    url: String,
    on_failure: OnFailure,
}

/// The model of an [`Exchange`].
pub struct ExchangeView {
    pub url: Seq<char>,
    pub on_failure: OnFailure,
}

impl View for Exchange {
    type V = ExchangeView;

    closed spec fn view(&self) -> ExchangeView {
        ExchangeView { url: self.url@, on_failure: self.on_failure }
    }
}

/// Builds the URL that delivers the command `json`.
pub fn url_for(json: &str) -> (url: String)
    ensures
        url@ == command_url(json@),
{
    let mut url = String::from_str("http://");
    url.append(ROVER_IP);
    url.append("/js?json=");
    url.append(json);
    url
}

impl Exchange {
    /// The URL to get.
    pub fn url(&self) -> (url: &str)
        ensures
            url@ == self@.url,
    {
        self.url.as_str()
    }

    /// The reply to report once the request has been made and `outcome` is
    /// what came of it.
    pub fn conclude(&self, outcome: HttpOutcome) -> (reply: String)
        ensures
            reply@ == reply_text(self@.on_failure, outcome@),
    {
        match outcome {
            HttpOutcome::Body(body) => {
                if body.as_str().is_empty() {
                    String::from_str(NO_RESPONSE)
                } else {
                    body
                }
            },
            HttpOutcome::Unreadable => String::from_str(NO_RESPONSE),
            HttpOutcome::Failed(cause) => match self.on_failure {
                OnFailure::ReportCause => {
                    let mut reply = String::from_str(ERROR_PREFIX);
                    reply.append(cause.as_str());
                    reply
                },
                OnFailure::NotResponding => String::from_str(NOT_RESPONDING),
            },
        }
    }
}

/// The exchange that delivers `json` as it stands. If it fails, the reply
/// names the cause.
pub fn send_command(json: &str) -> (exchange: Exchange)
    ensures
        exchange@ == (ExchangeView { url: command_url(json@), on_failure: OnFailure::ReportCause }),
{
    Exchange { url: url_for(json), on_failure: OnFailure::ReportCause }
}

/// The exchange that delivers `command`. If it fails, the reply is
/// [`NOT_RESPONDING`].
pub fn command_to_robot<C: RobotCommand>(command: C) -> (exchange: Exchange)
    ensures
        exchange@ == (ExchangeView {
            url: command_url(command.json()),
            on_failure: OnFailure::NotResponding,
        }),
{
    let json = command.to_json();
    Exchange { url: url_for(json.as_str()), on_failure: OnFailure::NotResponding }
}

/// The exchange that asks the rover for its inertial readings.
pub fn retrieve_imu_data() -> (exchange: Exchange)
    ensures
        exchange@ == (ExchangeView {
            url: command_url(bare_json(TELEMETRY_TAG as nat)),
            on_failure: OnFailure::NotResponding,
        }),
{
    let retrieve_imu_data_command = IMUData::new();
    command_to_robot(retrieve_imu_data_command)
}

/// A request that did not reach the rover is reported by a text that is
/// fixed beforehand: the one text that stands for every cause, or the cause
/// behind a fixed prefix. A response without a readable body is reported by
/// the text that stands for it.
pub proof fn lemma_sentinel_replies(on_failure: OnFailure, cause: Seq<char>)
    ensures
        reply_text(OnFailure::NotResponding, Outcome::Failed(cause)) == NOT_RESPONDING@,
        reply_text(OnFailure::ReportCause, Outcome::Failed(cause)) == ERROR_PREFIX@ + cause,
        reply_text(on_failure, Outcome::Unreadable) == NO_RESPONSE@,
        reply_text(on_failure, Outcome::Body(Seq::empty())) == NO_RESPONSE@,
{
}

/// A body that is not empty is reported as it came.
pub proof fn lemma_body_is_relayed(on_failure: OnFailure, body: Seq<char>)
    requires
        body.len() > 0,
    ensures
        reply_text(on_failure, Outcome::Body(body)) == body,
{
}

/// Two commands that differ are delivered by URLs that differ.
pub proof fn lemma_url_tells_commands_apart(json: Seq<char>, other: Seq<char>)
    requires
        json != other,
    ensures
        command_url(json) != command_url(other),
{
    let prefix = "http://"@ + ROVER_IP@ + "/js?json="@;
    assert(command_url(json).skip(prefix.len() as int) =~= json);
    assert(command_url(other).skip(prefix.len() as int) =~= other);
}

} // verus!
