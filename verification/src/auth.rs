//! The device authorization grant: what the provider answers, what each
//! answer to a poll means, and how a login attempt moves from poll to poll.

use vstd::prelude::*;
use vstd::string::StringExecFns;
use crate::decimal::{decimal, push_decimal};

verus! {

/// The parameters of a request for a device code.
#[derive(Debug)]
pub struct DeviceCodeRequest {
    client_id: String,
}

impl DeviceCodeRequest {
    /// The client that the request is made for.
    pub closed spec fn spec_client_id(&self) -> Seq<char> {
        self.client_id@
    }

    /// A request on behalf of the client `client_id`.
    pub fn new(client_id: String) -> (r: Self)
        ensures
            r.spec_client_id() == client_id@,
    {
        DeviceCodeRequest { client_id }
    }

    /// The client that the request is made for.
    pub fn client_id(&self) -> (r: &str)
        ensures
            r@ == self.spec_client_id(),
    {
        self.client_id.as_str()
    }
}

/// What the provider answers to a request for a device code: the code to
/// poll with, the code and address to show to the user, the lifetime of both
/// and the number of seconds to leave between two polls.
#[derive(Debug)]
pub struct DeviceCodeResponse {
    pub device_code: String,
    pub user_code: String,
    pub verification_uri: String,
    pub expires_in: u64,
    pub interval: u64,
}

/// What the provider answers to one poll for the access token.
#[derive(Debug)]
pub struct AccessTokenResponse {
    pub access_token: Option<String>,
    pub token_type: Option<String>,
    pub scope: Option<String>,
    pub error: Option<String>,
    pub error_description: Option<String>,
    pub error_uri: Option<String>,
    pub interval: Option<u32>,
}

/// What one answer to a poll means for the login attempt.
#[derive(Debug, PartialEq)]
pub enum PollingResult {
    /// The user has authorized the device; the access token.
    Success(String),
    /// Poll again; with `Some`, the number of seconds to wait from now on.
    Wait(Option<u64>),
    /// The attempt has failed for good; the reason.
    Error(String),
}

/// The mathematical content of a [`PollingResult`].
pub enum PollingResultView {
    Success(Seq<char>),
    Wait(Option<u64>),
    Error(Seq<char>),
}

impl View for PollingResult {
    type V = PollingResultView;

    open spec fn view(&self) -> PollingResultView {
        match self {
            PollingResult::Success(token) => PollingResultView::Success(token@),
            PollingResult::Wait(seconds) => PollingResultView::Wait(*seconds),
            PollingResult::Error(message) => PollingResultView::Error(message@),
        }
    }
}

/// The number of seconds to wait after `slow_down` where the provider names
/// no interval of its own.
pub const SLOW_DOWN_FALLBACK_SECS: u64 = 5;

/// What the error code `code` of an answer means, given the interval that
/// the answer carries.
pub open spec fn error_outcome(code: Seq<char>, interval: Option<u32>) -> PollingResultView {
    if code == "authorization_pending"@ {
        PollingResultView::Wait(None)
    } else if code == "slow_down"@ {
        match interval {
            Some(seconds) => PollingResultView::Wait(Some(seconds as u64)),
            None => PollingResultView::Wait(Some(SLOW_DOWN_FALLBACK_SECS)),
        }
    } else if code == "expired_token"@ {
        PollingResultView::Error("device code has expired; re-authenticate"@)
    } else if code == "access_denied"@ {
        PollingResultView::Error("login cancelled by user"@)
    } else {
        PollingResultView::Error("unknown error: "@ + code)
    }
}

/// What an answer to a poll means: a token ends the attempt with success,
/// whatever else the answer holds; without a token the error code decides;
/// an answer with neither is a violation of the protocol.
pub open spec fn polling_outcome(
    access_token: Option<Seq<char>>,
    error: Option<Seq<char>>,
    interval: Option<u32>,
) -> PollingResultView {
    match access_token {
        Some(token) => PollingResultView::Success(token),
        None => match error {
            Some(code) => error_outcome(code, interval),
            None => PollingResultView::Error("invalid response from provider"@),
        },
    }
}

/// Decides what one answer to a poll means for the login attempt.
pub fn handle_polling_response(response: &AccessTokenResponse) -> (r: PollingResult)
    ensures
        r@ == polling_outcome(
            response.access_token.deep_view(),
            response.error.deep_view(),
            response.interval,
        ),
{
    if let Some(token) = &response.access_token {
        return PollingResult::Success(token.clone());
    }
    match &response.error {
        Some(error) => {
            let code = error.as_str();
            if *code == *"authorization_pending" {
                PollingResult::Wait(None)
            } else if *code == *"slow_down" {
                match response.interval {
                    Some(new_interval) => PollingResult::Wait(Some(new_interval as u64)),
                    None => PollingResult::Wait(Some(SLOW_DOWN_FALLBACK_SECS)),
                }
            } else if *code == *"expired_token" {
                PollingResult::Error(
                    String::from_str("device code has expired; re-authenticate"),
                )
            } else if *code == *"access_denied" {
                PollingResult::Error(String::from_str("login cancelled by user"))
            } else {
                let mut message = String::from_str("unknown error: ");
                message.append(code);
                PollingResult::Error(message)
            }
        },
        None => PollingResult::Error(String::from_str("invalid response from provider")),
    }
}

/// Why a login attempt ended without a token.
#[derive(Debug, PartialEq)]
pub enum PollFailure {
    /// The caller's deadline passed; the length of the deadline in seconds.
    TimedOut { seconds: u64 },
    /// The provider ended the attempt; its reason.
    Provider(String),
    /// A poll was answered with a status other than success; the status.
    Http(String),
}

/// The mathematical content of a [`PollFailure`].
pub enum PollFailureView {
    TimedOut { seconds: u64 },
    Provider(Seq<char>),
    Http(Seq<char>),
}

impl View for PollFailure {
    type V = PollFailureView;

    open spec fn view(&self) -> PollFailureView {
        match self {
            PollFailure::TimedOut { seconds } => PollFailureView::TimedOut { seconds: *seconds },
            PollFailure::Provider(reason) => PollFailureView::Provider(reason@),
            PollFailure::Http(status) => PollFailureView::Http(status@),
        }
    }
}

/// The text that tells the user of `failure`.
pub open spec fn failure_message(failure: PollFailureView) -> Seq<char> {
    match failure {
        PollFailureView::TimedOut { seconds } => "Authentication timed out after "@ + decimal(
            seconds as nat,
        ) + " seconds. Please try `login` again."@,
        PollFailureView::Provider(reason) => reason,
        PollFailureView::Http(status) => "API request error: "@ + status,
    }
}

impl PollFailure {
    /// The text that tells the user of the failure.
    pub fn message(&self) -> (r: String)
        ensures
            r@ == failure_message(self@),
    {
        match self {
            PollFailure::TimedOut { seconds } => {
                let mut text = String::from_str("Authentication timed out after ");
                push_decimal(&mut text, *seconds);
                text.append(" seconds. Please try `login` again.");
                text
            },
            PollFailure::Provider(reason) => reason.clone(),
            PollFailure::Http(status) => {
                let mut text = String::from_str("API request error: ");
                text.append(status.as_str());
                text
            },
        }
    }
}

/// What to do after one answer to a poll.
#[derive(Debug, PartialEq)]
pub enum PollDecision {
    /// The attempt is over; the access token.
    Finished(String),
    /// Wait for this many seconds, then poll again.
    Sleep { seconds: u64 },
    /// The attempt is over without a token.
    Failed(PollFailure),
}

/// The mathematical content of a [`PollDecision`].
pub enum PollDecisionView {
    Finished(Seq<char>),
    Sleep { seconds: u64 },
    Failed(PollFailureView),
}

impl View for PollDecision {
    type V = PollDecisionView;

    open spec fn view(&self) -> PollDecisionView {
        match self {
            PollDecision::Finished(token) => PollDecisionView::Finished(token@),
            PollDecision::Sleep { seconds } => PollDecisionView::Sleep { seconds: *seconds },
            PollDecision::Failed(failure) => PollDecisionView::Failed(failure@),
        }
    }
}

/// One login attempt between two polls: the number of seconds that it
/// currently leaves between them.
#[derive(Debug, Clone, Copy, PartialEq, Eq)]
pub struct PollSession {
    pub interval: u64,
}

/// The interval that an attempt polls at after an answer that means
/// `outcome`: the one the answer set, or else the one it had.
pub open spec fn next_interval(interval: u64, outcome: PollingResultView) -> u64 {
    match outcome {
        PollingResultView::Wait(Some(seconds)) => seconds,
        _ => interval,
    }
}

/// What an attempt that polls at `interval` does after an answer that
/// means `outcome`.
pub open spec fn decision_after(interval: u64, outcome: PollingResultView) -> PollDecisionView {
    match outcome {
        PollingResultView::Success(token) => PollDecisionView::Finished(token),
        PollingResultView::Wait(_) => PollDecisionView::Sleep {
            seconds: next_interval(interval, outcome),
        },
        PollingResultView::Error(reason) => PollDecisionView::Failed(
            PollFailureView::Provider(reason),
        ),
    }
}

/// Whether an attempt that has run for `elapsed_nanos` nanoseconds is past
/// a deadline of `timeout_nanos` nanoseconds.
pub open spec fn past_deadline(elapsed_nanos: u128, timeout_nanos: u128) -> bool {
    elapsed_nanos > timeout_nanos
}

/// The number of nanoseconds in a second.
pub const NANOS_PER_SEC: u128 = 1_000_000_000;

/// The whole seconds in `nanos` nanoseconds, as far as they fit `u64`.
pub open spec fn whole_seconds(nanos: u128) -> u64 {
    if nanos / NANOS_PER_SEC > u64::MAX {
        u64::MAX
    } else {
        (nanos / NANOS_PER_SEC) as u64
    }
}

impl PollSession {
    /// The attempt that a device code opens: it polls at the interval that
    /// the provider asked for.
    pub fn start(device_code: &DeviceCodeResponse) -> (r: PollSession)
        ensures
            r.interval == device_code.interval,
    {
        PollSession { interval: device_code.interval }
    }

    /// Checks the caller's deadline before a poll is sent: the failure to
    /// end with once the attempt has run for longer than the deadline
    /// allows, nothing while it has not. The failure carries the length of
    /// the deadline in whole seconds.
    pub fn check_deadline(elapsed_nanos: u128, timeout_nanos: u128) -> (r: Option<PollFailure>)
        ensures
            r.is_some() == past_deadline(elapsed_nanos, timeout_nanos),
            r matches Some(failure) ==> failure@ == (PollFailureView::TimedOut {
                seconds: whole_seconds(timeout_nanos),
            }),
    {
        if elapsed_nanos > timeout_nanos {
            let whole = timeout_nanos / NANOS_PER_SEC;
            let seconds: u64 = if whole > u64::MAX as u128 {
                u64::MAX
            } else {
                whole as u64
            };
            Some(PollFailure::TimedOut { seconds })
        } else {
            None
        }
    }

    /// Takes one answer to a poll: adopts the interval that it sets, if it
    /// sets one, and says what to do next.
    pub fn on_response(&mut self, response: &AccessTokenResponse) -> (r: PollDecision)
        ensures
            ({
                let outcome = polling_outcome(
                    response.access_token.deep_view(),
                    response.error.deep_view(),
                    response.interval,
                );
                &&& final(self).interval == next_interval(old(self).interval, outcome)
                &&& r@ == decision_after(old(self).interval, outcome)
            }),
    {
        match handle_polling_response(response) {
            PollingResult::Success(token) => PollDecision::Finished(token),
            PollingResult::Wait(Some(new_interval)) => {
                self.interval = new_interval;
                PollDecision::Sleep { seconds: new_interval }
            },
            PollingResult::Wait(None) => PollDecision::Sleep { seconds: self.interval },
            PollingResult::Error(reason) => PollDecision::Failed(PollFailure::Provider(reason)),
        }
    }

    /// Takes a poll that was answered with a status other than success:
    /// the attempt ends with that status.
    pub fn on_http_failure(status: &str) -> (r: PollDecision)
        ensures
            r@ == PollDecisionView::Failed(PollFailureView::Http(status@)),
    {
        PollDecision::Failed(PollFailure::Http(String::from_str(status)))
    }
}

} // verus!
