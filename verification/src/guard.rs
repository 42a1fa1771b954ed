//! The duplicate-submission guard.
//!
//! A pull request for the same package version may already exist. The guard
//! words a status line about it and decides what happens next: in a
//! continuous-integration run the answer is "do not proceed" and nobody is
//! asked; everywhere else the user is asked and the answer stands.
//!
//! The guard itself neither prints nor prompts. [`prompt_existing_pull_request`]
//! returns a [`Notice`] with the text to show and the [`GuardStep`] to take, and
//! [`conclude`] turns what the prompt gave back into the guard's result.

use crate::error::{Error, ErrorView};
use vstd::prelude::*;
use vstd::string::StringExecFns;

verus! {

/// Lifecycle state of a pull request.
#[derive(Clone, Copy, Debug, PartialEq, Eq, Structural)]
pub enum PullRequestState {
    Open,
    Closed,
    Merged,
    /// Any state that is none of the above, such as one added upstream later.
    Other,
}

/// A pull request that was found for the package version at hand.
///
/// The creation timestamp is held as the two texts under which it is shown:
/// its calendar date and its time of day.
#[derive(Clone, Debug, PartialEq, Eq)]
pub struct PullRequest {
    pub state: PullRequestState,
    pub created_date: String,
    pub created_time: String,
    pub url: String,
}

/// Mathematical value of a [`PullRequest`].
pub struct PullRequestView {
    pub state: PullRequestState,
    pub created_date: Seq<char>,
    pub created_time: Seq<char>,
    pub url: Seq<char>,
}

impl View for PullRequest {
    type V = PullRequestView;

    open spec fn view(&self) -> PullRequestView {
        PullRequestView {
            state: self.state,
            created_date: self.created_date@,
            created_time: self.created_time@,
            url: self.url@,
        }
    }
}

/// What the caller does once the notice has been shown.
#[derive(Clone, Copy, Debug, PartialEq, Eq, Structural)]
pub enum GuardStep {
    /// The guard's answer is fixed; no prompt may be shown.
    Decided(bool),
    /// The user is asked [`question`], and [`conclude`] gets the reply.
    Confirm,
}

/// The text to show about an existing pull request, and the step that follows.
#[derive(Clone, Debug, PartialEq, Eq)]
pub struct Notice {
    /// The status line, shown as plain text.
    pub status_line: String,
    /// The pull request's URL, shown on a line of its own and set off from the
    /// text around it.
    pub url: String,
    pub step: GuardStep,
}

/// How a state is worded in the status line: merged, open, and closed for
/// everything else.
pub open spec fn state_phrase(state: PullRequestState) -> Seq<char> {
    match state {
        PullRequestState::Merged => "a merged"@,
        PullRequestState::Open => "an open"@,
        _ => "a closed"@,
    }
}

/// The status line for a pull request on `identifier` in version `version`.
pub open spec fn status_line(
    identifier: Seq<char>,
    version: Seq<char>,
    pull_request: PullRequestView,
) -> Seq<char> {
    "There is already "@ + state_phrase(pull_request.state) + " pull request for "@ + identifier
        + " "@ + version + " that was created on "@ + pull_request.created_date + " at "@
        + pull_request.created_time
}

/// What a text means as a boolean literal: `true` and `false` are the only
/// literals.
pub open spec fn boolean_literal(text: Seq<char>) -> Option<bool> {
    if text == "true"@ {
        Some(true)
    } else if text == "false"@ {
        Some(false)
    } else {
        None
    }
}

/// Whether the value of the `CI` signal marks a continuous-integration run.
/// An absent value and one that is no boolean literal do not.
pub open spec fn is_ci(signal: Option<Seq<char>>) -> bool {
    signal matches Some(text) && boolean_literal(text) == Some(true)
}

/// The step that follows the notice, given the value of the `CI` signal.
pub open spec fn guard_step(signal: Option<Seq<char>>) -> GuardStep {
    if is_ci(signal) {
        GuardStep::Decided(false)
    } else {
        GuardStep::Confirm
    }
}

/// The guard's result for a reply of the prompt.
pub open spec fn reply_outcome(reply: Result<bool, Seq<char>>) -> Result<bool, ErrorView> {
    match reply {
        Ok(answer) => Ok(answer),
        Err(text) => Err(ErrorView::Interaction(text)),
    }
}

/// The guard's result as a whole: fixed by the step where it decides, and by
/// the prompt's reply where it asks.
pub open spec fn guard_outcome(
    signal: Option<Seq<char>>,
    reply: Result<bool, Seq<char>>,
) -> Result<bool, ErrorView> {
    match guard_step(signal) {
        GuardStep::Decided(answer) => Ok(answer),
        GuardStep::Confirm => reply_outcome(reply),
    }
}

/// A prompt's reply, with its text as a sequence of characters.
pub open spec fn reply_view(reply: Result<bool, String>) -> Result<bool, Seq<char>> {
    match reply {
        Ok(answer) => Ok(answer),
        Err(text) => Err(text@),
    }
}

/// A result of the guard, with its error as a mathematical value.
pub open spec fn outcome_view(outcome: Result<bool, Error>) -> Result<bool, ErrorView> {
    match outcome {
        Ok(answer) => Ok(answer),
        Err(error) => Err(error@),
    }
}

/// The signal's value as a sequence of characters.
pub open spec fn signal_text(signal: Option<&str>) -> Option<Seq<char>> {
    match signal {
        Some(text) => Some(text@),
        None => None,
    }
}

/// Parses a boolean literal with `str::parse::<bool>` of the standard library,
/// which accepts exactly the texts `true` and `false` and rejects every other
/// input. That is all this contract claims.
#[verifier::external_body]
fn parse_boolean(text: &str) -> (parsed: Option<bool>)
    ensures
        parsed == boolean_literal(text@),
{
    match text.parse::<bool>() {
        Ok(value) => Some(value),
        Err(_) => None,
    }
}

/// Tells whether the `CI` signal marks a continuous-integration run.
///
/// `signal` is the value of the environment variable `CI`, or `None` where it
/// is not set.
pub fn ci_detected(signal: Option<&str>) -> (detected: bool)
    ensures
        detected == is_ci(signal_text(signal)),
        detected <==> (signal matches Some(text) && text@ == "true"@),
{
    match signal {
        Some(text) => match parse_boolean(text) {
            Some(value) => value,
            None => false,
        },
        None => false,
    }
}

/// Words the state of a pull request for the status line.
pub fn describe_state(state: PullRequestState) -> (phrase: &'static str)
    ensures
        phrase@ == state_phrase(state),
        state != PullRequestState::Merged && state != PullRequestState::Open ==> phrase@
            == "a closed"@,
{
    match state {
        PullRequestState::Merged => "a merged",
        PullRequestState::Open => "an open",
        _ => "a closed",
    }
}

/// The question that the confirmation prompt asks.
pub fn question() -> (text: &'static str)
    ensures
        text@ == "Would you like to proceed?"@,
{
    "Would you like to proceed?"
}

/// Prepares the notice about a pull request that already exists for
/// `identifier` in version `version`.
///
/// The status line names the state, the package and the creation date and
/// time. The step is `Decided(false)` where `ci_signal` marks a
/// continuous-integration run, so that such a run never waits for input, and
/// `Confirm` otherwise.
pub fn prompt_existing_pull_request(
    identifier: &str,
    version: &str,
    pull_request: &PullRequest,
    ci_signal: Option<&str>,
) -> (notice: Notice)
    ensures
        notice.status_line@ == status_line(identifier@, version@, pull_request@),
        notice.url@ == pull_request.url@,
        notice.step == guard_step(signal_text(ci_signal)),
{
    let mut line = "There is already ".to_owned();
    line.append(describe_state(pull_request.state));
    line.append(" pull request for ");
    line.append(identifier);
    line.append(" ");
    line.append(version);
    line.append(" that was created on ");
    line.append(pull_request.created_date.as_str());
    line.append(" at ");
    line.append(pull_request.created_time.as_str());
    let step = if ci_detected(ci_signal) {
        GuardStep::Decided(false)
    } else {
        GuardStep::Confirm
    };
    Notice { status_line: line, url: pull_request.url.clone(), step }
}

/// Turns the reply of the confirmation prompt into the guard's result.
///
/// The user's answer is returned as it is. A prompt that failed, with the
/// text `Err` carries, is an [`Error::Interaction`] with that text.
pub fn conclude(reply: Result<bool, String>) -> (outcome: Result<bool, Error>)
    ensures
        outcome_view(outcome) == reply_outcome(reply_view(reply)),
{
    match reply {
        Ok(answer) => Ok(answer),
        Err(text) => Err(Error::Interaction(text)),
    }
}

/// Every state other than merged and open reads "a closed pull request" in
/// the status line, whatever the package and the timestamp.
pub proof fn lemma_residual_states_read_closed(
    identifier: Seq<char>,
    version: Seq<char>,
    pull_request: PullRequestView,
)
    requires
        pull_request.state != PullRequestState::Merged,
        pull_request.state != PullRequestState::Open,
    ensures
        state_phrase(pull_request.state) == "a closed"@,
        status_line(identifier, version, pull_request)
            == "There is already a closed pull request for "@ + identifier + " "@ + version
            + " that was created on "@ + pull_request.created_date + " at "@
            + pull_request.created_time,
{
    reveal_strlit("There is already ");
    reveal_strlit("a closed");
    reveal_strlit(" pull request for ");
    reveal_strlit("There is already a closed pull request for ");
}

/// With the `CI` signal set to `true` the guard decides against proceeding
/// and asks nobody: the step is `Decided(false)`, and the result is `false`
/// whatever a prompt would have replied.
pub proof fn lemma_ci_run_declines_unasked(reply: Result<bool, Seq<char>>)
    ensures
        is_ci(Some("true"@)),
        guard_step(Some("true"@)) == GuardStep::Decided(false),
        guard_outcome(Some("true"@), reply) == Ok::<bool, ErrorView>(false),
{
}

/// With the `CI` signal unset the guard asks, and its result is the user's
/// answer.
pub proof fn lemma_unset_signal_returns_answer(answer: bool)
    ensures
        guard_step(None) == GuardStep::Confirm,
        guard_outcome(None, Ok(answer)) == Ok::<bool, ErrorView>(answer),
{
}

} // verus!
