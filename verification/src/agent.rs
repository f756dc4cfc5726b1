//! The requests that the node agent serves: run an application, end a
//! process, tell whether a process is alive.
//!
//! The agent ends and probes processes with the tools of its host. This
//! module says which tool to call with which arguments and what the
//! outcome of the call means; calling it is left to the caller.

use crate::launch::Platform;
use crate::model::{AppStatus, Application};
use crate::supervisor::{action_views, initial, Action, ActionView, Supervision};
use crate::text::{contains, contains_chars, chars_of, decimal_text, push_decimal, push_text};
use crate::wire::{Body, BodyView, Reply, ReplyView, BAD_REQUEST, INTERNAL_SERVER_ERROR, OK};
use vstd::prelude::*;

verus! {

/// A call of a tool of the host.
#[derive(Debug)]
pub struct ToolCall {
    pub program: String,
    pub args: Vec<String>,
}

/// View of a [`ToolCall`].
pub struct ToolCallView {
    pub program: Seq<char>,
    pub args: Seq<Seq<char>>,
}

impl View for ToolCall {
    type V = ToolCallView;

    open spec fn view(&self) -> ToolCallView {
        ToolCallView { program: self.program@, args: self.args@.map_values(|a: String| a@) }
    }
}

/// The call that ends the process `pid` by force: on Windows the process
/// with all its descendants, elsewhere the process.
pub open spec fn kill_call(pid: u32, platform: Platform) -> ToolCallView {
    match platform {
        Platform::Windows => ToolCallView {
            program: "taskkill"@,
            args: seq!["/PID"@, decimal_text(pid as nat), "/F"@, "/T"@],
        },
        Platform::Unix => ToolCallView {
            program: "kill"@,
            args: seq!["-9"@, decimal_text(pid as nat)],
        },
    }
}

/// The call that probes the process `pid`.
pub open spec fn probe_call(pid: u32, platform: Platform) -> ToolCallView {
    match platform {
        Platform::Windows => ToolCallView {
            program: "tasklist"@,
            args: seq!["/FI"@, "PID eq "@ + decimal_text(pid as nat), "/NH"@],
        },
        Platform::Unix => ToolCallView {
            program: "kill"@,
            args: seq!["-0"@, decimal_text(pid as nat)],
        },
    }
}

/// The text as a string of its own.
fn text_of(first: &str) -> (text: String)
    ensures
        text@ == first@,
{
    let mut text = String::new();
    push_text(&mut text, first);
    assert(text@ =~= first@);
    text
}

/// The decimal writing of `n`.
fn number_text(n: u32) -> (text: String)
    ensures
        text@ == decimal_text(n as nat),
{
    let mut text = String::new();
    push_decimal(&mut text, n as u64);
    assert(text@ =~= decimal_text(n as nat));
    text
}

/// The call that ends the process `pid` by force.
pub fn kill_command(pid: u32, platform: Platform) -> (call: ToolCall)
    ensures
        call@ == kill_call(pid, platform),
{
    let mut args: Vec<String> = Vec::new();
    match platform {
        Platform::Windows => {
            args.push(text_of("/PID"));
            args.push(number_text(pid));
            args.push(text_of("/F"));
            args.push(text_of("/T"));
            let call = ToolCall { program: text_of("taskkill"), args };
            assert(call@.args =~= kill_call(pid, platform).args);
            call
        },
        Platform::Unix => {
            args.push(text_of("-9"));
            args.push(number_text(pid));
            let call = ToolCall { program: text_of("kill"), args };
            assert(call@.args =~= kill_call(pid, platform).args);
            call
        },
    }
}

/// The call that probes the process `pid`.
pub fn probe_command(pid: u32, platform: Platform) -> (call: ToolCall)
    ensures
        call@ == probe_call(pid, platform),
{
    let mut args: Vec<String> = Vec::new();
    match platform {
        Platform::Windows => {
            let mut filter = text_of("PID eq ");
            push_decimal(&mut filter, pid as u64);
            args.push(text_of("/FI"));
            args.push(filter);
            args.push(text_of("/NH"));
            let call = ToolCall { program: text_of("tasklist"), args };
            assert(call@.args =~= probe_call(pid, platform).args);
            call
        },
        Platform::Unix => {
            args.push(text_of("-0"));
            args.push(number_text(pid));
            let call = ToolCall { program: text_of("kill"), args };
            assert(call@.args =~= probe_call(pid, platform).args);
            call
        },
    }
}

/// What the agent decides on a request to end a process.
#[derive(Debug)]
pub enum StopDecision {
    /// The request is turned down with the reply.
    Rejected(Reply),
    /// The tool is to be called.
    Kill(ToolCall),
}

/// View of a [`StopDecision`].
pub enum StopDecisionView {
    Rejected(ReplyView),
    Kill(ToolCallView),
}

impl View for StopDecision {
    type V = StopDecisionView;

    open spec fn view(&self) -> StopDecisionView {
        match self {
            StopDecision::Rejected(reply) => StopDecisionView::Rejected(reply@),
            StopDecision::Kill(call) => StopDecisionView::Kill(call@),
        }
    }
}

/// The decision on a request to end a process. `pid` is the number that
/// the request names as the process id, cut to 32 bits; a request that
/// names none is a bad request.
pub open spec fn stop_decision(pid: Option<i64>, platform: Platform) -> StopDecisionView {
    match pid {
        None => StopDecisionView::Rejected(ReplyView::text(BAD_REQUEST, "Missing pid"@)),
        Some(p) => StopDecisionView::Kill(kill_call(p as u32, platform)),
    }
}

/// Decides on a request to end a process.
pub fn stop_program(pid: Option<i64>, platform: Platform) -> (decision: StopDecision)
    ensures
        decision@ == stop_decision(pid, platform),
{
    match pid {
        None => StopDecision::Rejected(Reply::text(BAD_REQUEST, "Missing pid")),
        Some(p) => StopDecision::Kill(kill_command(#[verifier::truncate] (p as u32), platform)),
    }
}

/// The reply to a request to end a process, once the tool was called:
/// success if the tool could be started, whatever it found, so that
/// ending a process that is gone already is no error; an internal error if
/// the tool could not be started.
pub fn stop_reply(tool_started: bool) -> (reply: Reply)
    ensures
        reply@ == ReplyView::empty(
            if tool_started {
                OK
            } else {
                INTERNAL_SERVER_ERROR
            },
        ),
{
    if tool_started {
        Reply::empty(OK)
    } else {
        Reply::empty(INTERNAL_SERVER_ERROR)
    }
}

/// What a probe has brought: whether the tool ran at all, whether it
/// reported success, and what it wrote to its output.
#[derive(Debug)]
pub struct ProbeOutcome {
    pub tool_started: bool,
    pub succeeded: bool,
    pub output: String,
}

/// Whether the probed process is alive: on Windows if the tool ran and its
/// output shows the process id; elsewhere if the tool ran and reported
/// success.
pub open spec fn alive(
    pid: u32,
    platform: Platform,
    tool_started: bool,
    succeeded: bool,
    output: Seq<char>,
) -> bool {
    tool_started && match platform {
        Platform::Windows => contains(output, decimal_text(pid as nat)),
        Platform::Unix => succeeded,
    }
}

/// Whether the probed process is alive.
pub fn is_alive(pid: u32, platform: Platform, outcome: &ProbeOutcome) -> (living: bool)
    ensures
        living == alive(pid, platform, outcome.tool_started, outcome.succeeded, outcome.output@),
{
    if !outcome.tool_started {
        return false;
    }
    match platform {
        Platform::Windows => {
            let shown = chars_of(outcome.output.as_str());
            let number = number_text(pid);
            let wanted = chars_of(number.as_str());
            contains_chars(&shown, &wanted)
        },
        Platform::Unix => outcome.succeeded,
    }
}

/// The status that a probe reports: `RUNNING` for a process that is alive
/// and `STOPPED` for any other.
pub open spec fn probed_status(living: bool) -> AppStatus {
    if living {
        AppStatus::RUNNING
    } else {
        AppStatus::STOPPED
    }
}

/// The reply to a liveness probe. The probe changes nothing.
pub fn check_status(living: bool) -> (reply: Reply)
    ensures
        reply@ == (ReplyView { code: OK, body: BodyView::ProcessStatus(probed_status(living)) }),
{
    let status = if living {
        AppStatus::RUNNING
    } else {
        AppStatus::STOPPED
    };
    Reply { code: OK, body: Body::ProcessStatus(status) }
}

/// What the agent does on a request to run an application.
#[derive(Debug)]
pub struct RunDecision {
    /// The reply, given at once.
    pub reply: Reply,
    /// The supervision to start, unless the application cannot be
    /// supervised: it has no identifier, or its command holds no word.
    pub supervision: Option<(Supervision, Vec<Action>)>,
}

/// Whether the application can be supervised: it has an identifier and its
/// command holds a word.
pub open spec fn can_run(app: crate::model::ApplicationView) -> bool {
    app.id is Some && crate::text::words(app.command).len() > 0
}

/// Decides on a request to run an application: the request is accepted at
/// once, and the supervision of the application starts with its first
/// spawn.
pub fn run_program(app: &Application) -> (decision: RunDecision)
    ensures
        decision.reply@ == ReplyView::empty(OK),
        can_run(app@) ==> (decision.supervision matches Some(started) && started.0 == initial(
            app@.id->0,
        ) && action_views(started.1@) == seq![ActionView::Spawn]),
        !can_run(app@) ==> decision.supervision is None,
{
    let command = chars_of(app.command.as_str());
    let parts = crate::text::split_words(&command);
    let supervision = match app.id {
        Some(id) if parts.len() > 0 => Some(Supervision::start(id)),
        _ => None,
    };
    proof {
        assert(crate::text::word_views(parts@).len() == parts.len());
    }
    RunDecision { reply: Reply::empty(OK), supervision }
}

} // verus!
