//! The supervision of one application by the node agent, as a state
//! machine: the agent performs the actions that a step hands out and feeds
//! back what happened as the next event.
//!
//! A supervision starts with a first spawn attempt. A spawn that fails is
//! reported as `CRASHED` at once and is not retried. A spawn that succeeds
//! is reported as `RUNNING`, together with the process id, before any
//! output is read. A clean exit is reported as `STOPPED`. Any other exit
//! leads, after a restart notice and a fixed delay, to the next attempt,
//! until the attempts are used up; then the application is reported as
//! `CRASHED`.

use crate::model::{AppStatus, NewAppLog, NewAppLogView, PatchApplication, PatchView};
use crate::port_detect::{detect_port, lowered_words_of, port_in_line};
use crate::text::{decimal_text, lowercase_of, push_decimal, push_text};
use vstd::prelude::*;

verus! {

/// How many times an application is spawned at most.
pub const MAX_RETRIES: u32 = 3;

/// The delay before an application is spawned again, in seconds.
pub const RESTART_DELAY_SECONDS: u64 = 2;

/// Where a supervision stands.
#[derive(Clone, Copy, Debug, PartialEq, Eq, Structural)]
pub enum Phase {
    /// A spawn was asked for and its outcome is awaited.
    Spawning,
    /// The process runs.
    Running,
    /// The process has failed and the delay before the next attempt runs.
    BackingOff,
    /// The supervision is over.
    Finished,
}

/// The state of the supervision of one application. `attempt` counts the
/// spawns asked for so far.
#[derive(Clone, Copy, Debug, PartialEq, Eq, Structural)]
pub struct Supervision {
    pub app_id: u128,
    pub attempt: u32,
    pub phase: Phase,
}

/// What the agent has observed.
#[derive(Clone, Copy, Debug, PartialEq, Eq, Structural)]
pub enum Event {
    /// The process could not be started.
    SpawnFailed,
    /// The process was started; `pid` is its process id, if the system
    /// gave one.
    Spawned { pid: Option<u32> },
    /// The process has ended; `clean` says whether it ended with code 0.
    Exited { clean: bool },
    /// The delay before the next attempt has passed.
    BackoffElapsed,
}

/// What the agent is to do.
#[derive(Debug)]
pub enum Action {
    /// Start the process of the application.
    Spawn,
    /// Tie the process and its descendants to the agent's own life, so that
    /// they end when the agent ends.
    BindLifetime { pid: u32 },
    /// Send the patch to the registry.
    Report(PatchApplication),
    /// Start reading the two output streams of the process.
    ReadOutput,
    /// Wait for the process to end.
    AwaitExit,
    /// Send the log line to the registry; a failure to send is ignored.
    Log(NewAppLog),
    /// Wait for the given number of seconds.
    Sleep { seconds: u64 },
}

/// View of an [`Action`].
pub enum ActionView {
    Spawn,
    BindLifetime { pid: u32 },
    Report(PatchView),
    ReadOutput,
    AwaitExit,
    Log(NewAppLogView),
    Sleep { seconds: u64 },
}

impl View for Action {
    type V = ActionView;

    open spec fn view(&self) -> ActionView {
        match self {
            Action::Spawn => ActionView::Spawn,
            Action::BindLifetime { pid } => ActionView::BindLifetime { pid: *pid },
            Action::Report(patch) => ActionView::Report(patch@),
            Action::ReadOutput => ActionView::ReadOutput,
            Action::AwaitExit => ActionView::AwaitExit,
            Action::Log(log) => ActionView::Log(log@),
            Action::Sleep { seconds } => ActionView::Sleep { seconds: *seconds },
        }
    }
}

/// The views of a list of actions.
pub open spec fn action_views(actions: Seq<Action>) -> Seq<ActionView> {
    actions.map_values(|a: Action| a@)
}

/// The patch that reports a status and nothing else.
pub open spec fn status_report(status: AppStatus) -> PatchView {
    PatchView { status: Some(status), ..PatchView::nothing() }
}

/// The patch that reports a started process: its id and `RUNNING`.
pub open spec fn running_report(pid: u32) -> PatchView {
    PatchView { pid: Some(pid as i32), status: Some(AppStatus::RUNNING), ..PatchView::nothing() }
}

/// The patch that reports the port a process was seen to listen on.
pub open spec fn port_report(port: i32) -> PatchView {
    PatchView { port: Some(port), ..PatchView::nothing() }
}

/// The line that announces spawn number `attempt` after a failure.
pub open spec fn restart_notice(attempt: nat) -> Seq<char> {
    "[PaaS] App crashed. Restarting... (attempt "@ + decimal_text(attempt) + "/"@ + decimal_text(
        MAX_RETRIES as nat,
    ) + ")"@
}

/// The line that announces that no further spawn will be tried.
pub open spec fn giving_up_notice() -> Seq<char> {
    "[PaaS] App crashed after "@ + decimal_text(MAX_RETRIES as nat) + " attempts. Giving up."@
}

/// A line that the agent itself writes into the log of `app_id`.
pub open spec fn agent_log(app_id: u128, message: Seq<char>) -> NewAppLogView {
    NewAppLogView { app_id, stream: "stderr"@, message }
}

/// The state in which a supervision starts: the first spawn is asked for.
pub open spec fn initial(app_id: u128) -> Supervision {
    Supervision { app_id, attempt: 1, phase: Phase::Spawning }
}

/// The step of the machine: the state after `event` and the actions to
/// perform, in order. An event that the phase does not expect changes
/// nothing and asks for nothing.
pub open spec fn next(state: Supervision, event: Event) -> (Supervision, Seq<ActionView>) {
    match (state.phase, event) {
        (Phase::Spawning, Event::SpawnFailed) => (
            Supervision { phase: Phase::Finished, ..state },
            seq![ActionView::Report(status_report(AppStatus::CRASHED))],
        ),
        (Phase::Spawning, Event::Spawned { pid }) => {
            let pid = if let Some(p) = pid { p } else { 0 };
            (
                Supervision { phase: Phase::Running, ..state },
                seq![
                    ActionView::BindLifetime { pid },
                    ActionView::Report(running_report(pid)),
                    ActionView::ReadOutput,
                    ActionView::AwaitExit,
                ],
            )
        },
        (Phase::Running, Event::Exited { clean }) => {
            if clean {
                (
                    Supervision { phase: Phase::Finished, ..state },
                    seq![ActionView::Report(status_report(AppStatus::STOPPED))],
                )
            } else if state.attempt < MAX_RETRIES {
                (
                    Supervision { phase: Phase::BackingOff, ..state },
                    seq![
                        ActionView::Log(
                            agent_log(state.app_id, restart_notice((state.attempt + 1) as nat)),
                        ),
                        ActionView::Sleep { seconds: RESTART_DELAY_SECONDS },
                    ],
                )
            } else {
                (
                    Supervision { phase: Phase::Finished, ..state },
                    seq![
                        ActionView::Log(agent_log(state.app_id, giving_up_notice())),
                        ActionView::Report(status_report(AppStatus::CRASHED)),
                    ],
                )
            }
        },
        (Phase::BackingOff, Event::BackoffElapsed) => {
            if state.attempt < MAX_RETRIES {
                (
                    Supervision {
                        phase: Phase::Spawning,
                        attempt: (state.attempt + 1) as u32,
                        ..state
                    },
                    seq![ActionView::Spawn],
                )
            } else {
                (state, Seq::empty())
            }
        },
        _ => (state, Seq::empty()),
    }
}

/// A log line that the agent itself writes.
pub fn agent_line(app_id: u128, message: String) -> (log: NewAppLog)
    ensures
        log@ == agent_log(app_id, message@),
{
    let mut stream = String::new();
    push_text(&mut stream, "stderr");
    assert(stream@ =~= "stderr"@);
    NewAppLog { app_id, stream, message }
}

/// The line that announces spawn number `attempt` after a failure.
pub fn restart_line(attempt: u32) -> (line: String)
    ensures
        line@ == restart_notice(attempt as nat),
{
    let mut line = String::new();
    push_text(&mut line, "[PaaS] App crashed. Restarting... (attempt ");
    push_decimal(&mut line, attempt as u64);
    push_text(&mut line, "/");
    push_decimal(&mut line, MAX_RETRIES as u64);
    push_text(&mut line, ")");
    assert(line@ =~= restart_notice(attempt as nat));
    line
}

/// The line that announces that no further spawn will be tried.
pub fn giving_up_line() -> (line: String)
    ensures
        line@ == giving_up_notice(),
{
    let mut line = String::new();
    push_text(&mut line, "[PaaS] App crashed after ");
    push_decimal(&mut line, MAX_RETRIES as u64);
    push_text(&mut line, " attempts. Giving up.");
    assert(line@ =~= giving_up_notice());
    line
}

impl Supervision {
    /// Starts the supervision of the application `app_id`: the state in
    /// which the first spawn is awaited, and the request to spawn.
    pub fn start(app_id: u128) -> (started: (Supervision, Vec<Action>))
        ensures
            started.0 == initial(app_id),
            action_views(started.1@) == seq![ActionView::Spawn],
    {
        let mut actions: Vec<Action> = Vec::new();
        actions.push(Action::Spawn);
        assert(action_views(actions@) =~= seq![ActionView::Spawn]);
        (Supervision { app_id, attempt: 1, phase: Phase::Spawning }, actions)
    }

    /// Whether the supervision is over.
    pub fn is_finished(&self) -> (over: bool)
        ensures
            over == (self.phase == Phase::Finished),
    {
        matches!(self.phase, Phase::Finished)
    }

    /// Takes one step: the state after `event` and the actions to perform,
    /// in order.
    pub fn step(self, event: Event) -> (stepped: (Supervision, Vec<Action>))
        ensures
            (stepped.0, action_views(stepped.1@)) == next(self, event),
    {
        let mut actions: Vec<Action> = Vec::new();
        let mut state = self;
        match (self.phase, event) {
            (Phase::Spawning, Event::SpawnFailed) => {
                state.phase = Phase::Finished;
                actions.push(Action::Report(PatchApplication::status_only(AppStatus::CRASHED)));
            },
            (Phase::Spawning, Event::Spawned { pid }) => {
                let pid: u32 = match pid {
                    Some(p) => p,
                    None => 0,
                };
                state.phase = Phase::Running;
                let mut report = PatchApplication::status_only(AppStatus::RUNNING);
                report.pid = Some(#[verifier::truncate] (pid as i32));
                actions.push(Action::BindLifetime { pid });
                actions.push(Action::Report(report));
                actions.push(Action::ReadOutput);
                actions.push(Action::AwaitExit);
            },
            (Phase::Running, Event::Exited { clean }) => {
                if clean {
                    state.phase = Phase::Finished;
                    actions.push(Action::Report(PatchApplication::status_only(AppStatus::STOPPED)));
                } else if self.attempt < MAX_RETRIES {
                    state.phase = Phase::BackingOff;
                    actions.push(Action::Log(agent_line(self.app_id, restart_line(self.attempt + 1))));
                    actions.push(Action::Sleep { seconds: RESTART_DELAY_SECONDS });
                } else {
                    state.phase = Phase::Finished;
                    actions.push(Action::Log(agent_line(self.app_id, giving_up_line())));
                    actions.push(Action::Report(PatchApplication::status_only(AppStatus::CRASHED)));
                }
            },
            (Phase::BackingOff, Event::BackoffElapsed) => {
                if self.attempt < MAX_RETRIES {
                    state.phase = Phase::Spawning;
                    state.attempt = self.attempt + 1;
                    actions.push(Action::Spawn);
                }
            },
            _ => {},
        }
        assert(action_views(actions@) =~= next(self, event).1);
        (state, actions)
    }
}

/// One of the two output streams of a process.
#[derive(Clone, Copy, Debug, PartialEq, Eq, Structural)]
pub enum Stream {
    Stdout,
    Stderr,
}

impl Stream {
    /// The name under which the lines of the stream are logged.
    pub open spec fn label(self) -> Seq<char> {
        match self {
            Stream::Stdout => "stdout"@,
            Stream::Stderr => "stderr"@,
        }
    }

    /// The name under which the lines of the stream are logged.
    pub fn as_str(&self) -> (name: &'static str)
        ensures
            name@ == self.label(),
    {
        match self {
            Stream::Stdout => "stdout",
            Stream::Stderr => "stderr",
        }
    }
}

/// The reader of one output stream of one process. It looks for the
/// announcement of a port in each line until it has found one, and never
/// again after that.
///
/// A process has two readers, one for each stream, and each keeps its own
/// record of what it has seen: a process that announces a port on both
/// streams has it reported once by each reader, twice in all. Within one
/// stream a port is reported at most once.
#[derive(Clone, Copy, Debug, PartialEq, Eq, Structural)]
pub struct OutputReader {
    pub app_id: u128,
    pub stream: Stream,
    pub port_seen: bool,
}

/// What a reader does with a line in which the port `announced` was found
/// (none if none was found or none was looked for): the state of the reader
/// afterwards, and the actions, in order. A port counts only while the
/// reader has seen none; the line itself is always logged.
pub open spec fn after_line(reader: OutputReader, line: Seq<char>, announced: Option<i32>) -> (
    OutputReader,
    Seq<ActionView>,
) {
    let log = ActionView::Log(
        NewAppLogView { app_id: reader.app_id, stream: reader.stream.label(), message: line },
    );
    match announced {
        Some(port) if !reader.port_seen => (
            OutputReader { port_seen: true, ..reader },
            seq![ActionView::Report(port_report(port)), log],
        ),
        _ => (reader, seq![log]),
    }
}

impl OutputReader {
    /// The reader of `stream` for a newly started process of `app_id`.
    pub fn new(app_id: u128, stream: Stream) -> (reader: OutputReader)
        ensures
            reader == (OutputReader { app_id, stream, port_seen: false }),
    {
        OutputReader { app_id, stream, port_seen: false }
    }

    /// Handles a line in which the port `announced` was found, if any.
    pub fn record_line(&mut self, line: &str, announced: Option<i32>) -> (actions: Vec<Action>)
        ensures
            (*final(self), action_views(actions@)) == after_line(*old(self), line@, announced),
    {
        let mut actions: Vec<Action> = Vec::new();
        if let Some(port) = announced {
            if !self.port_seen {
                self.port_seen = true;
                let mut report = PatchApplication::empty();
                report.port = Some(port);
                actions.push(Action::Report(report));
            }
        }
        let mut stream = String::new();
        push_text(&mut stream, self.stream.as_str());
        let mut message = String::new();
        push_text(&mut message, line);
        assert(stream@ =~= self.stream.label());
        assert(message@ =~= line@);
        actions.push(Action::Log(NewAppLog { app_id: self.app_id, stream, message }));
        assert(action_views(actions@) =~= after_line(*old(self), line@, announced).1);
        actions
    }

    /// Handles a line of output: looks for a port in it unless one was seen
    /// before, and logs the line.
    pub fn on_line(&mut self, line: &str) -> (actions: Vec<Action>)
        ensures
            (*final(self), action_views(actions@)) == after_line(
                *old(self),
                line@,
                if old(self).port_seen {
                    None
                } else {
                    port_in_line(line@, lowercase_of(line@), lowered_words_of(line@))
                },
            ),
    {
        let announced = if self.port_seen {
            None
        } else {
            detect_port(line)
        };
        self.record_line(line, announced)
    }
}

/// The state and the actions, in order, after a run of events from
/// `state`.
pub open spec fn run(state: Supervision, events: Seq<Event>) -> (Supervision, Seq<ActionView>)
    decreases events.len(),
{
    if events.len() == 0 {
        (state, Seq::empty())
    } else {
        let before = run(state, events.drop_last());
        let last = next(before.0, events.last());
        (last.0, before.1 + last.1)
    }
}

/// How many of the actions ask for a spawn.
pub open spec fn spawns_in(actions: Seq<ActionView>) -> nat
    decreases actions.len(),
{
    if actions.len() == 0 {
        0
    } else {
        spawns_in(actions.drop_last()) + if actions.last() is Spawn { 1nat } else { 0nat }
    }
}

/// Whether the action sends a restart notice for the application.
pub open spec fn is_restart_notice(action: ActionView, app_id: u128) -> bool {
    exists|attempt: nat| action == ActionView::Log(agent_log(app_id, restart_notice(attempt)))
}

/// How many of the actions send a restart notice for the application.
pub open spec fn restart_notices_in(actions: Seq<ActionView>, app_id: u128) -> nat
    decreases actions.len(),
{
    if actions.len() == 0 {
        0
    } else {
        restart_notices_in(actions.drop_last(), app_id) + if is_restart_notice(
            actions.last(),
            app_id,
        ) {
            1nat
        } else {
            0nat
        }
    }
}

/// How many of the actions report the given status.
pub open spec fn reports_in(actions: Seq<ActionView>, status: AppStatus) -> nat
    decreases actions.len(),
{
    if actions.len() == 0 {
        0
    } else {
        reports_in(actions.drop_last(), status) + if actions.last() == ActionView::Report(
            status_report(status),
        ) {
            1nat
        } else {
            0nat
        }
    }
}

/// A patch carries a process id exactly when it sets the status `RUNNING`.
pub open spec fn pid_iff_running(patch: PatchView) -> bool {
    patch.pid is Some <==> patch.status == Some(AppStatus::RUNNING)
}

/// Every report among the actions carries a process id exactly when it
/// sets the status `RUNNING`.
pub open spec fn reports_pid_iff_running(actions: Seq<ActionView>) -> bool {
    forall|i: int|
        0 <= i < actions.len() ==> (#[trigger] actions[i] matches ActionView::Report(patch)
            ==> pid_iff_running(patch))
}

} // verus!
