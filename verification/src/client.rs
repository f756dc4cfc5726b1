//! The decisions of the command-line client: what to send to the registry
//! and what to make of its answers.

use crate::ids::{id_text, parse_id, parsed_id, push_id};
use crate::init::{PaasConfig, DEFAULT_PORT};
use crate::model::{AppStatus, Application, ApplicationView, PatchApplication, PatchView};
use crate::text::{push_signed_decimal, push_text, same_text, signed_decimal_text};
use crate::wire::{CONFLICT, INTERNAL_SERVER_ERROR, NOT_FOUND};
use vstd::prelude::*;
use vstd::string::StringSliceAdditionalSpecFns;

verus! {

/// A byte that stands for itself in a percent-encoded text: an ASCII
/// letter or digit, or one of `-`, `.`, `_`, `~`.
pub open spec fn is_unreserved(byte: u8) -> bool {
    (0x30 <= byte <= 0x39) || (0x41 <= byte <= 0x5a) || (0x61 <= byte <= 0x7a) || byte == 0x2d
        || byte == 0x2e || byte == 0x5f || byte == 0x7e
}

/// The upper-case hexadecimal digit that writes `d`.
pub open spec fn upper_hex(d: int) -> char {
    if d < 10 {
        ((48 + d) as u8) as char
    } else {
        ((55 + d) as u8) as char
    }
}

/// The percent-encoded form of a sequence of bytes: an unreserved byte
/// stands for itself, every other byte becomes `%` and its two upper-case
/// hexadecimal digits.
pub open spec fn percent_encoded(bytes: Seq<u8>) -> Seq<char>
    decreases bytes.len(),
{
    if bytes.len() == 0 {
        Seq::empty()
    } else {
        let last = bytes.last();
        percent_encoded(bytes.drop_last()) + if is_unreserved(last) {
            seq![last as char]
        } else {
            seq!['%', upper_hex(last as int / 16), upper_hex(last as int % 16)]
        }
    }
}

/// `urlencoding::encode` percent-encodes every byte of the text's UTF-8
/// form except ASCII letters and digits and `-`, `_`, `.`, `~`.
#[verifier::external_body]
pub(crate) fn url_encode(text: &str) -> (encoded: String)
    ensures
        encoded@ == percent_encoded(text.spec_bytes()),
{
    urlencoding::encode(text).into_owned()
}

/// The address of an application's record at the registry.
pub open spec fn app_address(base: Seq<char>, id: u128) -> Seq<char> {
    base + "/apps/"@ + id_text(id)
}

/// The address of an application's record, followed by `tail`.
pub fn app_url(base: &str, id: u128, tail: &str) -> (url: String)
    ensures
        url@ == app_address(base@, id) + tail@,
{
    let mut url = String::new();
    push_text(&mut url, base);
    push_text(&mut url, "/apps/");
    push_id(&mut url, id);
    push_text(&mut url, tail);
    assert(url@ =~= app_address(base@, id) + tail@);
    url
}

/// The address that returns the newest `limit` log entries.
pub fn logs_url(base: &str, id: u128, limit: i64) -> (url: String)
    ensures
        url@ == app_address(base@, id) + "/logs?limit="@ + signed_decimal_text(limit as int),
{
    let mut url = app_url(base, id, "/logs?limit=");
    push_signed_decimal(&mut url, limit);
    url
}

/// The address that returns the log entries later than the time that
/// `since` writes.
pub fn logs_since_url(base: &str, id: u128, since: &str) -> (url: String)
    ensures
        url@ == app_address(base@, id) + "/logs?since="@ + percent_encoded(since.spec_bytes()),
{
    let mut url = app_url(base, id, "/logs?since=");
    let encoded = url_encode(since);
    push_text(&mut url, encoded.as_str());
    url
}

/// The mark of a log line in the client's output: `[ERR]` for the error
/// stream and `[OUT]` for any other.
pub open spec fn stream_mark(stream: Seq<char>) -> Seq<char> {
    if stream == "stderr"@ {
        "[ERR]"@
    } else {
        "[OUT]"@
    }
}

/// A log entry as the client prints it.
pub fn print_log(created_at: &str, stream: &str, message: &str) -> (line: String)
    ensures
        line@ == created_at@ + " "@ + stream_mark(stream@) + " "@ + message@,
{
    let mut line = String::new();
    push_text(&mut line, created_at);
    push_text(&mut line, " ");
    if same_text(stream, "stderr") {
        push_text(&mut line, "[ERR]");
    } else {
        push_text(&mut line, "[OUT]");
    }
    push_text(&mut line, " ");
    push_text(&mut line, message);
    assert(line@ =~= created_at@ + " "@ + stream_mark(stream@) + " "@ + message@);
    line
}

/// The time from which the client asks for the next entries when it
/// follows the logs: that of the last entry received, or the one it had
/// where none was received.
pub fn next_cursor(current: String, received: &Vec<String>) -> (cursor: String)
    ensures
        cursor@ == if received.len() > 0 {
            received@[received.len() - 1]@
        } else {
            current@
        },
{
    if received.len() > 0 {
        received[received.len() - 1].clone()
    } else {
        current
    }
}

/// How many entries the client asks for at once.
pub const LOG_PAGE: i64 = 100;

/// What the client does when asked for the logs of its project.
#[derive(Debug)]
pub enum LogsStep {
    /// The project is not deployed: there is nothing to show.
    NotDeployed,
    /// The entries are to be fetched from the address and printed; with
    /// `follow` the client then keeps asking for later entries.
    Fetch { url: String, follow: bool },
}

/// Decides what to do when asked for the logs of the project with the
/// identifier, if it has one.
pub fn show_logs(base: &str, id: Option<u128>, follow: bool) -> (step: LogsStep)
    ensures
        match step {
            LogsStep::NotDeployed => id is None,
            LogsStep::Fetch { url, follow: f } => f == follow && id is Some && url@ == app_address(
                base@,
                id->0,
            ) + "/logs?limit="@ + signed_decimal_text(LOG_PAGE as int),
        },
{
    match id {
        None => LogsStep::NotDeployed,
        Some(found) => LogsStep::Fetch { url: logs_url(base, found, LOG_PAGE), follow },
    }
}

/// What the client does when asked to deploy.
#[derive(Debug)]
pub enum DeployStep {
    /// The project is deployed already, under the identifier.
    AlreadyDeployed { id: u128 },
    /// The application is to be sent to the registry.
    Send(Application),
}

/// The application that the client asks the registry to deploy.
pub open spec fn deploy_payload(
    name: Seq<char>,
    command: Seq<char>,
    port: Option<i32>,
    dir: Seq<char>,
) -> ApplicationView {
    ApplicationView {
        id: None,
        name,
        command,
        status: AppStatus::PENDING,
        port: match port {
            Some(p) => p,
            None => DEFAULT_PORT,
        },
        working_dir: dir,
        pid: None,
        env_vars: None,
    }
}

/// Decides what to do when asked to deploy the project of `config` from
/// the directory `dir`.
pub fn deploy_project(config: &PaasConfig, dir: &str) -> (step: DeployStep)
    ensures
        match step {
            DeployStep::AlreadyDeployed { id } => config.id == Some(id),
            DeployStep::Send(app) => config.id is None && app@ == deploy_payload(
                config.name@,
                config.command@,
                config.port,
                dir@,
            ),
        },
{
    if let Some(id) = config.id {
        return DeployStep::AlreadyDeployed { id };
    }
    let mut working_dir = String::new();
    push_text(&mut working_dir, dir);
    assert(working_dir@ =~= dir@);
    DeployStep::Send(
        Application {
            id: None,
            name: config.name.clone(),
            command: config.command.clone(),
            status: AppStatus::PENDING,
            port: match config.port {
                Some(p) => p,
                None => DEFAULT_PORT,
            },
            working_dir,
            pid: None,
            env_vars: None,
        },
    )
}

/// What the registry's answer to a deployment means to the client.
#[derive(Debug)]
pub enum DeployOutcome {
    /// Deployed: the line is to be added to the configuration file.
    Deployed { id: u128, config_line: String },
    /// Deployed, but the answer names no identifier that can be read.
    UnreadableId,
    /// The port is held.
    Conflict,
    /// Any other failure, with the status code.
    Failed { code: u16 },
}

/// The line that records the identifier in the configuration file.
pub open spec fn id_line(id: u128) -> Seq<char> {
    "\nid = \""@ + id_text(id) + "\"\n"@
}

/// Reads the registry's answer to a deployment, given the identifier that
/// was read from it, if one was read.
pub fn deployed(code: u16, id: Option<u128>) -> (outcome: DeployOutcome)
    ensures
        match outcome {
            DeployOutcome::Deployed { id: found, config_line } => 200 <= code <= 299 && id == Some(
                found,
            ) && config_line@ == id_line(found),
            DeployOutcome::UnreadableId => 200 <= code <= 299 && id is None,
            DeployOutcome::Conflict => code == CONFLICT,
            DeployOutcome::Failed { code: c } => c == code && !(200 <= code <= 299) && code
                != CONFLICT,
        },
{
    if 200 <= code && code <= 299 {
        match id {
            Some(found) => {
                let mut config_line = String::new();
                push_text(&mut config_line, "\nid = \"");
                push_id(&mut config_line, found);
                push_text(&mut config_line, "\"\n");
                assert(config_line@ =~= id_line(found));
                DeployOutcome::Deployed { id: found, config_line }
            },
            None => DeployOutcome::UnreadableId,
        }
    } else if code == CONFLICT {
        DeployOutcome::Conflict
    } else {
        DeployOutcome::Failed { code }
    }
}

/// Reads the registry's answer to a deployment: `id_text` is what the
/// answer names as the identifier.
pub fn deploy_outcome(code: u16, id_text: &str) -> (outcome: DeployOutcome)
    ensures
        match outcome {
            DeployOutcome::Deployed { id, config_line } => 200 <= code <= 299 && parsed_id(id_text@)
                == Some(id) && config_line@ == id_line(id),
            DeployOutcome::UnreadableId => 200 <= code <= 299 && parsed_id(id_text@) is None,
            DeployOutcome::Conflict => code == CONFLICT,
            DeployOutcome::Failed { code: c } => c == code && !(200 <= code <= 299) && code
                != CONFLICT,
        },
{
    deployed(code, parse_id(id_text))
}

/// The port that the client asks a redeployment for: the one of the
/// configuration, cut to 32 bits, or the default port.
pub fn redeploy_project(port: Option<i64>) -> (asked: i32)
    ensures
        asked == match port {
            Some(p) => p as i32,
            None => DEFAULT_PORT,
        },
{
    match port {
        Some(p) => #[verifier::truncate] (p as i32),
        None => DEFAULT_PORT,
    }
}

/// What the client does when asked to stop an application, by the status
/// that the registry reports for it.
#[derive(Debug)]
pub enum StopStep {
    /// The application is stopped already.
    AlreadyStopped,
    /// The application does not run.
    NotRunning,
    /// The patch is to be sent to the registry.
    Send(PatchApplication),
}

/// Decides what to do when asked to stop an application with the status:
/// only one that runs is stopped.
pub fn stop_application(status: AppStatus) -> (step: StopStep)
    ensures
        match step {
            StopStep::AlreadyStopped => status == AppStatus::STOPPED,
            StopStep::NotRunning => status != AppStatus::STOPPED && status != AppStatus::RUNNING,
            StopStep::Send(patch) => status == AppStatus::RUNNING && patch@ == (
                PatchView { status: Some(AppStatus::STOPPED), ..PatchView::nothing() }
            ),
        },
{
    match status {
        AppStatus::STOPPED => StopStep::AlreadyStopped,
        AppStatus::RUNNING => StopStep::Send(PatchApplication::status_only(AppStatus::STOPPED)),
        _ => StopStep::NotRunning,
    }
}

/// What an answer of the registry means to the client that fetches or
/// stops an application.
#[derive(Clone, Copy, Debug, PartialEq, Eq, Structural)]
pub enum Answer {
    Success,
    NotFound,
    ServerError,
    Other,
}

/// Sorts a status code of the registry.
pub fn read_answer(code: u16) -> (answer: Answer)
    ensures
        answer == if code == NOT_FOUND {
            Answer::NotFound
        } else if code == INTERNAL_SERVER_ERROR {
            Answer::ServerError
        } else if 200 <= code <= 299 {
            Answer::Success
        } else {
            Answer::Other
        },
{
    if code == NOT_FOUND {
        Answer::NotFound
    } else if code == INTERNAL_SERVER_ERROR {
        Answer::ServerError
    } else if 200 <= code && code <= 299 {
        Answer::Success
    } else {
        Answer::Other
    }
}

/// The status report that the client prints for an application.
pub open spec fn status_text(app: ApplicationView) -> Seq<char> {
    "Application: "@ + app.name + "\nId: \""@ + match app.id {
        Some(id) => id_text(id),
        None => "unknown"@,
    } + "\"\nStatus: "@ + app.status.label() + "\nPort: "@ + signed_decimal_text(app.port as int)
        + "\nCommand: "@ + app.command
}

/// Writes the status report of an application.
pub fn check_status(app: &Application) -> (report: String)
    ensures
        report@ == status_text(app@),
{
    let mut report = String::new();
    push_text(&mut report, "Application: ");
    push_text(&mut report, app.name.as_str());
    push_text(&mut report, "\nId: \"");
    match app.id {
        Some(id) => push_id(&mut report, id),
        None => push_text(&mut report, "unknown"),
    }
    push_text(&mut report, "\"\nStatus: ");
    push_text(&mut report, app.status.as_str());
    push_text(&mut report, "\nPort: ");
    push_signed_decimal(&mut report, app.port as i64);
    push_text(&mut report, "\nCommand: ");
    push_text(&mut report, app.command.as_str());
    assert(report@ =~= status_text(app@));
    report
}

} // verus!
