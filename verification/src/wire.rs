//! What the services answer: a status code and a body. The body is kept as
//! a value; turning it into bytes is left to the transport.

use crate::ids::{id_text, push_id};
use crate::model::{AppLog, AppLogView, AppStatus, Application, ApplicationView};
use crate::text::{push_signed_decimal, push_text, signed_decimal_text};
use vstd::prelude::*;

verus! {

/// The request was served.
pub const OK: u16 = 200;

/// The request is malformed.
pub const BAD_REQUEST: u16 = 400;

/// No record has the identifier asked for.
pub const NOT_FOUND: u16 = 404;

/// The request conflicts with the state of the registry.
pub const CONFLICT: u16 = 409;

/// The service failed while serving the request.
pub const INTERNAL_SERVER_ERROR: u16 = 500;

/// The observed state of an application, as the live-status query reports
/// it. `status` is what the node agent said of the process, `STOPPED` for a
/// record without a process, or `UNKNOWN` where the agent gave no answer.
#[derive(Debug)]
pub struct LiveStatus {
    pub id: u128,
    pub name: String,
    pub status: String,
    pub pid: Option<i32>,
    pub port: i32,
    pub command: String,
}

/// View of a [`LiveStatus`].
pub struct LiveStatusView {
    pub id: u128,
    pub name: Seq<char>,
    pub status: Seq<char>,
    pub pid: Option<i32>,
    pub port: i32,
    pub command: Seq<char>,
}

impl View for LiveStatus {
    type V = LiveStatusView;

    open spec fn view(&self) -> LiveStatusView {
        LiveStatusView {
            id: self.id,
            name: self.name@,
            status: self.status@,
            pid: self.pid,
            port: self.port,
            command: self.command@,
        }
    }
}

/// The body of an answer.
#[derive(Debug)]
pub enum Body {
    /// Nothing.
    Empty,
    /// A plain text.
    Text(String),
    /// The identifier and port of a newly deployed application.
    Deployed { id: u128, port: i32 },
    /// One record.
    Application(Application),
    /// All records.
    Applications(Vec<Application>),
    /// The observed state of an application.
    LiveStatus(LiveStatus),
    /// The port and name of a redeployed application.
    Redeployed { port: i32, name: String },
    /// Log entries, oldest first.
    Logs(Vec<AppLog>),
    /// Whether a process is alive: `RUNNING` or `STOPPED`.
    ProcessStatus(AppStatus),
}

/// View of a [`Body`].
pub enum BodyView {
    Empty,
    Text(Seq<char>),
    Deployed { id: u128, port: i32 },
    Application(ApplicationView),
    Applications(Seq<ApplicationView>),
    LiveStatus(LiveStatusView),
    Redeployed { port: i32, name: Seq<char> },
    Logs(Seq<AppLogView>),
    ProcessStatus(AppStatus),
}

/// The views of a list of records.
pub open spec fn app_views(apps: Seq<Application>) -> Seq<ApplicationView> {
    apps.map_values(|a: Application| a@)
}

/// The views of a list of log entries.
pub open spec fn log_views(logs: Seq<AppLog>) -> Seq<AppLogView> {
    logs.map_values(|l: AppLog| l@)
}

impl View for Body {
    type V = BodyView;

    open spec fn view(&self) -> BodyView {
        match self {
            Body::Empty => BodyView::Empty,
            Body::Text(text) => BodyView::Text(text@),
            Body::Deployed { id, port } => BodyView::Deployed { id: *id, port: *port },
            Body::Application(app) => BodyView::Application(app@),
            Body::Applications(apps) => BodyView::Applications(app_views(apps@)),
            Body::LiveStatus(live) => BodyView::LiveStatus(live@),
            Body::Redeployed { port, name } => BodyView::Redeployed { port: *port, name: name@ },
            Body::Logs(logs) => BodyView::Logs(log_views(logs@)),
            Body::ProcessStatus(status) => BodyView::ProcessStatus(*status),
        }
    }
}

/// A copy of a list of records.
pub fn copy_apps(apps: &Vec<Application>) -> (copy: Vec<Application>)
    ensures
        app_views(copy@) == app_views(apps@),
{
    let mut copy: Vec<Application> = Vec::new();
    let mut i: usize = 0;
    while i < apps.len()
        invariant
            i <= apps.len(),
            copy.len() == i,
            forall|j: int| 0 <= j < i ==> (#[trigger] copy@[j])@ == apps@[j]@,
        decreases apps.len() - i,
    {
        copy.push(apps[i].clone());
        i += 1;
    }
    assert(app_views(copy@) =~= app_views(apps@));
    copy
}

/// A copy of a list of log entries.
pub fn copy_logs(logs: &Vec<AppLog>) -> (copy: Vec<AppLog>)
    ensures
        log_views(copy@) == log_views(logs@),
{
    let mut copy: Vec<AppLog> = Vec::new();
    let mut i: usize = 0;
    while i < logs.len()
        invariant
            i <= logs.len(),
            copy.len() == i,
            forall|j: int| 0 <= j < i ==> (#[trigger] copy@[j])@ == logs@[j]@,
        decreases logs.len() - i,
    {
        copy.push(logs[i].clone());
        i += 1;
    }
    assert(log_views(copy@) =~= log_views(logs@));
    copy
}

impl Clone for LiveStatus {
    fn clone(&self) -> (copy: Self)
        ensures
            copy@ == self@,
    {
        LiveStatus {
            id: self.id,
            name: self.name.clone(),
            status: self.status.clone(),
            pid: self.pid,
            port: self.port,
            command: self.command.clone(),
        }
    }
}

impl Clone for Body {
    fn clone(&self) -> (copy: Self)
        ensures
            copy@ == self@,
    {
        match self {
            Body::Empty => Body::Empty,
            Body::Text(text) => Body::Text(text.clone()),
            Body::Deployed { id, port } => Body::Deployed { id: *id, port: *port },
            Body::Application(app) => Body::Application(app.clone()),
            Body::Applications(apps) => Body::Applications(copy_apps(apps)),
            Body::LiveStatus(live) => Body::LiveStatus(live.clone()),
            Body::Redeployed { port, name } => Body::Redeployed { port: *port, name: name.clone() },
            Body::Logs(logs) => Body::Logs(copy_logs(logs)),
            Body::ProcessStatus(status) => Body::ProcessStatus(*status),
        }
    }
}

/// An answer: a status code and a body.
#[derive(Debug)]
pub struct Reply {
    pub code: u16,
    pub body: Body,
}

/// View of a [`Reply`].
pub struct ReplyView {
    pub code: u16,
    pub body: BodyView,
}

impl View for Reply {
    type V = ReplyView;

    open spec fn view(&self) -> ReplyView {
        ReplyView { code: self.code, body: self.body@ }
    }
}

impl Clone for Reply {
    fn clone(&self) -> (copy: Self)
        ensures
            copy@ == self@,
    {
        Reply { code: self.code, body: self.body.clone() }
    }
}

impl ReplyView {
    /// An answer without a body.
    pub open spec fn empty(code: u16) -> ReplyView {
        ReplyView { code, body: BodyView::Empty }
    }

    /// An answer with a plain text.
    pub open spec fn text(code: u16, text: Seq<char>) -> ReplyView {
        ReplyView { code, body: BodyView::Text(text) }
    }

    /// The answer to a request that failed in the store.
    pub open spec fn store_failure() -> ReplyView {
        ReplyView::empty(INTERNAL_SERVER_ERROR)
    }
}

impl Reply {
    /// An answer without a body.
    pub fn empty(code: u16) -> (reply: Reply)
        ensures
            reply@ == ReplyView::empty(code),
    {
        Reply { code, body: Body::Empty }
    }

    /// An answer with a plain text.
    pub fn text(code: u16, text: &str) -> (reply: Reply)
        ensures
            reply@ == ReplyView::text(code, text@),
    {
        let mut body = String::new();
        push_text(&mut body, text);
        assert(body@ =~= text@);
        Reply { code, body: Body::Text(body) }
    }

    /// The answer to a request that failed in the store: an internal error
    /// without a body.
    pub fn store_failure() -> (reply: Reply)
        ensures
            reply@ == ReplyView::store_failure(),
    {
        Reply::empty(INTERNAL_SERVER_ERROR)
    }

    /// Whether the answer reports success: a code from 200 to 299.
    pub fn is_success(&self) -> (success: bool)
        ensures
            success == (200 <= self.code <= 299),
    {
        200 <= self.code && self.code <= 299
    }
}

/// The text that rejects a deployment on a port that is held.
pub open spec fn port_conflict_message(port: i32) -> Seq<char> {
    "Port "@ + signed_decimal_text(port as int)
        + " is already in use by another running application"@
}

/// The text that confirms a stop.
pub open spec fn stopped_message(id: u128) -> Seq<char> {
    "Application Program ID = "@ + id_text(id) + " stopped successfully"@
}

/// The text that confirms an update.
pub open spec fn updated_message(id: u128) -> Seq<char> {
    "Application Program ID = "@ + id_text(id) + " Information Successfully Updated"@
}

/// The text that confirms a deletion.
pub open spec fn deleted_message(id: u128) -> Seq<char> {
    "Application "@ + id_text(id) + " deleted"@
}

/// The answer that rejects a deployment on a port that is held.
pub fn port_conflict(port: i32) -> (reply: Reply)
    ensures
        reply@ == ReplyView::text(CONFLICT, port_conflict_message(port)),
{
    let mut text = String::new();
    push_text(&mut text, "Port ");
    push_signed_decimal(&mut text, port as i64);
    push_text(&mut text, " is already in use by another running application");
    assert(text@ =~= port_conflict_message(port));
    Reply { code: CONFLICT, body: Body::Text(text) }
}

/// The answer that confirms a stop.
pub fn stopped(id: u128) -> (reply: Reply)
    ensures
        reply@ == ReplyView::text(OK, stopped_message(id)),
{
    let mut text = String::new();
    push_text(&mut text, "Application Program ID = ");
    push_id(&mut text, id);
    push_text(&mut text, " stopped successfully");
    assert(text@ =~= stopped_message(id));
    Reply { code: OK, body: Body::Text(text) }
}

/// The answer that confirms an update.
pub fn updated(id: u128) -> (reply: Reply)
    ensures
        reply@ == ReplyView::text(OK, updated_message(id)),
{
    let mut text = String::new();
    push_text(&mut text, "Application Program ID = ");
    push_id(&mut text, id);
    push_text(&mut text, " Information Successfully Updated");
    assert(text@ =~= updated_message(id));
    Reply { code: OK, body: Body::Text(text) }
}

/// The answer that confirms a deletion.
pub fn deleted(id: u128) -> (reply: Reply)
    ensures
        reply@ == ReplyView::text(OK, deleted_message(id)),
{
    let mut text = String::new();
    push_text(&mut text, "Application ");
    push_id(&mut text, id);
    push_text(&mut text, " deleted");
    assert(text@ =~= deleted_message(id));
    Reply { code: OK, body: Body::Text(text) }
}

/// The answer for an identifier that no record has.
pub fn not_found() -> (reply: Reply)
    ensures
        reply@ == ReplyView::text(NOT_FOUND, "Application not found"@),
{
    Reply::text(NOT_FOUND, "Application not found")
}

} // verus!
