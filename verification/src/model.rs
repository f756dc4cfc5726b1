//! The records shared by the control plane and the node agent.
//!
//! Every record has a view: the same record with each text as a sequence of
//! characters. Contracts speak of views.

use crate::text::same_text;
use vstd::prelude::*;

verus! {

/// Lifecycle status of an application.
#[derive(Copy, Debug, PartialEq, Eq, Structural)]
pub enum AppStatus {
    PENDING,
    RUNNING,
    STOPPED,
    FAILED,
    CRASHED,
}

impl Clone for AppStatus {
    fn clone(&self) -> (copy: Self)
        ensures
            copy == *self,
    {
        *self
    }
}

impl AppStatus {
    /// Whether an application in this status holds its port: every status
    /// but `STOPPED` does.
    pub open spec fn holds_port(self) -> bool {
        self != AppStatus::STOPPED
    }

    /// Executable form of [`AppStatus::holds_port`].
    pub fn is_holding_port(&self) -> (held: bool)
        ensures
            held == self.holds_port(),
    {
        !matches!(self, AppStatus::STOPPED)
    }

    /// The name of the status as it is written on the wire.
    pub open spec fn label(self) -> Seq<char> {
        match self {
            AppStatus::PENDING => "PENDING"@,
            AppStatus::RUNNING => "RUNNING"@,
            AppStatus::STOPPED => "STOPPED"@,
            AppStatus::FAILED => "FAILED"@,
            AppStatus::CRASHED => "CRASHED"@,
        }
    }

    /// The name of the status as it is written on the wire.
    pub fn as_str(&self) -> (name: &'static str)
        ensures
            name@ == self.label(),
    {
        match self {
            AppStatus::PENDING => "PENDING",
            AppStatus::RUNNING => "RUNNING",
            AppStatus::STOPPED => "STOPPED",
            AppStatus::FAILED => "FAILED",
            AppStatus::CRASHED => "CRASHED",
        }
    }

    /// The status that `name` writes, if it writes one.
    pub open spec fn named(name: Seq<char>) -> Option<AppStatus> {
        if name == "PENDING"@ {
            Some(AppStatus::PENDING)
        } else if name == "RUNNING"@ {
            Some(AppStatus::RUNNING)
        } else if name == "STOPPED"@ {
            Some(AppStatus::STOPPED)
        } else if name == "FAILED"@ {
            Some(AppStatus::FAILED)
        } else if name == "CRASHED"@ {
            Some(AppStatus::CRASHED)
        } else {
            None
        }
    }

    /// Reads a status from its wire name.
    pub fn from_name(name: &str) -> (status: Option<AppStatus>)
        ensures
            status == AppStatus::named(name@),
    {
        if same_text(name, "PENDING") {
            Some(AppStatus::PENDING)
        } else if same_text(name, "RUNNING") {
            Some(AppStatus::RUNNING)
        } else if same_text(name, "STOPPED") {
            Some(AppStatus::STOPPED)
        } else if same_text(name, "FAILED") {
            Some(AppStatus::FAILED)
        } else if same_text(name, "CRASHED") {
            Some(AppStatus::CRASHED)
        } else {
            None
        }
    }
}

/// The characters of an optional text.
pub open spec fn text_view(text: Option<String>) -> Option<Seq<char>> {
    match text {
        Some(s) => Some(s@),
        None => None,
    }
}

/// A copy of an optional text.
pub fn copy_text(text: &Option<String>) -> (copy: Option<String>)
    ensures
        text_view(copy) == text_view(*text),
{
    match text {
        Some(s) => Some(s.clone()),
        None => None,
    }
}

/// One entry of an application's environment mapping. The value is `None`
/// where the mapping holds something other than a text under the key.
#[derive(Debug)]
pub struct EnvVar {
    pub key: String,
    pub value: Option<String>,
}

/// View of an [`EnvVar`].
pub struct EnvVarView {
    pub key: Seq<char>,
    pub value: Option<Seq<char>>,
}

impl View for EnvVar {
    type V = EnvVarView;

    open spec fn view(&self) -> EnvVarView {
        EnvVarView { key: self.key@, value: text_view(self.value) }
    }
}

impl Clone for EnvVar {
    fn clone(&self) -> (copy: Self)
        ensures
            copy@ == self@,
    {
        EnvVar { key: self.key.clone(), value: copy_text(&self.value) }
    }
}

/// The views of the entries of an environment mapping.
pub open spec fn env_view(vars: Seq<EnvVar>) -> Seq<EnvVarView> {
    vars.map_values(|v: EnvVar| v@)
}

/// The view of an optional environment mapping.
pub open spec fn env_vars_view(vars: Option<Vec<EnvVar>>) -> Option<Seq<EnvVarView>> {
    match vars {
        Some(list) => Some(env_view(list@)),
        None => None,
    }
}

/// A copy of an environment mapping.
pub fn copy_env(vars: &Vec<EnvVar>) -> (copy: Vec<EnvVar>)
    ensures
        env_view(copy@) == env_view(vars@),
{
    let mut copy: Vec<EnvVar> = Vec::new();
    let mut i: usize = 0;
    while i < vars.len()
        invariant
            i <= vars.len(),
            copy.len() == i,
            forall|j: int| 0 <= j < i ==> (#[trigger] copy@[j])@ == vars@[j]@,
        decreases vars.len() - i,
    {
        copy.push(vars[i].clone());
        i += 1;
    }
    assert(env_view(copy@) =~= env_view(vars@));
    copy
}

/// A copy of an optional environment mapping.
pub fn copy_env_vars(vars: &Option<Vec<EnvVar>>) -> (copy: Option<Vec<EnvVar>>)
    ensures
        env_vars_view(copy) == env_vars_view(*vars),
{
    match vars {
        Some(list) => Some(copy_env(list)),
        None => None,
    }
}

/// A managed process with its desired and observed state.
///
/// `id` is the 128-bit value of the record's identifier; a record that the
/// registry has not stored yet has none. `command` is split on white space
/// only: there is no quoting.
#[derive(Debug)]
pub struct Application {
    pub id: Option<u128>,
    pub name: String,
    pub command: String,
    pub status: AppStatus,
    pub port: i32,
    pub working_dir: String,
    pub pid: Option<i32>,
    pub env_vars: Option<Vec<EnvVar>>,
}

/// View of an [`Application`].
pub struct ApplicationView {
    pub id: Option<u128>,
    pub name: Seq<char>,
    pub command: Seq<char>,
    pub status: AppStatus,
    pub port: i32,
    pub working_dir: Seq<char>,
    pub pid: Option<i32>,
    pub env_vars: Option<Seq<EnvVarView>>,
}

impl View for Application {
    type V = ApplicationView;

    open spec fn view(&self) -> ApplicationView {
        ApplicationView {
            id: self.id,
            name: self.name@,
            command: self.command@,
            status: self.status,
            port: self.port,
            working_dir: self.working_dir@,
            pid: self.pid,
            env_vars: env_vars_view(self.env_vars),
        }
    }
}

impl Clone for Application {
    fn clone(&self) -> (copy: Self)
        ensures
            copy@ == self@,
    {
        Application {
            id: self.id,
            name: self.name.clone(),
            command: self.command.clone(),
            status: self.status,
            port: self.port,
            working_dir: self.working_dir.clone(),
            pid: self.pid,
            env_vars: copy_env_vars(&self.env_vars),
        }
    }
}

impl ApplicationView {
    /// The application holds `port`: it has that port and is not stopped.
    pub open spec fn holds(self, port: i32) -> bool {
        self.port == port && self.status.holds_port()
    }

    /// A record that is `RUNNING` has a process id.
    pub open spec fn running_has_pid(self) -> bool {
        self.status == AppStatus::RUNNING ==> self.pid is Some
    }
}

/// A partial update of an application: a field that is `Some` replaces the
/// record's field, a field that is `None` leaves it as it is.
#[derive(Debug)]
pub struct PatchApplication {
    pub name: Option<String>,
    pub command: Option<String>,
    pub status: Option<AppStatus>,
    pub port: Option<i32>,
    pub working_dir: Option<String>,
    pub pid: Option<i32>,
    pub env_vars: Option<Vec<EnvVar>>,
}

/// View of a [`PatchApplication`].
pub struct PatchView {
    pub name: Option<Seq<char>>,
    pub command: Option<Seq<char>>,
    pub status: Option<AppStatus>,
    pub port: Option<i32>,
    pub working_dir: Option<Seq<char>>,
    pub pid: Option<i32>,
    pub env_vars: Option<Seq<EnvVarView>>,
}

impl View for PatchApplication {
    type V = PatchView;

    open spec fn view(&self) -> PatchView {
        PatchView {
            name: text_view(self.name),
            command: text_view(self.command),
            status: self.status,
            port: self.port,
            working_dir: text_view(self.working_dir),
            pid: self.pid,
            env_vars: env_vars_view(self.env_vars),
        }
    }
}

impl Clone for PatchApplication {
    fn clone(&self) -> (copy: Self)
        ensures
            copy@ == self@,
    {
        PatchApplication {
            name: copy_text(&self.name),
            command: copy_text(&self.command),
            status: self.status,
            port: self.port,
            working_dir: copy_text(&self.working_dir),
            pid: self.pid,
            env_vars: copy_env_vars(&self.env_vars),
        }
    }
}

impl PatchView {
    /// The patch that supplies no field.
    pub open spec fn nothing() -> PatchView {
        PatchView {
            name: None,
            command: None,
            status: None,
            port: None,
            working_dir: None,
            pid: None,
            env_vars: None,
        }
    }

    /// The patch supplies no field at all.
    pub open spec fn is_empty(self) -> bool {
        self == PatchView::nothing()
    }

    /// The record `app` after the patch: each supplied field replaces the
    /// record's, every other field stays.
    pub open spec fn applied_to(self, app: ApplicationView) -> ApplicationView {
        ApplicationView {
            id: app.id,
            name: if let Some(name) = self.name { name } else { app.name },
            command: if let Some(command) = self.command { command } else { app.command },
            status: if let Some(status) = self.status { status } else { app.status },
            port: if let Some(port) = self.port { port } else { app.port },
            working_dir: if let Some(dir) = self.working_dir { dir } else { app.working_dir },
            pid: if self.pid is Some { self.pid } else { app.pid },
            env_vars: if self.env_vars is Some { self.env_vars } else { app.env_vars },
        }
    }
}

impl PatchApplication {
    /// The patch that supplies no field.
    pub fn empty() -> (patch: PatchApplication)
        ensures
            patch@ == PatchView::nothing(),
    {
        PatchApplication {
            name: None,
            command: None,
            status: None,
            port: None,
            working_dir: None,
            pid: None,
            env_vars: None,
        }
    }

    /// The patch that supplies the status and nothing else.
    pub fn status_only(status: AppStatus) -> (patch: PatchApplication)
        ensures
            patch@ == (PatchView { status: Some(status), ..PatchView::nothing() }),
    {
        PatchApplication {
            name: None,
            command: None,
            status: Some(status),
            port: None,
            working_dir: None,
            pid: None,
            env_vars: None,
        }
    }

    /// Whether the patch supplies no field.
    pub fn is_empty(&self) -> (empty: bool)
        ensures
            empty == self@.is_empty(),
    {
        self.name.is_none() && self.command.is_none() && self.status.is_none()
            && self.port.is_none() && self.working_dir.is_none() && self.pid.is_none()
            && self.env_vars.is_none()
    }

    /// Merges the patch into `app`.
    pub fn apply(&self, app: &mut Application)
        ensures
            final(app)@ == self@.applied_to(old(app)@),
    {
        if let Some(name) = &self.name {
            app.name = name.clone();
        }
        if let Some(command) = &self.command {
            app.command = command.clone();
        }
        if let Some(status) = self.status {
            app.status = status;
        }
        if let Some(port) = self.port {
            app.port = port;
        }
        if let Some(dir) = &self.working_dir {
            app.working_dir = dir.clone();
        }
        if let Some(pid) = self.pid {
            app.pid = Some(pid);
        }
        if let Some(vars) = &self.env_vars {
            app.env_vars = Some(copy_env(vars));
        }
    }
}

/// One stored line of an application's output. `created_at` counts
/// microseconds since 1970-01-01T00:00:00Z.
#[derive(Debug)]
pub struct AppLog {
    pub id: i64,
    pub app_id: u128,
    pub stream: String,
    pub message: String,
    pub created_at: i64,
}

/// View of an [`AppLog`].
pub struct AppLogView {
    pub id: i64,
    pub app_id: u128,
    pub stream: Seq<char>,
    pub message: Seq<char>,
    pub created_at: i64,
}

impl View for AppLog {
    type V = AppLogView;

    open spec fn view(&self) -> AppLogView {
        AppLogView {
            id: self.id,
            app_id: self.app_id,
            stream: self.stream@,
            message: self.message@,
            created_at: self.created_at,
        }
    }
}

impl Clone for AppLog {
    fn clone(&self) -> (copy: Self)
        ensures
            copy@ == self@,
    {
        AppLog {
            id: self.id,
            app_id: self.app_id,
            stream: self.stream.clone(),
            message: self.message.clone(),
            created_at: self.created_at,
        }
    }
}

/// A line of output as the node agent reports it.
#[derive(Debug)]
pub struct NewAppLog {
    pub app_id: u128,
    pub stream: String,
    pub message: String,
}

/// View of a [`NewAppLog`].
pub struct NewAppLogView {
    pub app_id: u128,
    pub stream: Seq<char>,
    pub message: Seq<char>,
}

impl View for NewAppLog {
    type V = NewAppLogView;

    open spec fn view(&self) -> NewAppLogView {
        NewAppLogView { app_id: self.app_id, stream: self.stream@, message: self.message@ }
    }
}

impl Clone for NewAppLog {
    fn clone(&self) -> (copy: Self)
        ensures
            copy@ == self@,
    {
        NewAppLog {
            app_id: self.app_id,
            stream: self.stream.clone(),
            message: self.message.clone(),
        }
    }
}

/// What a reader of logs asks for: the newest `limit` entries, or the
/// entries after the time that `since` writes.
#[derive(Debug)]
pub struct LogQuery {
    pub limit: Option<i64>,
    pub since: Option<String>,
}

} // verus!
