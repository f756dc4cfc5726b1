//! The decisions of the registry on its application records.
//!
//! A handler reads the records and answers with a [`Plan`]: the writes to
//! the store and the calls to the node agent, in the order in which they
//! are to be made, and the reply to give once they are made. A step that is
//! required ends the plan when it fails, and the reply is then that of a
//! store failure; a step that is not required may fail without effect on
//! what follows.

use crate::app_repo::{
    clear_pid, delete_application, get_application, get_applications, is_port_in_use,
    patch_application, patched, pid_cleared, port_held, record_of, stored_form, without, AppStore,
};
use crate::model::{
    AppStatus, Application, ApplicationView, PatchApplication, PatchView,
};
use crate::text::{push_text, same_text};
use crate::wire::{
    deleted, deleted_message, not_found, port_conflict, port_conflict_message, stopped,
    stopped_message, updated, updated_message, Body, BodyView, LiveStatus, LiveStatusView, Reply,
    ReplyView, CONFLICT, INTERNAL_SERVER_ERROR, NOT_FOUND, OK,
};
use vstd::prelude::*;

verus! {

/// A write to the store of application records.
#[derive(Debug)]
pub enum StoreWrite {
    /// Merge the patch into the record with the identifier.
    Patch { id: u128, patch: PatchApplication },
    /// Take the process id from the record with the identifier.
    ClearPid { id: u128 },
    /// Remove the record with the identifier.
    Delete { id: u128 },
}

/// View of a [`StoreWrite`].
pub enum StoreWriteView {
    Patch { id: u128, patch: PatchView },
    ClearPid { id: u128 },
    Delete { id: u128 },
}

impl View for StoreWrite {
    type V = StoreWriteView;

    open spec fn view(&self) -> StoreWriteView {
        match self {
            StoreWrite::Patch { id, patch } => StoreWriteView::Patch { id: *id, patch: patch@ },
            StoreWrite::ClearPid { id } => StoreWriteView::ClearPid { id: *id },
            StoreWrite::Delete { id } => StoreWriteView::Delete { id: *id },
        }
    }
}

/// A call to the node agent.
#[derive(Debug)]
pub enum AgentCall {
    /// Start and supervise the application.
    Run(Application),
    /// End the process with the process id, by force.
    Stop { pid: i32 },
}

/// View of an [`AgentCall`].
pub enum AgentCallView {
    Run(ApplicationView),
    Stop { pid: i32 },
}

impl View for AgentCall {
    type V = AgentCallView;

    open spec fn view(&self) -> AgentCallView {
        match self {
            AgentCall::Run(app) => AgentCallView::Run(app@),
            AgentCall::Stop { pid } => AgentCallView::Stop { pid: *pid },
        }
    }
}

/// What a step of a plan asks for.
#[derive(Debug)]
pub enum Order {
    Store(StoreWrite),
    Agent(AgentCall),
}

/// View of an [`Order`].
pub enum OrderView {
    Store(StoreWriteView),
    Agent(AgentCallView),
}

impl View for Order {
    type V = OrderView;

    open spec fn view(&self) -> OrderView {
        match self {
            Order::Store(write) => OrderView::Store(write@),
            Order::Agent(call) => OrderView::Agent(call@),
        }
    }
}

/// One step of a plan. Where a required step fails, the plan ends there
/// with the reply of a store failure.
#[derive(Debug)]
pub struct Step {
    pub order: Order,
    pub required: bool,
}

/// View of a [`Step`].
pub struct StepView {
    pub order: OrderView,
    pub required: bool,
}

impl View for Step {
    type V = StepView;

    open spec fn view(&self) -> StepView {
        StepView { order: self.order@, required: self.required }
    }
}

/// What a handler has decided: the steps to take, in order, and the reply
/// to give after them.
#[derive(Debug)]
pub struct Plan {
    pub steps: Vec<Step>,
    pub reply: Reply,
}

/// View of a [`Plan`].
pub struct PlanView {
    pub steps: Seq<StepView>,
    pub reply: ReplyView,
}

impl View for Plan {
    type V = PlanView;

    open spec fn view(&self) -> PlanView {
        PlanView { steps: self.steps@.map_values(|s: Step| s@), reply: self.reply@ }
    }
}

impl StepView {
    /// A write that must succeed.
    pub open spec fn write(write: StoreWriteView) -> StepView {
        StepView { order: OrderView::Store(write), required: true }
    }

    /// A write whose failure is ignored.
    pub open spec fn attempt(write: StoreWriteView) -> StepView {
        StepView { order: OrderView::Store(write), required: false }
    }

    /// A call to the agent; its failure is ignored.
    pub open spec fn call(call: AgentCallView) -> StepView {
        StepView { order: OrderView::Agent(call), required: false }
    }
}

impl PlanView {
    /// The plan that only replies.
    pub open spec fn reply_only(reply: ReplyView) -> PlanView {
        PlanView { steps: Seq::empty(), reply }
    }
}

impl Plan {
    /// The plan that only replies.
    pub fn reply_only(reply: Reply) -> (plan: Plan)
        ensures
            plan@ == PlanView::reply_only(reply@),
    {
        let plan = Plan { steps: Vec::new(), reply };
        assert(plan@.steps =~= Seq::<StepView>::empty());
        plan
    }

    /// Adds a step at the end.
    fn add_step(&mut self, order: Order, required: bool)
        ensures
            final(self)@ == (PlanView {
                steps: old(self)@.steps.push(StepView { order: order@, required }),
                reply: old(self)@.reply,
            }),
    {
        self.steps.push(Step { order, required });
        assert(self@.steps =~= old(self)@.steps.push(StepView { order: order@, required }));
    }
}

/// The records after a write.
pub open spec fn after_write(apps: Seq<ApplicationView>, write: StoreWriteView) -> Seq<
    ApplicationView,
> {
    match write {
        StoreWriteView::Patch { id, patch } => patched(apps, id, patch),
        StoreWriteView::ClearPid { id } => pid_cleared(apps, id),
        StoreWriteView::Delete { id } => without(apps, id),
    }
}

/// The records after the writes among the steps were made, in order.
pub open spec fn after_steps(apps: Seq<ApplicationView>, steps: Seq<StepView>) -> Seq<
    ApplicationView,
>
    decreases steps.len(),
{
    if steps.len() == 0 {
        apps
    } else {
        let before = after_steps(apps, steps.drop_last());
        match steps.last().order {
            OrderView::Store(write) => after_write(before, write),
            OrderView::Agent(_) => before,
        }
    }
}

impl AppStore {
    /// Makes the write.
    pub fn write(&mut self, write: &StoreWrite)
        ensures
            final(self)@ == after_write(old(self)@, write@),
    {
        match write {
            StoreWrite::Patch { id, patch } => patch_application(self, *id, patch),
            StoreWrite::ClearPid { id } => clear_pid(self, *id),
            StoreWrite::Delete { id } => delete_application(self, *id),
        }
    }

    /// Makes the writes of a plan, in order.
    pub fn carry_out(&mut self, plan: &Plan)
        ensures
            final(self)@ == after_steps(old(self)@, plan@.steps),
    {
        let mut i: usize = 0;
        assert(plan@.steps.take(0) =~= Seq::<StepView>::empty());
        while i < plan.steps.len()
            invariant
                i <= plan.steps.len(),
                self@ == after_steps(old(self)@, plan@.steps.take(i as int)),
            decreases plan.steps.len() - i,
        {
            proof {
                assert(plan@.steps.take(i + 1).drop_last() == plan@.steps.take(i as int));
                assert(plan@.steps.take(i + 1).last() == plan.steps@[i as int]@);
            }
            if let Order::Store(write) = &plan.steps[i].order {
                self.write(write);
            }
            i += 1;
        }
        assert(plan@.steps.take(plan.steps.len() as int) == plan@.steps);
    }
}

/// The records after the writes were made, in order.
pub open spec fn after_writes(apps: Seq<ApplicationView>, writes: Seq<StoreWriteView>) -> Seq<
    ApplicationView,
>
    decreases writes.len(),
{
    if writes.len() == 0 {
        apps
    } else {
        after_write(after_writes(apps, writes.drop_last()), writes.last())
    }
}

/// The writes with which the registry starts: for each record that is not
/// stopped, in the order of the store, the patch that stores `STOPPED`.
pub open spec fn stale_writes(apps: Seq<ApplicationView>) -> Seq<StoreWriteView>
    decreases apps.len(),
{
    if apps.len() == 0 {
        Seq::empty()
    } else {
        let front = stale_writes(apps.drop_last());
        match apps.last().id {
            Some(id) if apps.last().status != AppStatus::STOPPED => front.push(
                StoreWriteView::Patch { id, patch: status_patch(AppStatus::STOPPED) },
            ),
            _ => front,
        }
    }
}

/// The views of a list of writes.
pub open spec fn write_views(writes: Seq<StoreWrite>) -> Seq<StoreWriteView> {
    writes.map_values(|w: StoreWrite| w@)
}

/// Plans the start of the registry: the writes that mark every record as
/// stopped which is not. The registry knows nothing of the processes that
/// an earlier run of it tracked.
pub fn stop_stale_apps(store: &AppStore) -> (writes: Vec<StoreWrite>)
    ensures
        write_views(writes@) == stale_writes(store@),
{
    let apps = get_applications(store);
    let mut writes: Vec<StoreWrite> = Vec::new();
    let mut i: usize = 0;
    assert(store@.take(0) =~= Seq::<ApplicationView>::empty());
    assert(write_views(writes@) =~= Seq::<StoreWriteView>::empty());
    while i < apps.len()
        invariant
            i <= apps.len(),
            crate::wire::app_views(apps@) == store@,
            write_views(writes@) == stale_writes(store@.take(i as int)),
        decreases apps.len() - i,
    {
        proof {
            assert(store@.take(i + 1).drop_last() == store@.take(i as int));
            assert(store@.take(i + 1).last() == apps@[i as int]@);
        }
        if let Some(id) = apps[i].id {
            if !matches!(apps[i].status, AppStatus::STOPPED) {
                let ghost before = write_views(writes@);
                let write = StoreWrite::Patch {
                    id,
                    patch: PatchApplication::status_only(AppStatus::STOPPED),
                };
                writes.push(write);
                assert(write_views(writes@) =~= before.push(
                    StoreWriteView::Patch { id, patch: status_patch(AppStatus::STOPPED) },
                ));
            }
        }
        i += 1;
    }
    assert(store@.take(apps.len() as int) == store@);
    writes
}

/// What the registry decides on a request to deploy.
#[derive(Debug)]
pub enum Deployment {
    /// The request is turned down with the reply.
    Rejected(Reply),
    /// The record is to be stored; the store gives it its identifier.
    Accepted(Application),
}

/// View of a [`Deployment`].
pub enum DeploymentView {
    Rejected(ReplyView),
    Accepted(ApplicationView),
}

impl View for Deployment {
    type V = DeploymentView;

    open spec fn view(&self) -> DeploymentView {
        match self {
            Deployment::Rejected(reply) => DeploymentView::Rejected(reply@),
            Deployment::Accepted(app) => DeploymentView::Accepted(app@),
        }
    }
}

/// The record of a new application: pending, without identifier and
/// without process.
pub open spec fn new_record(app: ApplicationView) -> ApplicationView {
    ApplicationView { id: None, status: AppStatus::PENDING, pid: None, ..app }
}

/// The decision on a request to deploy `app`: it is turned down as a
/// conflict if an application that is not stopped holds the port, and
/// accepted otherwise.
pub open spec fn deployment(apps: Seq<ApplicationView>, app: ApplicationView) -> DeploymentView {
    if port_held(apps, app.port) {
        DeploymentView::Rejected(ReplyView::text(CONFLICT, port_conflict_message(app.port)))
    } else {
        DeploymentView::Accepted(new_record(app))
    }
}

/// Decides on a request to deploy `app`.
pub fn post_program(store: &AppStore, app: &Application) -> (decision: Deployment)
    ensures
        decision@ == deployment(store@, app@),
{
    if is_port_in_use(store, app.port) {
        Deployment::Rejected(port_conflict(app.port))
    } else {
        let mut record = app.clone();
        record.id = None;
        record.status = AppStatus::PENDING;
        record.pid = None;
        Deployment::Accepted(record)
    }
}

/// How the node agent took a request.
#[derive(Clone, Copy, Debug, PartialEq, Eq, Structural)]
pub enum AgentOutcome {
    /// The agent answered with success.
    Accepted,
    /// The agent answered with an error.
    Refused,
    /// The agent could not be reached.
    Unreachable,
}

/// The application as it is handed to the agent once it is stored under
/// `id`.
pub fn run_order(record: &Application, id: u128) -> (call: AgentCall)
    ensures
        call@ == AgentCallView::Run(stored_form(record@, id)),
{
    let mut app = record.clone();
    app.id = Some(id);
    app.pid = None;
    AgentCall::Run(app)
}

/// The reply to a deployment that was stored under `id`, given how the
/// agent took the request to run it.
pub open spec fn deployed_reply(id: u128, port: i32, outcome: AgentOutcome) -> ReplyView {
    match outcome {
        AgentOutcome::Accepted => ReplyView { code: OK, body: BodyView::Deployed { id, port } },
        AgentOutcome::Refused => ReplyView::text(
            INTERNAL_SERVER_ERROR,
            "Application saved but failed to start"@,
        ),
        AgentOutcome::Unreachable => ReplyView::text(
            INTERNAL_SERVER_ERROR,
            "Application saved but agent unavailable"@,
        ),
    }
}

/// The reply to a deployment that was stored under `id`.
pub fn reply_deployed(id: u128, port: i32, outcome: AgentOutcome) -> (reply: Reply)
    ensures
        reply@ == deployed_reply(id, port, outcome),
{
    match outcome {
        AgentOutcome::Accepted => Reply { code: OK, body: Body::Deployed { id, port } },
        AgentOutcome::Refused => Reply::text(
            INTERNAL_SERVER_ERROR,
            "Application saved but failed to start",
        ),
        AgentOutcome::Unreachable => Reply::text(
            INTERNAL_SERVER_ERROR,
            "Application saved but agent unavailable",
        ),
    }
}

/// The reply that lists every record.
pub fn get_programs(store: &AppStore) -> (reply: Reply)
    ensures
        reply@ == (ReplyView { code: OK, body: BodyView::Applications(store@) }),
{
    Reply { code: OK, body: Body::Applications(get_applications(store)) }
}

/// The reply to a query for one record.
pub open spec fn program_reply(apps: Seq<ApplicationView>, id: u128) -> ReplyView {
    match record_of(apps, id) {
        Some(app) => ReplyView { code: OK, body: BodyView::Application(app) },
        None => ReplyView::empty(NOT_FOUND),
    }
}

/// The reply to a query for the record with the identifier.
pub fn get_program(store: &AppStore, id: u128) -> (reply: Reply)
    ensures
        reply@ == program_reply(store@, id),
{
    match get_application(store, id) {
        Ok(app) => Reply { code: OK, body: Body::Application(app) },
        Err(_) => Reply::empty(NOT_FOUND),
    }
}

/// The reply for an identifier that no record has.
pub open spec fn unknown_id() -> ReplyView {
    ReplyView::text(NOT_FOUND, "Application not found"@)
}

/// The plan for a patch. Where no record has the identifier, nothing is
/// written, no call is made and the reply is that of an unknown id. A patch
/// that asks for `STOPPED` is stored first; only then, if the record has a
/// process, the agent is told to end it, and whether that call succeeds
/// has no effect on the reply. Any other patch is stored and confirmed.
pub open spec fn patch_plan(apps: Seq<ApplicationView>, id: u128, patch: PatchView) -> PlanView {
    let persist = StepView::write(StoreWriteView::Patch { id, patch });
    match record_of(apps, id) {
        None => PlanView::reply_only(unknown_id()),
        Some(app) => if patch.status == Some(AppStatus::STOPPED) {
            PlanView {
                steps: match app.pid {
                    Some(pid) => seq![persist, StepView::call(AgentCallView::Stop { pid })],
                    None => seq![persist],
                },
                reply: ReplyView::text(OK, stopped_message(id)),
            }
        } else {
            PlanView { steps: seq![persist], reply: ReplyView::text(OK, updated_message(id)) }
        },
    }
}

/// Plans the patch of the record with the identifier.
pub fn patch_program(store: &AppStore, id: u128, patch: &PatchApplication) -> (plan: Plan)
    ensures
        plan@ == patch_plan(store@, id, patch@),
{
    let app = match get_application(store, id) {
        Ok(app) => app,
        Err(_) => {
            return Plan::reply_only(not_found());
        },
    };
    if matches!(patch.status, Some(AppStatus::STOPPED)) {
        let mut plan = Plan::reply_only(stopped(id));
        plan.add_step(Order::Store(StoreWrite::Patch { id, patch: patch.clone() }), true);
        if let Some(pid) = app.pid {
            plan.add_step(Order::Agent(AgentCall::Stop { pid }), false);
        }
        assert(plan@.steps =~= patch_plan(store@, id, patch@).steps);
        plan
    } else {
        let mut plan = Plan::reply_only(updated(id));
        plan.add_step(Order::Store(StoreWrite::Patch { id, patch: patch.clone() }), true);
        assert(plan@.steps =~= patch_plan(store@, id, patch@).steps);
        plan
    }
}

/// The plan for a deletion: the record goes, and that is confirmed. Where
/// no record has the identifier, nothing is written and the reply is that
/// of an unknown id.
pub open spec fn delete_plan(apps: Seq<ApplicationView>, id: u128) -> PlanView {
    match record_of(apps, id) {
        None => PlanView::reply_only(unknown_id()),
        Some(_) => PlanView {
            steps: seq![StepView::write(StoreWriteView::Delete { id })],
            reply: ReplyView::text(OK, deleted_message(id)),
        },
    }
}

/// Plans the deletion of the record with the identifier.
pub fn delete_program(store: &AppStore, id: u128) -> (plan: Plan)
    ensures
        plan@ == delete_plan(store@, id),
{
    if get_application(store, id).is_err() {
        return Plan::reply_only(not_found());
    }
    let mut plan = Plan::reply_only(deleted(id));
    plan.add_step(Order::Store(StoreWrite::Delete { id }), true);
    assert(plan@.steps =~= delete_plan(store@, id).steps);
    plan
}

/// What follows a step of a plan, given whether the step succeeded: the
/// reply with which the plan ends there, or nothing while steps are left.
/// A required step that fails ends the plan with the reply of a store
/// failure, and no later step is taken. After any other step the next step
/// follows, and after the last one the reply of the plan.
pub open spec fn reply_after(plan: PlanView, index: int, succeeded: bool) -> Option<ReplyView> {
    if !succeeded && plan.steps[index].required {
        Some(ReplyView::store_failure())
    } else if index + 1 < plan.steps.len() {
        None
    } else {
        Some(plan.reply)
    }
}

/// How many steps of a plan are taken, given which steps succeed: every
/// step up to the first required one that fails.
pub open spec fn steps_taken(plan: PlanView, outcomes: Seq<bool>, from: int) -> int
    decreases plan.steps.len() - from,
{
    if from < 0 || from >= plan.steps.len() {
        plan.steps.len() as int
    } else if from < outcomes.len() && !outcomes[from] && plan.steps[from].required {
        from + 1
    } else {
        steps_taken(plan, outcomes, from + 1)
    }
}

/// Tells what follows the step at `index`, given whether it succeeded.
pub fn after_step(plan: &Plan, index: usize, succeeded: bool) -> (next: Option<Reply>)
    requires
        index < plan.steps.len(),
    ensures
        reply_view(next) == reply_after(plan@, index as int, succeeded),
{
    assert(plan@.steps[index as int] == plan.steps@[index as int]@);
    if !succeeded && plan.steps[index].required {
        Some(Reply::store_failure())
    } else if index + 1 < plan.steps.len() {
        None
    } else {
        Some(plan.reply.clone())
    }
}

/// The reply of a plan without a step, and nothing for a plan that has
/// steps to take first.
pub fn before_steps(plan: &Plan) -> (first: Option<Reply>)
    ensures
        reply_view(first) == if plan@.steps.len() == 0 {
            Some(plan@.reply)
        } else {
            None
        },
{
    if plan.steps.len() == 0 {
        Some(plan.reply.clone())
    } else {
        None
    }
}

/// The view of an optional reply.
pub open spec fn reply_view(reply: Option<Reply>) -> Option<ReplyView> {
    match reply {
        Some(r) => Some(r@),
        None => None,
    }
}

/// What is observed of an application's process: `STOPPED` for a record
/// without a process id; otherwise what the agent answered, or `UNKNOWN`
/// where it gave no usable answer.
pub open spec fn observed_status(pid: Option<i32>, answer: Option<Seq<char>>) -> Seq<char> {
    match pid {
        None => "STOPPED"@,
        Some(_) => match answer {
            Some(status) => status,
            None => "UNKNOWN"@,
        },
    }
}

/// The patch that sets the status and nothing else.
pub open spec fn status_patch(status: AppStatus) -> PatchView {
    PatchView { status: Some(status), ..PatchView::nothing() }
}

/// The plan for a live-status query, given what the agent answered about
/// the record's process. The reply shows the record with the observed
/// status. A record that is stored as `RUNNING` while its process is
/// observed as `STOPPED` is corrected to `STOPPED`; nothing else is ever
/// corrected, so an observation never makes a record `RUNNING`.
pub open spec fn live_status_plan(
    apps: Seq<ApplicationView>,
    id: u128,
    answer: Option<Seq<char>>,
) -> PlanView {
    match record_of(apps, id) {
        None => PlanView::reply_only(unknown_id()),
        Some(app) => {
            let observed = observed_status(app.pid, answer);
            PlanView {
                steps: if observed == "STOPPED"@ && app.status == AppStatus::RUNNING {
                    seq![
                        StepView::attempt(
                            StoreWriteView::Patch { id, patch: status_patch(AppStatus::STOPPED) },
                        ),
                    ]
                } else {
                    Seq::empty()
                },
                reply: ReplyView {
                    code: OK,
                    body: BodyView::LiveStatus(
                        LiveStatusView {
                            id,
                            name: app.name,
                            status: observed,
                            pid: app.pid,
                            port: app.port,
                            command: app.command,
                        },
                    ),
                },
            }
        },
    }
}

/// The process to ask the agent about for a live-status query: the one of
/// the record with the identifier, if the record is there and has one.
pub fn status_probe(store: &AppStore, id: u128) -> (pid: Option<i32>)
    ensures
        pid == match record_of(store@, id) {
            Some(app) => app.pid,
            None => None,
        },
{
    match get_application(store, id) {
        Ok(app) => app.pid,
        Err(_) => None,
    }
}

/// Plans the answer to a live-status query. `answer` is the status that
/// the agent gave for the record's process, if it gave one.
pub fn get_live_status(store: &AppStore, id: u128, answer: Option<&str>) -> (plan: Plan)
    ensures
        plan@ == live_status_plan(
            store@,
            id,
            match answer {
                Some(status) => Some(status@),
                None => None,
            },
        ),
{
    let app = match get_application(store, id) {
        Ok(app) => app,
        Err(_) => {
            return Plan::reply_only(not_found());
        },
    };
    let mut observed = String::new();
    match app.pid {
        None => push_text(&mut observed, "STOPPED"),
        Some(_) => match answer {
            Some(status) => push_text(&mut observed, status),
            None => push_text(&mut observed, "UNKNOWN"),
        },
    }
    let ghost answer_view = match answer {
        Some(status) => Some(status@),
        None => None,
    };
    assert(observed@ =~= observed_status(app@.pid, answer_view));
    let correct = same_text(observed.as_str(), "STOPPED") && matches!(
        app.status,
        AppStatus::RUNNING
    );
    let live = LiveStatus {
        id,
        name: app.name.clone(),
        status: observed,
        pid: app.pid,
        port: app.port,
        command: app.command.clone(),
    };
    let mut plan = Plan::reply_only(Reply { code: OK, body: Body::LiveStatus(live) });
    if correct {
        plan.add_step(
            Order::Store(
                StoreWrite::Patch { id, patch: PatchApplication::status_only(AppStatus::STOPPED) },
            ),
            false,
        );
    }
    assert(plan@.steps =~= live_status_plan(store@, id, answer_view).steps);
    plan
}

/// The port of a redeployed application: the new one where one is given,
/// cut to 32 bits, and the record's otherwise.
pub open spec fn redeployed_port(app: ApplicationView, new_port: Option<i64>) -> i32 {
    match new_port {
        Some(port) => port as i32,
        None => app.port,
    }
}

/// The patch that a redeployment stores: the status `PENDING`, and the new
/// port where one is given.
pub open spec fn redeploy_patch(new_port: Option<i64>) -> PatchView {
    PatchView {
        status: Some(AppStatus::PENDING),
        port: match new_port {
            Some(port) => Some(port as i32),
            None => None,
        },
        ..PatchView::nothing()
    }
}

/// The plan for a redeployment. If the record has a process, the agent is
/// told to end it, and a failure of that call is tolerated. Then the
/// process id is taken from the record, the record is set to `PENDING`
/// with the new port if one is given, and the agent is told to run the
/// application as it then stands.
pub open spec fn redeploy_plan(apps: Seq<ApplicationView>, id: u128, new_port: Option<i64>) -> PlanView {
    match record_of(apps, id) {
        None => PlanView::reply_only(unknown_id()),
        Some(app) => {
            let port = redeployed_port(app, new_port);
            let fresh = ApplicationView { port, pid: None, status: AppStatus::PENDING, ..app };
            let stop = match app.pid {
                Some(pid) => seq![StepView::call(AgentCallView::Stop { pid })],
                None => Seq::empty(),
            };
            PlanView {
                steps: stop + seq![
                    StepView::write(StoreWriteView::ClearPid { id }),
                    StepView::write(StoreWriteView::Patch { id, patch: redeploy_patch(new_port) }),
                    StepView::call(AgentCallView::Run(fresh)),
                ],
                reply: ReplyView { code: OK, body: BodyView::Redeployed { port, name: app.name } },
            }
        },
    }
}

/// Plans the redeployment of the record with the identifier, on
/// `new_port` if one is given.
pub fn redeploy_program(store: &AppStore, id: u128, new_port: Option<i64>) -> (plan: Plan)
    ensures
        plan@ == redeploy_plan(store@, id, new_port),
{
    let app = match get_application(store, id) {
        Ok(app) => app,
        Err(_) => {
            return Plan::reply_only(not_found());
        },
    };
    let mut patch = PatchApplication::status_only(AppStatus::PENDING);
    let mut fresh = app.clone();
    if let Some(port) = new_port {
        let cut: i32 = #[verifier::truncate] (port as i32);
        patch.port = Some(cut);
        fresh.port = cut;
    }
    fresh.pid = None;
    fresh.status = AppStatus::PENDING;
    let port = fresh.port;
    let mut plan = Plan::reply_only(
        Reply { code: OK, body: Body::Redeployed { port, name: app.name.clone() } },
    );
    if let Some(pid) = app.pid {
        plan.add_step(Order::Agent(AgentCall::Stop { pid }), false);
    }
    plan.add_step(Order::Store(StoreWrite::ClearPid { id }), true);
    plan.add_step(Order::Store(StoreWrite::Patch { id, patch }), true);
    plan.add_step(Order::Agent(AgentCall::Run(fresh)), false);
    assert(plan@.steps =~= redeploy_plan(store@, id, new_port).steps);
    plan
}

} // verus!
