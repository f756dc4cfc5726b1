use paas::app_handlers::{
    after_step, before_steps, stop_stale_apps, delete_program, get_live_status, get_program, get_programs, patch_program, post_program,
    redeploy_program, reply_deployed, run_order, status_probe, AgentCall, AgentOutcome,
    Deployment, Order, Plan, StoreWrite,
};
use paas::app_repo::{
    clear_pid, delete_application, get_application, get_applications, insert_application,
    is_port_in_use, mark_stale_apps_stopped, patch_application, patch_statement, AppStore,
    StoreError,
};
use paas::model::{AppStatus, Application, EnvVar, PatchApplication};
use paas::wire::{Body, Reply};

fn app(name: &str, port: i32) -> Application {
    Application {
        id: None,
        name: name.to_string(),
        command: "node server.js".to_string(),
        status: AppStatus::PENDING,
        port,
        working_dir: "/srv".to_string(),
        pid: None,
        env_vars: None,
    }
}

fn deploy(store: &mut AppStore, name: &str, port: i32, id: u128) -> bool {
    match post_program(store, &app(name, port)) {
        Deployment::Accepted(record) => {
            insert_application(store, &record, id).unwrap();
            true
        }
        Deployment::Rejected(_) => false,
    }
}

fn patch(store: &mut AppStore, id: u128, patch: PatchApplication) -> Plan {
    let plan = patch_program(store, id, &patch);
    store.carry_out(&plan);
    plan
}

fn running(pid: i32) -> PatchApplication {
    let mut p = PatchApplication::status_only(AppStatus::RUNNING);
    p.pid = Some(pid);
    p
}

fn text(reply: &Reply) -> &str {
    match &reply.body {
        Body::Text(t) => t.as_str(),
        other => panic!("no text body: {:?}", other),
    }
}

#[test]
fn new_record_is_pending_without_pid() {
    let store = AppStore::new();
    let mut spec = app("a", 3000);
    spec.status = AppStatus::RUNNING;
    spec.pid = Some(99);
    spec.id = Some(5);
    match post_program(&store, &spec) {
        Deployment::Accepted(record) => {
            assert_eq!(record.status, AppStatus::PENDING);
            assert_eq!(record.pid, None);
            assert_eq!(record.id, None);
            assert_eq!(record.name, "a");
            assert_eq!(record.port, 3000);
        }
        other => panic!("rejected: {:?}", other),
    }
}

#[test]
fn second_deploy_on_held_port_is_a_conflict() {
    let mut store = AppStore::new();
    assert!(deploy(&mut store, "a", 3000, 1));
    match post_program(&store, &app("b", 3000)) {
        Deployment::Rejected(reply) => {
            assert_eq!(reply.code, 409);
            assert_eq!(text(&reply), "Port 3000 is already in use by another running application");
        }
        other => panic!("accepted: {:?}", other),
    }
    assert!(deploy(&mut store, "c", 3001, 2));
    assert_eq!(store.len(), 2);
}

#[test]
fn running_application_holds_its_port() {
    let mut store = AppStore::new();
    assert!(deploy(&mut store, "a", 3000, 1));
    patch(&mut store, 1, running(10));
    assert!(is_port_in_use(&store, 3000));
    assert!(!deploy(&mut store, "b", 3000, 2));
}

#[test]
fn stopped_application_frees_its_port() {
    let mut store = AppStore::new();
    assert!(deploy(&mut store, "a", 3000, 1));
    patch(&mut store, 1, PatchApplication::status_only(AppStatus::STOPPED));
    assert!(!is_port_in_use(&store, 3000));
    assert!(deploy(&mut store, "b", 3000, 2));
}

#[test]
fn crashed_and_failed_applications_hold_their_port() {
    for status in [AppStatus::CRASHED, AppStatus::FAILED, AppStatus::PENDING, AppStatus::RUNNING] {
        let mut store = AppStore::new();
        assert!(deploy(&mut store, "a", 3000, 1));
        patch_application(&mut store, 1, &PatchApplication::status_only(status));
        assert!(is_port_in_use(&store, 3000));
        assert!(!is_port_in_use(&store, 3001));
    }
}

#[test]
fn negative_port_conflict_message_has_minus_sign() {
    let mut store = AppStore::new();
    assert!(deploy(&mut store, "a", -5, 1));
    match post_program(&store, &app("b", -5)) {
        Deployment::Rejected(reply) => assert_eq!(
            text(&reply),
            "Port -5 is already in use by another running application"
        ),
        other => panic!("accepted: {:?}", other),
    }
}

#[test]
fn duplicate_id_is_refused() {
    let mut store = AppStore::new();
    assert_eq!(insert_application(&mut store, &app("a", 1), 7), Ok(7));
    assert_eq!(insert_application(&mut store, &app("b", 2), 7), Err(StoreError::DuplicateId));
    assert_eq!(store.len(), 1);
}

#[test]
fn run_order_carries_the_identifier() {
    match run_order(&app("a", 3000), 77) {
        AgentCall::Run(sent) => {
            assert_eq!(sent.id, Some(77));
            assert_eq!(sent.pid, None);
            assert_eq!(sent.port, 3000);
        }
        other => panic!("unexpected call {:?}", other),
    }
}

#[test]
fn deployed_reply_depends_on_the_agent() {
    let ok = reply_deployed(9, 3000, AgentOutcome::Accepted);
    assert_eq!(ok.code, 200);
    assert!(matches!(ok.body, Body::Deployed { id: 9, port: 3000 }));
    let refused = reply_deployed(9, 3000, AgentOutcome::Refused);
    assert_eq!(refused.code, 500);
    assert_eq!(text(&refused), "Application saved but failed to start");
    let gone = reply_deployed(9, 3000, AgentOutcome::Unreachable);
    assert_eq!(gone.code, 500);
    assert_eq!(text(&gone), "Application saved but agent unavailable");
}

#[test]
fn patch_merges_only_supplied_fields() {
    let mut store = AppStore::new();
    deploy(&mut store, "a", 3000, 1);
    deploy(&mut store, "b", 3001, 2);
    let mut p = PatchApplication::empty();
    p.port = Some(4000);
    p.name = Some("renamed".to_string());
    patch_application(&mut store, 1, &p);
    let a = get_application(&store, 1).unwrap();
    assert_eq!(a.name, "renamed");
    assert_eq!(a.port, 4000);
    assert_eq!(a.command, "node server.js");
    assert_eq!(a.status, AppStatus::PENDING);
    assert_eq!(a.working_dir, "/srv");
    assert_eq!(a.pid, None);
    let b = get_application(&store, 2).unwrap();
    assert_eq!(b.name, "b");
    assert_eq!(b.port, 3001);
    let mut q = PatchApplication::empty();
    q.command = Some("x".to_string());
    q.working_dir = Some("/w".to_string());
    q.pid = Some(3);
    q.env_vars = Some(vec![EnvVar { key: "K".to_string(), value: Some("V".to_string()) }]);
    patch_application(&mut store, 1, &q);
    let a = get_application(&store, 1).unwrap();
    assert_eq!(a.command, "x");
    assert_eq!(a.working_dir, "/w");
    assert_eq!(a.pid, Some(3));
    assert_eq!(a.env_vars.unwrap()[0].key, "K");
    assert_eq!(a.name, "renamed");
}

#[test]
fn empty_patch_changes_nothing() {
    let mut store = AppStore::new();
    deploy(&mut store, "a", 3000, 1);
    assert!(PatchApplication::empty().is_empty());
    assert!(!PatchApplication::status_only(AppStatus::FAILED).is_empty());
    patch_application(&mut store, 1, &PatchApplication::empty());
    let a = get_application(&store, 1).unwrap();
    assert_eq!((a.name.as_str(), a.port, a.status), ("a", 3000, AppStatus::PENDING));
    patch_application(&mut store, 99, &PatchApplication::status_only(AppStatus::FAILED));
    assert_eq!(store.len(), 1);
}

#[test]
fn stop_is_stored_before_the_kill() {
    let mut store = AppStore::new();
    deploy(&mut store, "a", 3000, 1);
    patch(&mut store, 1, running(4242));
    let plan = patch_program(&store, 1, &PatchApplication::status_only(AppStatus::STOPPED));
    assert_eq!(plan.steps.len(), 2);
    match &plan.steps[0].order {
        Order::Store(StoreWrite::Patch { id, patch }) => {
            assert_eq!(*id, 1);
            assert_eq!(patch.status, Some(AppStatus::STOPPED));
        }
        other => panic!("unexpected first step {:?}", other),
    }
    assert!(plan.steps[0].required);
    assert!(matches!(plan.steps[1].order, Order::Agent(AgentCall::Stop { pid: 4242 })));
    assert!(!plan.steps[1].required);
    assert_eq!(plan.reply.code, 200);
    assert_eq!(
        text(&plan.reply),
        "Application Program ID = 00000000-0000-0000-0000-000000000001 stopped successfully"
    );
    store.carry_out(&plan);
    let a = get_application(&store, 1).unwrap();
    assert_eq!(a.status, AppStatus::STOPPED);
    assert_eq!(a.pid, Some(4242));
}

#[test]
fn stop_without_process_makes_no_call() {
    let mut store = AppStore::new();
    deploy(&mut store, "a", 3000, 1);
    let plan = patch_program(&store, 1, &PatchApplication::status_only(AppStatus::STOPPED));
    assert_eq!(plan.steps.len(), 1);
    assert!(matches!(plan.steps[0].order, Order::Store(_)));
}

#[test]
fn other_patches_are_confirmed_as_updates() {
    let mut store = AppStore::new();
    deploy(&mut store, "a", 3000, 1);
    let plan = patch(&mut store, 1, running(5));
    assert_eq!(plan.steps.len(), 1);
    assert_eq!(
        text(&plan.reply),
        "Application Program ID = 00000000-0000-0000-0000-000000000001 Information Successfully Updated"
    );
}

#[test]
fn patch_of_unknown_id_is_not_found() {
    let mut store = AppStore::new();
    deploy(&mut store, "a", 3000, 1);
    for patch in [PatchApplication::status_only(AppStatus::STOPPED), running(5), PatchApplication::empty()] {
        let missing = patch_program(&store, 50, &patch);
        assert!(missing.steps.is_empty());
        assert_eq!(missing.reply.code, 404);
        assert_eq!(text(&missing.reply), "Application not found");
        store.carry_out(&missing);
    }
    assert_eq!(store.len(), 1);
    assert_eq!(get_application(&store, 1).unwrap().status, AppStatus::PENDING);
}

#[test]
fn failed_required_step_ends_the_plan() {
    let mut store = AppStore::new();
    deploy(&mut store, "a", 3000, 1);
    patch(&mut store, 1, running(10));
    let stop = patch_program(&store, 1, &PatchApplication::status_only(AppStatus::STOPPED));
    assert!(before_steps(&stop).is_none());
    let failed = after_step(&stop, 0, false).unwrap();
    assert_eq!(failed.code, 500);
    assert!(matches!(failed.body, Body::Empty));
    assert!(after_step(&stop, 0, true).is_none());
    for stopped in [true, false] {
        let done = after_step(&stop, 1, stopped).unwrap();
        assert_eq!(done.code, 200);
        assert!(text(&done).ends_with("stopped successfully"));
    }
    let again = redeploy_program(&store, 1, None);
    assert!(after_step(&again, 0, false).is_none());
    assert_eq!(after_step(&again, 1, false).unwrap().code, 500);
    assert_eq!(after_step(&again, 2, false).unwrap().code, 500);
    assert!(after_step(&again, 2, true).is_none());
    assert_eq!(after_step(&again, 3, false).unwrap().code, 200);
    let missing = get_live_status(&store, 9, None);
    assert_eq!(before_steps(&missing).unwrap().code, 404);
}

#[test]
fn get_program_finds_or_reports_not_found() {
    let mut store = AppStore::new();
    deploy(&mut store, "a", 3000, 1);
    let found = get_program(&store, 1);
    assert_eq!(found.code, 200);
    match found.body {
        Body::Application(a) => assert_eq!(a.name, "a"),
        other => panic!("unexpected body {:?}", other),
    }
    let missing = get_program(&store, 2);
    assert_eq!(missing.code, 404);
    assert!(matches!(missing.body, Body::Empty));
    assert_eq!(get_application(&store, 2).unwrap_err(), StoreError::RowNotFound);
}

#[test]
fn get_programs_lists_all_in_order() {
    let mut store = AppStore::new();
    deploy(&mut store, "a", 3000, 1);
    deploy(&mut store, "b", 3001, 2);
    let reply = get_programs(&store);
    assert_eq!(reply.code, 200);
    match reply.body {
        Body::Applications(apps) => {
            assert_eq!(apps.len(), 2);
            assert_eq!(apps[0].name, "a");
            assert_eq!(apps[1].name, "b");
        }
        other => panic!("unexpected body {:?}", other),
    }
    assert_eq!(get_applications(&store).len(), 2);
}

#[test]
fn delete_removes_the_record() {
    let mut store = AppStore::new();
    deploy(&mut store, "a", 3000, 1);
    deploy(&mut store, "b", 3001, 2);
    let plan = delete_program(&store, 1);
    assert_eq!(plan.reply.code, 200);
    assert_eq!(text(&plan.reply), "Application 00000000-0000-0000-0000-000000000001 deleted");
    assert!(plan.steps[0].required);
    store.carry_out(&plan);
    assert_eq!(store.len(), 1);
    assert!(get_application(&store, 1).is_err());
    assert!(get_application(&store, 2).is_ok());
    delete_application(&mut store, 9);
    assert_eq!(store.len(), 1);
    let missing = delete_program(&store, 1);
    assert!(missing.steps.is_empty());
    assert_eq!(missing.reply.code, 404);
    assert_eq!(text(&missing.reply), "Application not found");
}

#[test]
fn live_status_corrects_running_to_stopped_only() {
    let mut store = AppStore::new();
    deploy(&mut store, "a", 3000, 1);
    patch(&mut store, 1, running(10));
    assert_eq!(status_probe(&store, 1), Some(10));
    let plan = get_live_status(&store, 1, Some("STOPPED"));
    assert_eq!(plan.steps.len(), 1);
    assert!(!plan.steps[0].required);
    match &plan.reply.body {
        Body::LiveStatus(live) => {
            assert_eq!(live.status, "STOPPED");
            assert_eq!(live.pid, Some(10));
            assert_eq!(live.port, 3000);
            assert_eq!(live.name, "a");
            assert_eq!(live.command, "node server.js");
            assert_eq!(live.id, 1);
        }
        other => panic!("unexpected body {:?}", other),
    }
    store.carry_out(&plan);
    assert_eq!(get_application(&store, 1).unwrap().status, AppStatus::STOPPED);
}

#[test]
fn live_probe_never_promotes_to_running() {
    let mut store = AppStore::new();
    deploy(&mut store, "a", 3000, 1);
    patch(&mut store, 1, running(10));
    patch(&mut store, 1, PatchApplication::status_only(AppStatus::STOPPED));
    let plan = get_live_status(&store, 1, Some("RUNNING"));
    assert!(plan.steps.is_empty());
    match &plan.reply.body {
        Body::LiveStatus(live) => assert_eq!(live.status, "RUNNING"),
        other => panic!("unexpected body {:?}", other),
    }
    store.carry_out(&plan);
    assert_eq!(get_application(&store, 1).unwrap().status, AppStatus::STOPPED);
}

#[test]
fn live_status_without_answer_is_unknown() {
    let mut store = AppStore::new();
    deploy(&mut store, "a", 3000, 1);
    patch(&mut store, 1, running(10));
    let plan = get_live_status(&store, 1, None);
    assert!(plan.steps.is_empty());
    match &plan.reply.body {
        Body::LiveStatus(live) => assert_eq!(live.status, "UNKNOWN"),
        other => panic!("unexpected body {:?}", other),
    }
}

#[test]
fn live_status_without_pid_is_stopped() {
    let mut store = AppStore::new();
    deploy(&mut store, "a", 3000, 1);
    assert_eq!(status_probe(&store, 1), None);
    let plan = get_live_status(&store, 1, Some("RUNNING"));
    assert!(plan.steps.is_empty());
    match &plan.reply.body {
        Body::LiveStatus(live) => assert_eq!(live.status, "STOPPED"),
        other => panic!("unexpected body {:?}", other),
    }
    let missing = get_live_status(&store, 3, None);
    assert_eq!(missing.reply.code, 404);
    assert_eq!(text(&missing.reply), "Application not found");
}

#[test]
fn redeploy_stops_clears_and_restarts() {
    let mut store = AppStore::new();
    deploy(&mut store, "a", 3000, 1);
    patch(&mut store, 1, running(10));
    let plan = redeploy_program(&store, 1, Some(4000));
    assert_eq!(plan.steps.len(), 4);
    assert!(matches!(plan.steps[0].order, Order::Agent(AgentCall::Stop { pid: 10 })));
    assert!(!plan.steps[0].required);
    assert!(matches!(plan.steps[1].order, Order::Store(StoreWrite::ClearPid { id: 1 })));
    assert!(plan.steps[1].required);
    match &plan.steps[2].order {
        Order::Store(StoreWrite::Patch { id: 1, patch }) => {
            assert_eq!(patch.status, Some(AppStatus::PENDING));
            assert_eq!(patch.port, Some(4000));
            assert!(patch.pid.is_none());
        }
        other => panic!("unexpected step {:?}", other),
    }
    assert!(plan.steps[2].required);
    match &plan.steps[3].order {
        Order::Agent(AgentCall::Run(sent)) => {
            assert_eq!(sent.port, 4000);
            assert_eq!(sent.pid, None);
            assert_eq!(sent.status, AppStatus::PENDING);
            assert_eq!(sent.id, Some(1));
        }
        other => panic!("unexpected step {:?}", other),
    }
    assert_eq!(plan.reply.code, 200);
    match &plan.reply.body {
        Body::Redeployed { port, name } => {
            assert_eq!(*port, 4000);
            assert_eq!(name, "a");
        }
        other => panic!("unexpected body {:?}", other),
    }
    store.carry_out(&plan);
    let a = get_application(&store, 1).unwrap();
    assert_eq!((a.pid, a.status, a.port), (None, AppStatus::PENDING, 4000));
}

#[test]
fn redeploy_without_port_keeps_the_port() {
    let mut store = AppStore::new();
    deploy(&mut store, "a", 3000, 1);
    let plan = redeploy_program(&store, 1, None);
    assert_eq!(plan.steps.len(), 3);
    store.carry_out(&plan);
    assert_eq!(get_application(&store, 1).unwrap().port, 3000);
    let missing = redeploy_program(&store, 8, None);
    assert_eq!(missing.reply.code, 404);
    assert!(missing.steps.is_empty());
}

#[test]
fn redeploy_port_is_cut_to_32_bits() {
    let mut store = AppStore::new();
    deploy(&mut store, "a", 3000, 1);
    let plan = redeploy_program(&store, 1, Some(4_294_967_296 + 8080));
    match &plan.reply.body {
        Body::Redeployed { port, .. } => assert_eq!(*port, 8080),
        other => panic!("unexpected body {:?}", other),
    }
}

#[test]
fn startup_marks_everything_stopped() {
    let mut store = AppStore::new();
    deploy(&mut store, "a", 3000, 1);
    deploy(&mut store, "b", 3001, 2);
    deploy(&mut store, "c", 3002, 3);
    patch(&mut store, 1, running(10));
    patch(&mut store, 2, PatchApplication::status_only(AppStatus::STOPPED));
    assert_eq!(mark_stale_apps_stopped(&mut store), 2);
    for app in get_applications(&store) {
        assert_eq!(app.status, AppStatus::STOPPED);
    }
    assert_eq!(get_application(&store, 1).unwrap().pid, Some(10));
    assert_eq!(mark_stale_apps_stopped(&mut store), 0);
}

#[test]
fn clear_pid_takes_only_the_pid() {
    let mut store = AppStore::new();
    deploy(&mut store, "a", 3000, 1);
    patch(&mut store, 1, running(10));
    clear_pid(&mut store, 1);
    let a = get_application(&store, 1).unwrap();
    assert_eq!(a.pid, None);
    assert_eq!(a.status, AppStatus::RUNNING);
}

#[test]
fn patch_statement_names_supplied_columns_in_order() {
    assert_eq!(patch_statement(&PatchApplication::empty()), None);
    assert_eq!(
        patch_statement(&PatchApplication::status_only(AppStatus::STOPPED)).unwrap(),
        "UPDATE apps SET status = $1 WHERE id =$2"
    );
    let mut p = PatchApplication::empty();
    p.name = Some("n".to_string());
    p.command = Some("c".to_string());
    p.status = Some(AppStatus::RUNNING);
    p.port = Some(1);
    p.working_dir = Some("w".to_string());
    p.pid = Some(2);
    p.env_vars = Some(vec![]);
    assert_eq!(
        patch_statement(&p).unwrap(),
        "UPDATE apps SET name = $1, command = $2, status = $3, port = $4, working_dir = $5, pid = $6, env_vars = $7 WHERE id =$8"
    );
    let mut q = PatchApplication::empty();
    q.port = Some(1);
    q.pid = Some(2);
    assert_eq!(patch_statement(&q).unwrap(), "UPDATE apps SET port = $1, pid = $2 WHERE id =$3");
}

#[test]
fn store_from_rows_keeps_the_rows() {
    let mut a = app("a", 1);
    a.id = Some(5);
    let store = AppStore::from_rows(vec![a]);
    assert_eq!(store.len(), 1);
    assert_eq!(get_application(&store, 5).unwrap().name, "a");
}

#[test]
fn start_plans_a_stop_for_each_live_record() {
    let mut store = AppStore::new();
    deploy(&mut store, "a", 3000, 1);
    deploy(&mut store, "b", 3001, 2);
    deploy(&mut store, "c", 3002, 3);
    patch(&mut store, 1, running(10));
    patch(&mut store, 2, PatchApplication::status_only(AppStatus::STOPPED));
    let writes = stop_stale_apps(&store);
    assert_eq!(writes.len(), 2);
    let ids: Vec<u128> = writes
        .iter()
        .map(|w| match w {
            StoreWrite::Patch { id, patch } => {
                assert_eq!(patch.status, Some(AppStatus::STOPPED));
                assert!(patch.pid.is_none() && patch.port.is_none() && patch.name.is_none());
                *id
            }
            other => panic!("unexpected write {:?}", other),
        })
        .collect();
    assert_eq!(ids, vec![1, 3]);
    for order in &writes {
        store.write(order);
    }
    for app in get_applications(&store) {
        assert_eq!(app.status, AppStatus::STOPPED);
    }
    assert_eq!(get_application(&store, 1).unwrap().pid, Some(10));
    assert!(stop_stale_apps(&store).is_empty());
}
