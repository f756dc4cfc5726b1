//! What holds of the registry's decisions, whatever the records are.

use crate::app_handlers::{
    after_steps, after_writes, delete_plan, deployment, live_status_plan, new_record, patch_plan,
    redeploy_patch, redeploy_plan, redeployed_port, reply_after, stale_writes, status_patch,
    steps_taken,
    unknown_id, AgentCallView, DeploymentView, PlanView, StepView, StoreWriteView,
};
use crate::app_repo::{
    all_stopped, patched, pid_cleared, port_held, record_of, stored_form, well_formed,
};
use crate::model::{AppStatus, ApplicationView, PatchView};
use crate::wire::{ReplyView, CONFLICT, NOT_FOUND, OK};
use vstd::prelude::*;

verus! {

/// A deployment on a port that an application holds which is not stopped
/// is rejected as a conflict, and no other deployment is rejected. So a
/// second deployment on the port of a first one, stored a moment ago and
/// still pending, is rejected; and a port that only stopped applications
/// have is free.
pub proof fn law_port_conflict(
    apps: Seq<ApplicationView>,
    first: ApplicationView,
    id: u128,
    second: ApplicationView,
)
    ensures
        deployment(apps, second) is Rejected <==> port_held(apps, second.port),
        deployment(apps, second) matches DeploymentView::Rejected(reply) ==> reply.code == CONFLICT,
        deployment(apps, second) matches DeploymentView::Accepted(record) ==> record.status
            == AppStatus::PENDING && record.pid is None,
        second.port == first.port ==> deployment(
            apps.push(stored_form(new_record(first), id)),
            second,
        ) is Rejected,
        (forall|i: int|
            0 <= i < apps.len() && (#[trigger] apps[i]).port == second.port ==> apps[i].status
                == AppStatus::STOPPED) ==> deployment(apps, second) is Accepted,
{
    let stored = apps.push(stored_form(new_record(first), id));
    if second.port == first.port {
        assert(stored[apps.len() as int].holds(second.port));
    }
}

/// Once an application is stopped its port is free again, unless another
/// application holds it.
pub proof fn law_stopped_frees_port(apps: Seq<ApplicationView>, id: u128, port: i32)
    requires
        forall|i: int|
            0 <= i < apps.len() && (#[trigger] apps[i]).holds(port) ==> apps[i].id == Some(id),
    ensures
        !port_held(patched(apps, id, status_patch(AppStatus::STOPPED)), port),
{
    let after = patched(apps, id, status_patch(AppStatus::STOPPED));
    assert forall|i: int| 0 <= i < after.len() implies !(#[trigger] after[i]).holds(port) by {
        if apps[i].holds(port) {
        }
    }
}

/// After a patch, the first record with the identifier is the patched form
/// of the one that was the first before.
pub proof fn lemma_record_after_patch(apps: Seq<ApplicationView>, id: u128, patch: PatchView)
    ensures
        record_of(patched(apps, id, patch), id) == match record_of(apps, id) {
            Some(app) => Some(patch.applied_to(app)),
            None => None,
        },
    decreases apps.len(),
{
    if apps.len() > 0 {
        if apps[0].id != Some(id) {
            lemma_record_after_patch(apps.drop_first(), id, patch);
            assert(patched(apps, id, patch).drop_first() == patched(apps.drop_first(), id, patch));
        }
    }
}

/// After the process id was taken away, the first record with the
/// identifier is the one that was the first before, without process id.
pub proof fn lemma_record_after_clearing(apps: Seq<ApplicationView>, id: u128)
    ensures
        record_of(pid_cleared(apps, id), id) == match record_of(apps, id) {
            Some(app) => Some(ApplicationView { pid: None, ..app }),
            None => None,
        },
    decreases apps.len(),
{
    if apps.len() > 0 {
        if apps[0].id != Some(id) {
            lemma_record_after_clearing(apps.drop_first(), id);
            assert(pid_cleared(apps, id).drop_first() == pid_cleared(apps.drop_first(), id));
        }
    }
}

/// Stop ordering. When `STOPPED` is asked for on a record that is there,
/// the first step of the plan stores it, and that step must succeed; a
/// call to the agent comes only after it, and may fail without effect: the
/// reply is fixed before the call is made. Once the first step is taken the
/// record is stored as `STOPPED`. Where the first step fails, the plan ends
/// at once with the reply of a store failure, so that no process is ended
/// whose record was not stored as `STOPPED`; whether the call to the agent
/// succeeds or fails, the plan ends after it with its reply.
pub proof fn law_stop_is_stored_before_kill(
    apps: Seq<ApplicationView>,
    id: u128,
    patch: PatchView,
    outcomes: Seq<bool>,
    stopped: bool,
)
    requires
        patch.status == Some(AppStatus::STOPPED),
        record_of(apps, id) is Some,
    ensures
        ({
            let app = record_of(apps, id)->0;
            let plan = patch_plan(apps, id, patch);
            &&& plan.steps.len() >= 1
            &&& plan.steps[0] == StepView::write(StoreWriteView::Patch { id, patch })
            &&& forall|k: int|
                0 <= k < plan.steps.len() && (#[trigger] plan.steps[k]).order is Agent ==> k > 0
                    && !plan.steps[k].required
            &&& plan.reply.code == OK
            &&& record_of(after_steps(apps, plan.steps.take(1)), id) matches Some(stored)
                && stored.status == AppStatus::STOPPED
            &&& reply_after(plan, 0, false) == Some(ReplyView::store_failure())
            &&& outcomes.len() > 0 && !outcomes[0] ==> steps_taken(plan, outcomes, 0) == 1
            &&& app.pid matches Some(pid) ==> {
                &&& plan.steps == seq![plan.steps[0], StepView::call(AgentCallView::Stop { pid })]
                &&& reply_after(plan, 0, true) is None
                &&& reply_after(plan, 1, stopped) == Some(plan.reply)
            }
            &&& app.pid is None ==> reply_after(plan, 0, true) == Some(plan.reply)
        }),
{
    let plan = patch_plan(apps, id, patch);
    let first = plan.steps.take(1);
    assert(first.drop_last() =~= Seq::<StepView>::empty());
    assert(first.last() == plan.steps[0]);
    assert(after_steps(apps, first.drop_last()) == apps);
    assert(after_steps(apps, first) == patched(apps, id, patch));
    lemma_record_after_patch(apps, id, patch);
}

/// A request that names an identifier which no record has is answered as
/// not found, whether it asks to patch, to delete, to redeploy or for the
/// live status: the plan has no step, so nothing is written and the agent
/// is not called.
pub proof fn law_unknown_id_is_not_found(
    apps: Seq<ApplicationView>,
    id: u128,
    patch: PatchView,
    answer: Option<Seq<char>>,
    new_port: Option<i64>,
)
    requires
        record_of(apps, id) is None,
    ensures
        patch_plan(apps, id, patch) == PlanView::reply_only(unknown_id()),
        delete_plan(apps, id) == PlanView::reply_only(unknown_id()),
        redeploy_plan(apps, id, new_port) == PlanView::reply_only(unknown_id()),
        live_status_plan(apps, id, answer) == PlanView::reply_only(unknown_id()),
        unknown_id().code == NOT_FOUND,
        after_steps(apps, PlanView::reply_only(unknown_id()).steps) == apps,
{
}

/// Every step of a plan up to the first required one that fails is taken,
/// and none after it: a plan ends with the reply of a store failure
/// exactly at that step, and with its own reply after its last step
/// otherwise.
pub proof fn law_plan_ends_at_failed_write(plan: PlanView, outcomes: Seq<bool>, from: int)
    requires
        0 <= from <= plan.steps.len(),
        outcomes.len() == plan.steps.len(),
    ensures
        from <= steps_taken(plan, outcomes, from) <= plan.steps.len(),
        forall|k: int|
            from <= k < steps_taken(plan, outcomes, from) - 1 ==> reply_after(
                plan,
                k,
                #[trigger] outcomes[k],
            ) is None,
        from < plan.steps.len() ==> {
            let last = steps_taken(plan, outcomes, from) - 1;
            &&& from <= last
            &&& reply_after(plan, last, outcomes[last]) is Some
            &&& reply_after(plan, last, outcomes[last]) == if !outcomes[last]
                && plan.steps[last].required {
                Some(ReplyView::store_failure())
            } else {
                Some(plan.reply)
            }
        },
    decreases plan.steps.len() - from,
{
    if from < plan.steps.len() && !(!outcomes[from] && plan.steps[from].required) {
        law_plan_ends_at_failed_write(plan, outcomes, from + 1);
        if from + 1 == plan.steps.len() {
            assert(steps_taken(plan, outcomes, from + 1) == plan.steps.len());
        }
    }
}

/// Redeployment. For a record with a process, the plan is: tell the agent
/// to end the process; take the process id from the record; store
/// `PENDING`, with the new port if one is given; tell the agent to run the
/// application. Only the two writes must succeed. After the plan the record
/// is pending, has no process id and has the port that the agent was told
/// to run the application on, and the reply reports success with that port.
pub proof fn law_redeploy_restarts(apps: Seq<ApplicationView>, id: u128, new_port: Option<i64>)
    requires
        record_of(apps, id) is Some,
    ensures
        ({
            let app = record_of(apps, id)->0;
            let plan = redeploy_plan(apps, id, new_port);
            let port = redeployed_port(app, new_port);
            let fresh = ApplicationView { port, pid: None, status: AppStatus::PENDING, ..app };
            let restart = seq![
                StepView::write(StoreWriteView::ClearPid { id }),
                StepView::write(StoreWriteView::Patch { id, patch: redeploy_patch(new_port) }),
                StepView::call(AgentCallView::Run(fresh)),
            ];
            &&& plan.steps == match app.pid {
                Some(pid) => seq![StepView::call(AgentCallView::Stop { pid })] + restart,
                None => restart,
            }
            &&& record_of(after_steps(apps, plan.steps), id) == Some(fresh)
            &&& plan.reply.code == OK
        }),
{
    let app = record_of(apps, id)->0;
    let plan = redeploy_plan(apps, id, new_port);
    let steps = plan.steps;
    let n = steps.len() as int;
    let s3 = steps;
    let s2 = s3.drop_last();
    let s1 = s2.drop_last();
    let s0 = s1.drop_last();
    assert(after_steps(apps, s0) == apps) by {
        if app.pid is Some {
            assert(s0.drop_last() =~= Seq::<StepView>::empty());
            assert(after_steps(apps, s0.drop_last()) == apps);
        } else {
            assert(s0 =~= Seq::<StepView>::empty());
        }
    }
    assert(s1.last() == StepView::write(StoreWriteView::ClearPid { id }));
    assert(s2.last() == StepView::write(
        StoreWriteView::Patch { id, patch: redeploy_patch(new_port) },
    ));
    assert(after_steps(apps, s1) == pid_cleared(apps, id));
    assert(after_steps(apps, s2) == patched(pid_cleared(apps, id), id, redeploy_patch(new_port)));
    assert(after_steps(apps, s3) == after_steps(apps, s2));
    lemma_record_after_clearing(apps, id);
    lemma_record_after_patch(pid_cleared(apps, id), id, redeploy_patch(new_port));
    if app.pid is None {
        assert(Seq::<StepView>::empty() + steps =~= steps);
    }
}

/// Every record that is `RUNNING` has a process id.
pub open spec fn running_have_pids(apps: Seq<ApplicationView>) -> bool {
    forall|i: int| 0 <= i < apps.len() ==> (#[trigger] apps[i]).running_has_pid()
}

/// A patch that sets `RUNNING` brings a process id with it.
pub open spec fn running_brings_pid(patch: PatchView) -> bool {
    patch.status == Some(AppStatus::RUNNING) ==> patch.pid is Some
}

/// The registry never makes a record `RUNNING` without a process id: if
/// every record that is `RUNNING` has one, this is still so after a
/// deployment is stored, after a patch that brings a process id whenever
/// it sets `RUNNING` (as every report of the node agent does), after the
/// plan for such a patch, after the correction of a live-status query,
/// after a redeployment, and after all records were marked as stopped.
pub proof fn law_running_keeps_pid(
    apps: Seq<ApplicationView>,
    app: ApplicationView,
    id: u128,
    patch: PatchView,
    answer: Option<Seq<char>>,
    new_port: Option<i64>,
)
    requires
        running_have_pids(apps),
        running_brings_pid(patch),
    ensures
        running_have_pids(apps.push(stored_form(new_record(app), id))),
        running_have_pids(patched(apps, id, patch)),
        running_have_pids(after_steps(apps, patch_plan(apps, id, patch).steps)),
        running_have_pids(after_steps(apps, live_status_plan(apps, id, answer).steps)),
        running_have_pids(after_steps(apps, redeploy_plan(apps, id, new_port).steps)),
        running_have_pids(all_stopped(apps)),
{
    reveal_with_fuel(after_steps, 6);
    let plain = patch_plan(apps, id, patch).steps;
    assert(running_have_pids(after_steps(apps, plain))) by {
        if record_of(apps, id) is None {
            assert(plain =~= Seq::<StepView>::empty());
        } else {
            if plain.len() == 1 {
                assert(plain.drop_last() =~= Seq::<StepView>::empty());
            } else {
                assert(plain.drop_last().drop_last() =~= Seq::<StepView>::empty());
            }
            assert(after_steps(apps, plain) == patched(apps, id, patch));
        }
    }
    let live = live_status_plan(apps, id, answer).steps;
    assert(running_have_pids(after_steps(apps, live))) by {
        if live.len() == 1 {
            assert(live.drop_last() =~= Seq::<StepView>::empty());
            assert(after_steps(apps, live) == patched(apps, id, status_patch(AppStatus::STOPPED)));
        } else {
            assert(live =~= Seq::<StepView>::empty());
        }
    }
    let again = redeploy_plan(apps, id, new_port).steps;
    assert(running_have_pids(after_steps(apps, again))) by {
        match record_of(apps, id) {
            None => {
                assert(again =~= Seq::<StepView>::empty());
            },
            Some(found) => {
                let s2 = again.drop_last();
                let s1 = s2.drop_last();
                let s0 = s1.drop_last();
                assert(after_steps(apps, s0) == apps) by {
                    if found.pid is Some {
                        assert(s0.drop_last() =~= Seq::<StepView>::empty());
                    } else {
                        assert(s0 =~= Seq::<StepView>::empty());
                    }
                }
                assert(after_steps(apps, again) == patched(
                    pid_cleared(apps, id),
                    id,
                    redeploy_patch(new_port),
                ));
            },
        }
    }
}

/// The first `upto` records marked as stopped, the others as they are.
pub open spec fn stopped_upto(apps: Seq<ApplicationView>, upto: int) -> Seq<ApplicationView> {
    Seq::new(
        apps.len(),
        |i: int|
            if i < upto {
                ApplicationView { status: AppStatus::STOPPED, ..apps[i] }
            } else {
                apps[i]
            },
    )
}

/// The writes planned for the first `upto` records mark exactly these as
/// stopped.
pub proof fn lemma_stale_writes_upto(apps: Seq<ApplicationView>, upto: int)
    requires
        well_formed(apps),
        0 <= upto <= apps.len(),
    ensures
        after_writes(apps, stale_writes(apps.take(upto))) == stopped_upto(apps, upto),
    decreases upto,
{
    if upto == 0 {
        assert(apps.take(0) =~= Seq::<ApplicationView>::empty());
        assert(stopped_upto(apps, 0) =~= apps);
    } else {
        lemma_stale_writes_upto(apps, upto - 1);
        let shorter = apps.take(upto - 1);
        let longer = apps.take(upto);
        assert(longer.drop_last() == shorter);
        assert(longer.last() == apps[upto - 1]);
        let before = stopped_upto(apps, upto - 1);
        let record = apps[upto - 1];
        let id = record.id->0;
        if record.status != AppStatus::STOPPED {
            let writes = stale_writes(longer);
            assert(writes.drop_last() =~= stale_writes(shorter));
            let after = patched(before, id, status_patch(AppStatus::STOPPED));
            assert(after =~= stopped_upto(apps, upto)) by {
                assert forall|i: int| 0 <= i < apps.len() implies after[i] == stopped_upto(
                    apps,
                    upto,
                )[i] by {
                    if i != upto - 1 {
                        assert(apps[i].id != apps[upto - 1].id);
                    }
                }
            }
        } else {
            assert(stopped_upto(apps, upto) =~= before);
        }
    }
}

/// Start of the registry. In a store in which every record has an
/// identifier of its own, the writes planned for the start leave every
/// record stopped and change nothing else; where every record is stopped
/// already, nothing is written.
pub proof fn law_start_stops_all(apps: Seq<ApplicationView>)
    requires
        well_formed(apps),
    ensures
        after_writes(apps, stale_writes(apps)) == all_stopped(apps),
        crate::app_repo::live_count(apps) == 0 ==> stale_writes(apps).len() == 0,
{
    lemma_stale_writes_upto(apps, apps.len() as int);
    assert(apps.take(apps.len() as int) == apps);
    assert(stopped_upto(apps, apps.len() as int) =~= all_stopped(apps));
    lemma_none_live(apps);
}

/// Where no record is counted as live, every record is stopped and the
/// start plans no write.
pub proof fn lemma_none_live(apps: Seq<ApplicationView>)
    ensures
        crate::app_repo::live_count(apps) == 0 ==> stale_writes(apps).len() == 0,
    decreases apps.len(),
{
    reveal(Seq::filter);
    if apps.len() > 0 {
        lemma_none_live(apps.drop_last());
    }
}

} // verus!
