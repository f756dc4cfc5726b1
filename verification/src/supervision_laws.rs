//! What holds of every supervision, whatever the agent observes.

use crate::model::AppStatus;
use crate::supervisor::{
    after_line, agent_log, giving_up_notice, initial, is_restart_notice, next,
    reports_in, reports_pid_iff_running, restart_notice, restart_notices_in, run, spawns_in,
    status_report, ActionView, Event, OutputReader, Phase, Supervision, MAX_RETRIES,
};
use vstd::prelude::*;

verus! {

/// The line that gives up is no restart notice.
pub proof fn lemma_giving_up_is_no_restart_notice(app_id: u128)
    ensures
        !is_restart_notice(ActionView::Log(agent_log(app_id, giving_up_notice())), app_id),
{
    reveal_strlit("[PaaS] App crashed. Restarting... (attempt ");
    reveal_strlit("[PaaS] App crashed after ");
    assert forall|attempt: nat| restart_notice(attempt) != giving_up_notice() by {
        assert(restart_notice(attempt)[18] == '.');
        assert(giving_up_notice()[18] == ' ');
    }
}

/// Counting spawns in two lists of actions, one after the other, adds up.
pub proof fn lemma_spawns_add(a: Seq<ActionView>, b: Seq<ActionView>)
    ensures
        spawns_in(a + b) == spawns_in(a) + spawns_in(b),
    decreases b.len(),
{
    if b.len() == 0 {
        assert(a + b == a);
    } else {
        assert((a + b).drop_last() == a + b.drop_last());
        assert((a + b).last() == b.last());
        lemma_spawns_add(a, b.drop_last());
    }
}

/// Counting restart notices in two lists of actions, one after the other,
/// adds up.
pub proof fn lemma_restart_notices_add(a: Seq<ActionView>, b: Seq<ActionView>, app_id: u128)
    ensures
        restart_notices_in(a + b, app_id) == restart_notices_in(a, app_id) + restart_notices_in(
            b,
            app_id,
        ),
    decreases b.len(),
{
    if b.len() == 0 {
        assert(a + b == a);
    } else {
        assert((a + b).drop_last() == a + b.drop_last());
        assert((a + b).last() == b.last());
        lemma_restart_notices_add(a, b.drop_last(), app_id);
    }
}

/// Counting the reports of a status in two lists of actions, one after the
/// other, adds up.
pub proof fn lemma_reports_add(a: Seq<ActionView>, b: Seq<ActionView>, status: AppStatus)
    ensures
        reports_in(a + b, status) == reports_in(a, status) + reports_in(b, status),
    decreases b.len(),
{
    if b.len() == 0 {
        assert(a + b == a);
    } else {
        assert((a + b).drop_last() == a + b.drop_last());
        assert((a + b).last() == b.last());
        lemma_reports_add(a, b.drop_last(), status);
    }
}

/// What one step adds to the counts: a spawn exactly when a delay ends
/// with attempts left; a restart notice exactly when a process fails with
/// attempts left; a report of `STOPPED` exactly on a clean exit; a report
/// of `CRASHED` exactly when a spawn fails or a process fails with no
/// attempt left.
pub proof fn lemma_step_counts(state: Supervision, event: Event)
    ensures
        spawns_in(next(state, event).1) == if state.phase == Phase::BackingOff && event
            == Event::BackoffElapsed && state.attempt < MAX_RETRIES {
            1nat
        } else {
            0nat
        },
        restart_notices_in(next(state, event).1, state.app_id) == if state.phase == Phase::Running
            && event == (Event::Exited { clean: false }) && state.attempt < MAX_RETRIES {
            1nat
        } else {
            0nat
        },
        reports_in(next(state, event).1, AppStatus::STOPPED) == if state.phase == Phase::Running
            && event == (Event::Exited { clean: true }) {
            1nat
        } else {
            0nat
        },
        reports_in(next(state, event).1, AppStatus::CRASHED) == if (state.phase == Phase::Spawning
            && event == Event::SpawnFailed) || (state.phase == Phase::Running && event == (
            Event::Exited { clean: false }
        ) && state.attempt >= MAX_RETRIES) {
            1nat
        } else {
            0nat
        },
        reports_pid_iff_running(next(state, event).1),
        next(state, event).0.app_id == state.app_id,
{
    let actions = next(state, event).1;
    reveal_with_fuel(spawns_in, 6);
    reveal_with_fuel(restart_notices_in, 6);
    reveal_with_fuel(reports_in, 6);
    lemma_giving_up_is_no_restart_notice(state.app_id);
    if state.phase == Phase::Running && event == (Event::Exited { clean: false }) {
        if state.attempt < MAX_RETRIES {
            let notice = ActionView::Log(
                agent_log(state.app_id, restart_notice((state.attempt + 1) as nat)),
            );
            assert(actions.drop_last().last() == notice);
            assert(is_restart_notice(notice, state.app_id));
            assert(!is_restart_notice(actions.last(), state.app_id));
        } else {
            assert(!is_restart_notice(actions.last(), state.app_id));
            assert(actions.drop_last().last() == ActionView::Log(
                agent_log(state.app_id, giving_up_notice()),
            ));
        }
    } else {
        assert forall|i: int| 0 <= i < actions.len() implies !is_restart_notice(
            #[trigger] actions[i],
            state.app_id,
        ) by {}
        if actions.len() > 0 {
            assert(actions.last() == actions[actions.len() - 1]);
            if actions.len() > 1 {
                assert(actions.drop_last().last() == actions[actions.len() - 2]);
                if actions.len() > 2 {
                    assert(actions.drop_last().drop_last().last() == actions[actions.len() - 3]);
                    if actions.len() > 3 {
                        assert(actions.drop_last().drop_last().drop_last().last()
                            == actions[actions.len() - 4]);
                    }
                }
            }
        }
    }
}

/// A run over two lists of events, one after the other, is the run over
/// the first followed by the run over the second from where the first
/// ended.
pub proof fn lemma_run_append(state: Supervision, first: Seq<Event>, second: Seq<Event>)
    ensures
        run(state, first + second) == (
            run(run(state, first).0, second).0,
            run(state, first).1 + run(run(state, first).0, second).1,
        ),
    decreases second.len(),
{
    let middle = run(state, first);
    if second.len() == 0 {
        assert(first + second == first);
        assert(middle.1 + Seq::<ActionView>::empty() == middle.1);
    } else {
        assert((first + second).drop_last() == first + second.drop_last());
        assert((first + second).last() == second.last());
        lemma_run_append(state, first, second.drop_last());
        let before = run(middle.0, second.drop_last());
        let last = next(before.0, second.last());
        assert((middle.1 + before.1) + last.1 == middle.1 + (before.1 + last.1));
    }
}

/// A supervision that is over stays over and asks for nothing more,
/// whatever is observed.
pub proof fn lemma_finished_is_final(state: Supervision, events: Seq<Event>)
    requires
        state.phase == Phase::Finished,
    ensures
        run(state, events) == (state, Seq::<ActionView>::empty()),
    decreases events.len(),
{
    if events.len() > 0 {
        lemma_finished_is_final(state, events.drop_last());
        assert(Seq::<ActionView>::empty() + Seq::<ActionView>::empty() == Seq::<
            ActionView,
        >::empty());
    }
}

/// What holds of a supervision and of all the actions it has asked for,
/// the first spawn included, after any run of events.
pub open spec fn well_run(app_id: u128, state: Supervision, actions: Seq<ActionView>) -> bool {
    &&& state.app_id == app_id
    &&& 1 <= state.attempt <= MAX_RETRIES
    &&& spawns_in(actions) == state.attempt
    &&& restart_notices_in(actions, app_id) == state.attempt - 1 + if state.phase
        == Phase::BackingOff {
        1int
    } else {
        0int
    }
    &&& reports_in(actions, AppStatus::STOPPED) + reports_in(actions, AppStatus::CRASHED) == if state.phase
        == Phase::Finished {
        1int
    } else {
        0int
    }
    &&& reports_pid_iff_running(actions)
}

/// Whatever the agent observes, in whatever order: the number of spawns
/// asked for equals the attempt counter and never exceeds the bound; the
/// number of restart notices is one less, or the same while a delay runs;
/// a final status (`STOPPED` or `CRASHED`) has been reported exactly once
/// if the supervision is over and never before; and every report carries a
/// process id exactly when it sets the status `RUNNING`.
pub proof fn law_supervision_is_well_run(app_id: u128, events: Seq<Event>)
    ensures
        well_run(
            app_id,
            run(initial(app_id), events).0,
            seq![ActionView::Spawn] + run(initial(app_id), events).1,
        ),
    decreases events.len(),
{
    let first = seq![ActionView::Spawn];
    reveal_with_fuel(spawns_in, 2);
    reveal_with_fuel(restart_notices_in, 2);
    reveal_with_fuel(reports_in, 2);
    if events.len() == 0 {
        assert(first + Seq::<ActionView>::empty() == first);
        assert(first.drop_last() =~= Seq::<ActionView>::empty());
        assert(!is_restart_notice(first.last(), app_id));
    } else {
        law_supervision_is_well_run(app_id, events.drop_last());
        let before = run(initial(app_id), events.drop_last());
        let last = next(before.0, events.last());
        let old_all = first + before.1;
        lemma_step_counts(before.0, events.last());
        lemma_spawns_add(old_all, last.1);
        lemma_restart_notices_add(old_all, last.1, app_id);
        lemma_reports_add(old_all, last.1, AppStatus::STOPPED);
        lemma_reports_add(old_all, last.1, AppStatus::CRASHED);
        assert(first + (before.1 + last.1) == old_all + last.1);
        assert(reports_pid_iff_running(old_all + last.1)) by {
            assert forall|i: int| 0 <= i < (old_all + last.1).len() implies (#[trigger] (old_all
                + last.1)[i] matches ActionView::Report(patch)
                ==> crate::supervisor::pid_iff_running(patch)) by {
                if i < old_all.len() {
                    assert((old_all + last.1)[i] == old_all[i]);
                } else {
                    assert((old_all + last.1)[i] == last.1[i - old_all.len()]);
                }
            }
        }
    }
}

/// The events hold no failed spawn and no clean exit: whenever the process
/// ends, it has failed.
pub open spec fn only_failures(events: Seq<Event>) -> bool {
    forall|i: int|
        0 <= i < events.len() ==> #[trigger] events[i] != Event::SpawnFailed && events[i] != (
            Event::Exited { clean: true }
        )
}

/// Where every spawn succeeds and every exit is a failure, a supervision
/// that is over has used up its attempts and has given up last of all.
proof fn lemma_failures_end_crashed(app_id: u128, events: Seq<Event>)
    requires
        only_failures(events),
    ensures
        ({
            let end = run(initial(app_id), events);
            end.0.phase == Phase::Finished ==> end.0.attempt == MAX_RETRIES && end.1.len() > 0
                && end.1.last() == ActionView::Report(status_report(AppStatus::CRASHED))
                && reports_in(end.1, AppStatus::STOPPED) == 0
        }),
        reports_in(run(initial(app_id), events).1, AppStatus::STOPPED) == 0,
    decreases events.len(),
{
    if events.len() > 0 {
        let front = events.drop_last();
        assert(only_failures(front)) by {
            assert forall|i: int| 0 <= i < front.len() implies #[trigger] front[i]
                != Event::SpawnFailed && front[i] != (Event::Exited { clean: true }) by {
                assert(front[i] == events[i]);
            }
        }
        lemma_failures_end_crashed(app_id, front);
        law_supervision_is_well_run(app_id, front);
        let before = run(initial(app_id), front);
        let last = next(before.0, events.last());
        assert(events.last() == events[events.len() - 1]);
        lemma_step_counts(before.0, events.last());
        lemma_reports_add(before.1, last.1, AppStatus::STOPPED);
        if before.0.phase == Phase::Finished {
            assert(before.1 + last.1 == before.1);
        } else if last.0.phase == Phase::Finished {
            assert((before.1 + last.1).last() == last.1.last());
        }
    }
}

/// A process that fails every time it runs is spawned exactly as often as
/// the bound allows, is announced to restart one time less, and is then
/// reported as `CRASHED`, once and last of all.
///
/// Stated of every run of events that holds no failed spawn and no clean
/// exit and after which the supervision is over.
pub proof fn law_repeated_failure_ends_crashed(app_id: u128, events: Seq<Event>)
    requires
        only_failures(events),
        run(initial(app_id), events).0.phase == Phase::Finished,
    ensures
        ({
            let actions = seq![ActionView::Spawn] + run(initial(app_id), events).1;
            &&& spawns_in(actions) == 3
            &&& restart_notices_in(actions, app_id) == 2
            &&& reports_in(actions, AppStatus::CRASHED) == 1
            &&& reports_in(actions, AppStatus::STOPPED) == 0
            &&& actions.last() == ActionView::Report(status_report(AppStatus::CRASHED))
        }),
{
    let first = seq![ActionView::Spawn];
    let end = run(initial(app_id), events);
    law_supervision_is_well_run(app_id, events);
    lemma_failures_end_crashed(app_id, events);
    lemma_reports_add(first, end.1, AppStatus::STOPPED);
    reveal_with_fuel(reports_in, 2);
    assert(first.drop_last() =~= Seq::<ActionView>::empty());
    assert((first + end.1).last() == end.1.last());
}

/// A clean exit never leads to a restart, and `STOPPED` is reported exactly
/// once: after a process that runs has ended with code 0, whatever was
/// observed before and whatever is observed afterwards, no spawn is asked
/// for beyond those asked for before, the only action is the one report of
/// `STOPPED`, and the supervision is over.
pub proof fn law_clean_exit_stops_once(app_id: u128, before: Seq<Event>, after: Seq<Event>)
    requires
        run(initial(app_id), before).0.phase == Phase::Running,
    ensures
        ({
            let start = run(initial(app_id), before);
            let end = run(initial(app_id), before + seq![Event::Exited { clean: true }] + after);
            &&& end.0.phase == Phase::Finished
            &&& end.1 == start.1 + seq![ActionView::Report(status_report(AppStatus::STOPPED))]
            &&& spawns_in(end.1) == spawns_in(start.1)
            &&& reports_in(seq![ActionView::Spawn] + end.1, AppStatus::STOPPED) == 1
            &&& reports_in(seq![ActionView::Spawn] + end.1, AppStatus::CRASHED) == 0
        }),
{
    let exit = seq![Event::Exited { clean: true }];
    let start = run(initial(app_id), before);
    let stop = seq![ActionView::Report(status_report(AppStatus::STOPPED))];
    lemma_run_append(initial(app_id), before, exit);
    assert(exit.drop_last() =~= Seq::<Event>::empty());
    assert(run(start.0, exit.drop_last()) == (start.0, Seq::<ActionView>::empty()));
    assert(run(start.0, exit) == (next(start.0, exit.last()).0, Seq::<ActionView>::empty() + stop));
    assert(Seq::<ActionView>::empty() + stop == stop);
    lemma_run_append(initial(app_id), before + exit, after);
    let stopped = run(initial(app_id), before + exit);
    lemma_finished_is_final(stopped.0, after);
    assert(stopped.1 + Seq::<ActionView>::empty() == stopped.1);
    lemma_spawns_add(start.1, stop);
    reveal_with_fuel(spawns_in, 2);
    assert(stop.drop_last() =~= Seq::<ActionView>::empty());
    law_supervision_is_well_run(app_id, before + exit + after);
    law_supervision_is_well_run(app_id, before);
    let all = seq![ActionView::Spawn] + run(initial(app_id), before + exit + after).1;
    lemma_reports_add(seq![ActionView::Spawn] + start.1, stop, AppStatus::STOPPED);
    lemma_reports_add(seq![ActionView::Spawn] + start.1, stop, AppStatus::CRASHED);
    reveal_with_fuel(reports_in, 2);
    assert(all == (seq![ActionView::Spawn] + start.1) + stop);
}

/// Every report that a step asks for carries a process id exactly when it
/// sets the status `RUNNING`: a process id is handed to the registry only
/// together with `RUNNING`, and `RUNNING` only together with a process id.
pub proof fn law_pid_reported_iff_running(state: Supervision, event: Event)
    ensures
        reports_pid_iff_running(next(state, event).1),
{
    lemma_step_counts(state, event);
}

/// The same holds of what an output reader reports: a port, and so neither
/// a process id nor a status.
pub proof fn law_reader_reports_no_pid(reader: OutputReader, line: Seq<char>, port: Option<i32>)
    ensures
        reports_pid_iff_running(after_line(reader, line, port).1),
{
}

/// A reader reports a port at most once: once it has seen one, no line
/// makes it report another.
pub proof fn law_port_reported_once(reader: OutputReader, line: Seq<char>, port: Option<i32>)
    ensures
        after_line(reader, line, port).0.port_seen == (reader.port_seen || port is Some),
        reader.port_seen ==> after_line(reader, line, port).1.len() == 1 && after_line(
            reader,
            line,
            port,
        ).1[0] is Log,
{
}

} // verus!
