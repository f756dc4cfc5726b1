use paas::model::AppStatus;
use paas::supervisor::{
    Action, Event, OutputReader, Phase, Stream, Supervision, MAX_RETRIES, RESTART_DELAY_SECONDS,
};

fn spawns(actions: &[Action]) -> usize {
    actions.iter().filter(|a| matches!(a, Action::Spawn)).count()
}

fn restart_notices(actions: &[Action]) -> usize {
    actions
        .iter()
        .filter(|a| match a {
            Action::Log(log) => log.message.starts_with("[PaaS] App crashed. Restarting..."),
            _ => false,
        })
        .count()
}

fn status_reports(actions: &[Action], status: AppStatus) -> usize {
    actions
        .iter()
        .filter(|a| match a {
            Action::Report(patch) => patch.status == Some(status) && patch.pid.is_none(),
            _ => false,
        })
        .count()
}

fn run(events: &[Event]) -> (Supervision, Vec<Action>) {
    let (mut state, mut all) = Supervision::start(7);
    for event in events {
        let (next, mut actions) = state.step(*event);
        state = next;
        all.append(&mut actions);
    }
    (state, all)
}

#[test]
fn supervision_starts_with_first_spawn() {
    let (state, actions) = Supervision::start(42);
    assert_eq!(state, Supervision { app_id: 42, attempt: 1, phase: Phase::Spawning });
    assert_eq!(actions.len(), 1);
    assert!(matches!(actions[0], Action::Spawn));
    assert!(!state.is_finished());
}

#[test]
fn spawn_failure_is_crashed_without_retry() {
    let (state, all) = run(&[Event::SpawnFailed]);
    assert_eq!(state.phase, Phase::Finished);
    assert_eq!(state.attempt, 1);
    assert_eq!(spawns(&all), 1);
    assert_eq!(status_reports(&all, AppStatus::CRASHED), 1);
    assert_eq!(all.len(), 2);
}

#[test]
fn spawn_success_reports_running_with_pid_before_reading() {
    let (state, actions) = Supervision::start(7).0.step(Event::Spawned { pid: Some(1234) });
    assert_eq!(state.phase, Phase::Running);
    assert_eq!(actions.len(), 4);
    assert!(matches!(actions[0], Action::BindLifetime { pid: 1234 }));
    match &actions[1] {
        Action::Report(patch) => {
            assert_eq!(patch.pid, Some(1234));
            assert_eq!(patch.status, Some(AppStatus::RUNNING));
            assert!(patch.name.is_none() && patch.port.is_none());
        }
        other => panic!("unexpected action {:?}", other),
    }
    assert!(matches!(actions[2], Action::ReadOutput));
    assert!(matches!(actions[3], Action::AwaitExit));
}

#[test]
fn missing_pid_is_reported_as_zero() {
    let (_, actions) = Supervision::start(7).0.step(Event::Spawned { pid: None });
    assert!(matches!(actions[0], Action::BindLifetime { pid: 0 }));
    match &actions[1] {
        Action::Report(patch) => assert_eq!(patch.pid, Some(0)),
        other => panic!("unexpected action {:?}", other),
    }
}

#[test]
fn clean_exit_reports_stopped_once_and_never_restarts() {
    let (state, all) = run(&[
        Event::Spawned { pid: Some(10) },
        Event::Exited { clean: true },
        Event::BackoffElapsed,
        Event::Exited { clean: false },
        Event::Spawned { pid: Some(11) },
    ]);
    assert_eq!(state.phase, Phase::Finished);
    assert_eq!(spawns(&all), 1);
    assert_eq!(restart_notices(&all), 0);
    assert_eq!(status_reports(&all, AppStatus::STOPPED), 1);
    assert_eq!(status_reports(&all, AppStatus::CRASHED), 0);
}

#[test]
fn three_failures_give_three_spawns_two_notices_and_crashed() {
    let (state, all) = run(&[
        Event::Spawned { pid: Some(1) },
        Event::Exited { clean: false },
        Event::BackoffElapsed,
        Event::Spawned { pid: Some(2) },
        Event::Exited { clean: false },
        Event::BackoffElapsed,
        Event::Spawned { pid: Some(3) },
        Event::Exited { clean: false },
    ]);
    assert_eq!(state.phase, Phase::Finished);
    assert_eq!(state.attempt, 3);
    assert_eq!(spawns(&all), 3);
    assert_eq!(restart_notices(&all), 2);
    assert_eq!(status_reports(&all, AppStatus::CRASHED), 1);
    assert_eq!(status_reports(&all, AppStatus::STOPPED), 0);
    match all.last() {
        Some(Action::Report(patch)) => assert_eq!(patch.status, Some(AppStatus::CRASHED)),
        other => panic!("unexpected last action {:?}", other),
    }
}

#[test]
fn restart_notice_and_delay_have_the_documented_form() {
    let (state, _) = Supervision::start(9).0.step(Event::Spawned { pid: Some(5) });
    let (state, actions) = state.step(Event::Exited { clean: false });
    assert_eq!(state.phase, Phase::BackingOff);
    assert_eq!(state.attempt, 1);
    assert_eq!(actions.len(), 2);
    match &actions[0] {
        Action::Log(log) => {
            assert_eq!(log.app_id, 9);
            assert_eq!(log.stream, "stderr");
            assert_eq!(log.message, "[PaaS] App crashed. Restarting... (attempt 2/3)");
        }
        other => panic!("unexpected action {:?}", other),
    }
    assert!(matches!(actions[1], Action::Sleep { seconds: 2 }));
    assert_eq!(RESTART_DELAY_SECONDS, 2);
    assert_eq!(MAX_RETRIES, 3);
    let (state, actions) = state.step(Event::BackoffElapsed);
    assert_eq!(state.phase, Phase::Spawning);
    assert_eq!(state.attempt, 2);
    assert!(matches!(actions[0], Action::Spawn));
}

#[test]
fn giving_up_line_has_the_documented_form() {
    let state = Supervision { app_id: 3, attempt: 3, phase: Phase::Running };
    let (state, actions) = state.step(Event::Exited { clean: false });
    assert!(state.is_finished());
    match &actions[0] {
        Action::Log(log) => {
            assert_eq!(log.message, "[PaaS] App crashed after 3 attempts. Giving up.")
        }
        other => panic!("unexpected action {:?}", other),
    }
}

#[test]
fn unexpected_events_change_nothing() {
    let (start, _) = Supervision::start(1);
    for event in [Event::Exited { clean: true }, Event::Exited { clean: false }, Event::BackoffElapsed] {
        let (state, actions) = start.step(event);
        assert_eq!(state, start);
        assert!(actions.is_empty());
    }
    let done = Supervision { app_id: 1, attempt: 2, phase: Phase::Finished };
    for event in [Event::SpawnFailed, Event::Spawned { pid: Some(1) }, Event::BackoffElapsed] {
        let (state, actions) = done.step(event);
        assert_eq!(state, done);
        assert!(actions.is_empty());
    }
}

#[test]
fn every_report_has_pid_iff_running() {
    let (_, all) = run(&[
        Event::Spawned { pid: Some(1) },
        Event::Exited { clean: false },
        Event::BackoffElapsed,
        Event::SpawnFailed,
    ]);
    for action in &all {
        if let Action::Report(patch) = action {
            assert_eq!(patch.pid.is_some(), patch.status == Some(AppStatus::RUNNING));
        }
    }
}

#[test]
fn reader_reports_first_port_only() {
    let mut reader = OutputReader::new(5, Stream::Stdout);
    let first = reader.on_line("compiling...");
    assert_eq!(first.len(), 1);
    assert!(!reader.port_seen);
    let second = reader.on_line("Server listening on http://localhost:4321");
    assert_eq!(second.len(), 2);
    match &second[0] {
        Action::Report(patch) => {
            assert_eq!(patch.port, Some(4321));
            assert!(patch.pid.is_none() && patch.status.is_none());
        }
        other => panic!("unexpected action {:?}", other),
    }
    match &second[1] {
        Action::Log(log) => {
            assert_eq!(log.app_id, 5);
            assert_eq!(log.stream, "stdout");
            assert_eq!(log.message, "Server listening on http://localhost:4321");
        }
        other => panic!("unexpected action {:?}", other),
    }
    assert!(reader.port_seen);
    let third = reader.on_line("Server listening on http://localhost:5555");
    assert_eq!(third.len(), 1);
    assert!(matches!(third[0], Action::Log(_)));
}

#[test]
fn reader_logs_under_its_stream() {
    let mut reader = OutputReader::new(5, Stream::Stderr);
    let actions = reader.record_line("boom", None);
    match &actions[0] {
        Action::Log(log) => assert_eq!(log.stream, "stderr"),
        other => panic!("unexpected action {:?}", other),
    }
    assert_eq!(Stream::Stdout.as_str(), "stdout");
    assert_eq!(Stream::Stderr.as_str(), "stderr");
}
