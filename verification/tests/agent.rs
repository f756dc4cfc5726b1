use paas::agent::{
    check_status, is_alive, kill_command, probe_command, run_program, stop_program, stop_reply,
    ProbeOutcome, StopDecision,
};
use paas::launch::Platform;
use paas::model::{AppStatus, Application};
use paas::supervisor::{Action, Phase};
use paas::wire::Body;

fn outcome(tool_started: bool, succeeded: bool, output: &str) -> ProbeOutcome {
    ProbeOutcome { tool_started, succeeded, output: output.to_string() }
}

fn app(id: Option<u128>, command: &str) -> Application {
    Application {
        id,
        name: "n".to_string(),
        command: command.to_string(),
        status: AppStatus::PENDING,
        port: 1,
        working_dir: ".".to_string(),
        pid: None,
        env_vars: None,
    }
}

#[test]
fn kill_commands_by_platform() {
    let unix = kill_command(4242, Platform::Unix);
    assert_eq!(unix.program, "kill");
    assert_eq!(unix.args, vec!["-9", "4242"]);
    let windows = kill_command(4242, Platform::Windows);
    assert_eq!(windows.program, "taskkill");
    assert_eq!(windows.args, vec!["/PID", "4242", "/F", "/T"]);
    assert_eq!(kill_command(0, Platform::Unix).args, vec!["-9", "0"]);
    assert_eq!(kill_command(u32::MAX, Platform::Unix).args, vec!["-9", "4294967295"]);
}

#[test]
fn probe_commands_by_platform() {
    let unix = probe_command(7, Platform::Unix);
    assert_eq!(unix.program, "kill");
    assert_eq!(unix.args, vec!["-0", "7"]);
    let windows = probe_command(7, Platform::Windows);
    assert_eq!(windows.program, "tasklist");
    assert_eq!(windows.args, vec!["/FI", "PID eq 7", "/NH"]);
}

#[test]
fn stop_without_pid_is_a_bad_request() {
    match stop_program(None, Platform::Unix) {
        StopDecision::Rejected(reply) => {
            assert_eq!(reply.code, 400);
            match reply.body {
                Body::Text(t) => assert_eq!(t, "Missing pid"),
                other => panic!("unexpected body {:?}", other),
            }
        }
        other => panic!("unexpected decision {:?}", other),
    }
}

#[test]
fn stop_with_pid_kills_by_force() {
    match stop_program(Some(31337), Platform::Unix) {
        StopDecision::Kill(call) => assert_eq!(call.args, vec!["-9", "31337"]),
        other => panic!("unexpected decision {:?}", other),
    }
    match stop_program(Some(-1), Platform::Unix) {
        StopDecision::Kill(call) => assert_eq!(call.args, vec!["-9", "4294967295"]),
        other => panic!("unexpected decision {:?}", other),
    }
}

#[test]
fn stop_reply_tolerates_dead_processes() {
    assert_eq!(stop_reply(true).code, 200);
    assert_eq!(stop_reply(false).code, 500);
}

#[test]
fn liveness_by_platform() {
    assert!(is_alive(5, Platform::Unix, &outcome(true, true, "")));
    assert!(!is_alive(5, Platform::Unix, &outcome(true, false, "5")));
    assert!(!is_alive(5, Platform::Unix, &outcome(false, true, "")));
    assert!(is_alive(512, Platform::Windows, &outcome(true, false, "node.exe   512 Console")));
    assert!(!is_alive(512, Platform::Windows, &outcome(true, true, "INFO: No tasks")));
    assert!(!is_alive(512, Platform::Windows, &outcome(false, true, "512")));
}

#[test]
fn status_reply_names_running_or_stopped() {
    let alive = check_status(true);
    assert_eq!(alive.code, 200);
    assert!(matches!(alive.body, Body::ProcessStatus(AppStatus::RUNNING)));
    assert!(matches!(check_status(false).body, Body::ProcessStatus(AppStatus::STOPPED)));
}

#[test]
fn run_is_accepted_at_once() {
    let decision = run_program(&app(Some(8), "node x.js"));
    assert_eq!(decision.reply.code, 200);
    let (state, actions) = decision.supervision.unwrap();
    assert_eq!((state.app_id, state.attempt, state.phase), (8, 1, Phase::Spawning));
    assert!(matches!(actions[0], Action::Spawn));
}

#[test]
fn run_without_command_or_id_starts_nothing() {
    let empty = run_program(&app(Some(8), "  "));
    assert_eq!(empty.reply.code, 200);
    assert!(empty.supervision.is_none());
    assert!(run_program(&app(None, "node x.js")).supervision.is_none());
}
