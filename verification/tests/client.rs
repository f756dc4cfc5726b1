use paas::cli::{parse_cli, read_subcommand, Cli, Commands};
use paas::client::{
    app_url, check_status, deploy_outcome, deploy_project, deployed, logs_since_url, logs_url,
    next_cursor, print_log, read_answer, redeploy_project, show_logs, stop_application, Answer,
    DeployOutcome, DeployStep, LogsStep, StopStep,
};
use paas::ids::{id_to_string, parse_id};
use paas::init::{
    command_for, config_content, detect_go_command, detect_runtime, init_project, InitPlan,
    PaasConfig, ProjectFiles, Runtime, DEFAULT_PORT,
};
use paas::model::{AppStatus, Application};

const BASE: &str = "http://127.0.0.1:8080";
const ID: u128 = 0xa1a2a3a4_b1b2_c1c2_d1d2_d3d4d5d6d7d8;

fn args(words: &[&str]) -> Vec<String> {
    words.iter().map(|w| w.to_string()).collect()
}

fn files() -> ProjectFiles {
    ProjectFiles {
        package_json: false,
        cargo_toml: false,
        pyproject_toml: false,
        requirements_txt: false,
        go_mod: false,
        main_go: false,
        cmd_entry: None,
        paas_toml: false,
    }
}

fn config(id: Option<u128>, port: Option<i32>) -> PaasConfig {
    PaasConfig {
        name: "shop".to_string(),
        runtime: "node".to_string(),
        command: "npm run dev".to_string(),
        port,
        id,
    }
}

#[test]
fn identifier_is_written_hyphenated_in_lower_case() {
    assert_eq!(id_to_string(ID), "a1a2a3a4-b1b2-c1c2-d1d2-d3d4d5d6d7d8");
    assert_eq!(id_to_string(0), "00000000-0000-0000-0000-000000000000");
    assert_eq!(id_to_string(u128::MAX), "ffffffff-ffff-ffff-ffff-ffffffffffff");
    assert_eq!(id_to_string(0x0123456789abcdef_0123456789abcdef), "01234567-89ab-cdef-0123-456789abcdef");
}

#[test]
fn identifier_is_read_in_several_forms() {
    assert_eq!(parse_id("a1a2a3a4-b1b2-c1c2-d1d2-d3d4d5d6d7d8"), Some(ID));
    assert_eq!(parse_id("A1A2A3A4B1B2C1C2D1D2D3D4D5D6D7D8"), Some(ID));
    assert_eq!(parse_id("urn:uuid:a1a2a3a4-b1b2-c1c2-d1d2-d3d4d5d6d7d8"), Some(ID));
    assert_eq!(parse_id(""), None);
    assert_eq!(parse_id("a1a2a3a4"), None);
    assert_eq!(parse_id("shop"), None);
}

#[test]
fn subcommands_are_parsed() {
    assert_eq!(parse_cli(&args(&["init"])), Some(Cli { command: Commands::Init }));
    assert_eq!(parse_cli(&args(&["deploy"])), Some(Cli { command: Commands::Deploy }));
    assert_eq!(parse_cli(&args(&["redeploy"])), Some(Cli { command: Commands::Redeploy }));
    assert_eq!(parse_cli(&args(&["status"])), Some(Cli { command: Commands::Status }));
    assert_eq!(parse_cli(&args(&["stop"])), Some(Cli { command: Commands::Stop }));
    assert_eq!(parse_cli(&args(&["logs"])), Some(Cli { command: Commands::Logs { follow: false } }));
    assert_eq!(
        parse_cli(&args(&["logs", "--follow"])),
        Some(Cli { command: Commands::Logs { follow: true } })
    );
    assert_eq!(
        parse_cli(&args(&["logs", "-f"])),
        Some(Cli { command: Commands::Logs { follow: true } })
    );
}

#[test]
fn other_command_lines_are_refused() {
    assert_eq!(parse_cli(&args(&[])), None);
    assert_eq!(parse_cli(&args(&["Init"])), None);
    assert_eq!(parse_cli(&args(&["start"])), None);
    assert_eq!(parse_cli(&args(&["stop", "--follow"])), None);
    assert_eq!(parse_cli(&args(&["logs", "--tail"])), None);
    assert_eq!(parse_cli(&args(&["logs", "-f", "-f"])), None);
    assert_eq!(read_subcommand("logs"), Some(Commands::Logs { follow: false }));
    assert_eq!(read_subcommand(""), None);
}

#[test]
fn runtime_is_detected_in_order() {
    assert_eq!(detect_runtime(&files()), Runtime::Unknown);
    let mut f = files();
    f.go_mod = true;
    assert_eq!(detect_runtime(&f), Runtime::Go);
    f.requirements_txt = true;
    assert_eq!(detect_runtime(&f), Runtime::Python);
    f.requirements_txt = false;
    f.pyproject_toml = true;
    assert_eq!(detect_runtime(&f), Runtime::Python);
    f.cargo_toml = true;
    assert_eq!(detect_runtime(&f), Runtime::Rust);
    f.package_json = true;
    assert_eq!(detect_runtime(&f), Runtime::Node);
}

#[test]
fn default_commands_by_runtime() {
    let f = files();
    assert_eq!(command_for(Runtime::Node, &f).unwrap(), "npm run dev");
    assert_eq!(command_for(Runtime::Rust, &f).unwrap(), "cargo run");
    assert_eq!(command_for(Runtime::Python, &f).unwrap(), "python main.py");
    assert_eq!(command_for(Runtime::Go, &f), None);
    assert_eq!(command_for(Runtime::Unknown, &f), None);
}

#[test]
fn go_command_prefers_main_file() {
    let mut f = files();
    assert_eq!(detect_go_command(&f), None);
    f.cmd_entry = Some("server".to_string());
    assert_eq!(detect_go_command(&f).unwrap(), "go run ./cmd/server/...");
    f.main_go = true;
    assert_eq!(detect_go_command(&f).unwrap(), "go run main.go");
}

#[test]
fn config_file_content() {
    assert_eq!(
        config_content("shop", Runtime::Node, "npm run dev"),
        "name = \"shop\"\nruntime = \"node\"\ncommand = \"npm run dev\"\nport = 3000\n"
    );
}

#[test]
fn init_plans() {
    assert!(matches!(init_project(&files(), "shop", None), InitPlan::UnknownProject));
    assert!(matches!(init_project(&files(), "shop", Some("x")), InitPlan::UnknownProject));
    let mut go = files();
    go.go_mod = true;
    assert!(matches!(
        init_project(&go, "shop", None),
        InitPlan::AskCommand { runtime: Runtime::Go }
    ));
    match init_project(&go, "shop", Some("go run .")) {
        InitPlan::Ready { runtime, command, content, write } => {
            assert_eq!(runtime, Runtime::Go);
            assert_eq!(command, "go run .");
            assert_eq!(
                content,
                "name = \"shop\"\nruntime = \"go\"\ncommand = \"go run .\"\nport = 3000\n"
            );
            assert!(write);
        }
        other => panic!("unexpected plan {:?}", other),
    }
    let mut node = files();
    node.package_json = true;
    node.paas_toml = true;
    match init_project(&node, "shop", Some("ignored")) {
        InitPlan::Ready { runtime, command, write, .. } => {
            assert_eq!(runtime, Runtime::Node);
            assert_eq!(command, "npm run dev");
            assert!(!write);
        }
        other => panic!("unexpected plan {:?}", other),
    }
}

#[test]
fn deploy_sends_pending_app_with_default_port() {
    match deploy_project(&config(None, None), "/home/me/shop") {
        DeployStep::Send(app) => {
            assert_eq!(app.id, None);
            assert_eq!(app.name, "shop");
            assert_eq!(app.command, "npm run dev");
            assert_eq!(app.status, AppStatus::PENDING);
            assert_eq!(app.port, 3000);
            assert_eq!(app.working_dir, "/home/me/shop");
            assert_eq!(app.pid, None);
            assert!(app.env_vars.is_none());
        }
        other => panic!("unexpected step {:?}", other),
    }
    match deploy_project(&config(None, Some(8080)), ".") {
        DeployStep::Send(app) => assert_eq!(app.port, 8080),
        other => panic!("unexpected step {:?}", other),
    }
    assert!(matches!(
        deploy_project(&config(Some(ID), None), "."),
        DeployStep::AlreadyDeployed { id: ID }
    ));
    assert_eq!(DEFAULT_PORT, 3000);
}

#[test]
fn deploy_outcomes() {
    match deploy_outcome(200, "a1a2a3a4-b1b2-c1c2-d1d2-d3d4d5d6d7d8") {
        DeployOutcome::Deployed { id, config_line } => {
            assert_eq!(id, ID);
            assert_eq!(config_line, "\nid = \"a1a2a3a4-b1b2-c1c2-d1d2-d3d4d5d6d7d8\"\n");
        }
        other => panic!("unexpected outcome {:?}", other),
    }
    assert!(matches!(deploy_outcome(200, ""), DeployOutcome::UnreadableId));
    assert!(matches!(deploy_outcome(409, ""), DeployOutcome::Conflict));
    assert!(matches!(deploy_outcome(500, "x"), DeployOutcome::Failed { code: 500 }));
    assert!(matches!(deployed(201, None), DeployOutcome::UnreadableId));
    assert!(matches!(deployed(404, Some(1)), DeployOutcome::Failed { code: 404 }));
}

#[test]
fn addresses() {
    assert_eq!(
        app_url(BASE, ID, "/status"),
        "http://127.0.0.1:8080/apps/a1a2a3a4-b1b2-c1c2-d1d2-d3d4d5d6d7d8/status"
    );
    assert_eq!(
        logs_url(BASE, ID, 100),
        "http://127.0.0.1:8080/apps/a1a2a3a4-b1b2-c1c2-d1d2-d3d4d5d6d7d8/logs?limit=100"
    );
    assert_eq!(
        logs_since_url(BASE, ID, "2024-01-02T03:04:05.678+00:00"),
        "http://127.0.0.1:8080/apps/a1a2a3a4-b1b2-c1c2-d1d2-d3d4d5d6d7d8/logs?since=2024-01-02T03%3A04%3A05.678%2B00%3A00"
    );
    assert_eq!(
        logs_since_url("b", 0, "a b~_-.\u{e9}"),
        "b/apps/00000000-0000-0000-0000-000000000000/logs?since=a%20b~_-.%C3%A9"
    );
}

#[test]
fn show_logs_needs_a_deployed_project() {
    assert!(matches!(show_logs(BASE, None, true), LogsStep::NotDeployed));
    match show_logs(BASE, Some(ID), true) {
        LogsStep::Fetch { url, follow } => {
            assert!(follow);
            assert!(url.ends_with("/logs?limit=100"));
        }
        other => panic!("unexpected step {:?}", other),
    }
}

#[test]
fn log_lines_are_marked_by_stream() {
    assert_eq!(print_log("t0", "stderr", "boom"), "t0 [ERR] boom");
    assert_eq!(print_log("t0", "stdout", "ok"), "t0 [OUT] ok");
    assert_eq!(print_log("t0", "other", ""), "t0 [OUT] ");
}

#[test]
fn cursor_moves_to_last_received() {
    let received = vec!["t1".to_string(), "t2".to_string()];
    assert_eq!(next_cursor("t0".to_string(), &received), "t2");
    assert_eq!(next_cursor("t0".to_string(), &vec![]), "t0");
}

#[test]
fn redeploy_port_defaults_and_is_cut() {
    assert_eq!(redeploy_project(None), 3000);
    assert_eq!(redeploy_project(Some(8080)), 8080);
    assert_eq!(redeploy_project(Some(4_294_967_296 + 1)), 1);
}

#[test]
fn only_running_applications_are_stopped() {
    assert!(matches!(stop_application(AppStatus::STOPPED), StopStep::AlreadyStopped));
    for status in [AppStatus::PENDING, AppStatus::FAILED, AppStatus::CRASHED] {
        assert!(matches!(stop_application(status), StopStep::NotRunning));
    }
    match stop_application(AppStatus::RUNNING) {
        StopStep::Send(patch) => {
            assert_eq!(patch.status, Some(AppStatus::STOPPED));
            assert!(patch.pid.is_none() && patch.name.is_none() && patch.port.is_none());
        }
        other => panic!("unexpected step {:?}", other),
    }
}

#[test]
fn answers_are_sorted() {
    assert_eq!(read_answer(200), Answer::Success);
    assert_eq!(read_answer(204), Answer::Success);
    assert_eq!(read_answer(404), Answer::NotFound);
    assert_eq!(read_answer(500), Answer::ServerError);
    assert_eq!(read_answer(409), Answer::Other);
    assert_eq!(read_answer(302), Answer::Other);
}

#[test]
fn status_report_text() {
    let app = Application {
        id: Some(ID),
        name: "shop".to_string(),
        command: "npm run dev".to_string(),
        status: AppStatus::RUNNING,
        port: 3000,
        working_dir: "/w".to_string(),
        pid: Some(1),
        env_vars: None,
    };
    assert_eq!(
        check_status(&app),
        "Application: shop\nId: \"a1a2a3a4-b1b2-c1c2-d1d2-d3d4d5d6d7d8\"\nStatus: RUNNING\nPort: 3000\nCommand: npm run dev"
    );
    let mut unknown = app.clone();
    unknown.id = None;
    unknown.status = AppStatus::CRASHED;
    unknown.port = -1;
    assert_eq!(
        check_status(&unknown),
        "Application: shop\nId: \"unknown\"\nStatus: CRASHED\nPort: -1\nCommand: npm run dev"
    );
}
