use paas::model::{AppStatus, Application, EnvVar, PatchApplication};
use paas::text::{
    chars_of, contains_word, find, push_decimal, push_signed_decimal, rfind_char, same_text,
    split_words, string_of,
};
use paas::wire::{not_found, port_conflict, Body, Reply};

fn chars(s: &str) -> Vec<char> {
    s.chars().collect()
}

#[test]
fn status_names_round_trip() {
    for status in [
        AppStatus::PENDING,
        AppStatus::RUNNING,
        AppStatus::STOPPED,
        AppStatus::FAILED,
        AppStatus::CRASHED,
    ] {
        assert_eq!(AppStatus::from_name(status.as_str()), Some(status));
        assert_eq!(status.is_holding_port(), status != AppStatus::STOPPED);
    }
    assert_eq!(AppStatus::RUNNING.as_str(), "RUNNING");
    assert_eq!(AppStatus::from_name("running"), None);
    assert_eq!(AppStatus::from_name(""), None);
}

#[test]
fn clones_keep_every_field() {
    let app = Application {
        id: Some(3),
        name: "n".to_string(),
        command: "c".to_string(),
        status: AppStatus::FAILED,
        port: 9,
        working_dir: "w".to_string(),
        pid: Some(4),
        env_vars: Some(vec![EnvVar { key: "k".to_string(), value: None }]),
    };
    let copy = app.clone();
    assert_eq!(copy.id, Some(3));
    assert_eq!(copy.name, "n");
    assert_eq!(copy.command, "c");
    assert_eq!(copy.status, AppStatus::FAILED);
    assert_eq!(copy.port, 9);
    assert_eq!(copy.working_dir, "w");
    assert_eq!(copy.pid, Some(4));
    let vars = copy.env_vars.unwrap();
    assert_eq!(vars.len(), 1);
    assert_eq!(vars[0].key, "k");
    assert!(vars[0].value.is_none());
}

#[test]
fn patch_apply_merges() {
    let mut app = Application {
        id: Some(3),
        name: "n".to_string(),
        command: "c".to_string(),
        status: AppStatus::PENDING,
        port: 9,
        working_dir: "w".to_string(),
        pid: Some(4),
        env_vars: None,
    };
    let mut patch = PatchApplication::status_only(AppStatus::RUNNING);
    patch.port = Some(10);
    patch.apply(&mut app);
    assert_eq!((app.status, app.port, app.pid), (AppStatus::RUNNING, 10, Some(4)));
    assert_eq!(app.name, "n");
    assert_eq!(app.id, Some(3));
}

#[test]
fn text_helpers() {
    assert_eq!(chars_of("héllo"), chars("héllo"));
    assert_eq!(string_of(&chars("héllo")), "héllo");
    assert!(same_text("a", "a"));
    assert!(!same_text("a", "ab"));
    assert_eq!(find(&chars("abcabc"), &chars("bc")), Some(1));
    assert_eq!(find(&chars("abcabc"), &chars("")), Some(0));
    assert_eq!(find(&chars("abc"), &chars("abcd")), None);
    assert_eq!(find(&chars("abc"), &chars("c")), Some(2));
    assert_eq!(rfind_char(&chars("a:b:c"), ':'), Some(3));
    assert_eq!(rfind_char(&chars("abc"), ':'), None);
    assert!(contains_word(&chars("xx ready yy"), "ready"));
    assert!(!contains_word(&chars("xx read yy"), "ready"));
    let words: Vec<String> = split_words(&chars(" a  bc\td\n")).iter().map(string_of).collect();
    assert_eq!(words, vec!["a", "bc", "d"]);
    assert!(split_words(&chars("")).is_empty());
}

#[test]
fn decimal_writing() {
    let mut s = String::from("n=");
    push_decimal(&mut s, 0);
    push_decimal(&mut s, 10);
    push_decimal(&mut s, u64::MAX);
    assert_eq!(s, "n=01018446744073709551615");
    let mut t = String::new();
    push_signed_decimal(&mut t, i64::MIN);
    t.push(' ');
    push_signed_decimal(&mut t, -7);
    t.push(' ');
    push_signed_decimal(&mut t, 7);
    assert_eq!(t, "-9223372036854775808 -7 7");
}

#[test]
fn replies() {
    assert!(Reply::empty(200).is_success());
    assert!(Reply::empty(299).is_success());
    assert!(!Reply::empty(300).is_success());
    assert!(!Reply::empty(199).is_success());
    let failure = Reply::store_failure();
    assert_eq!(failure.code, 500);
    assert!(matches!(failure.body, Body::Empty));
    let text = Reply::text(418, "teapot");
    assert_eq!(text.code, 418);
    match text.body {
        Body::Text(t) => assert_eq!(t, "teapot"),
        other => panic!("unexpected body {:?}", other),
    }
    assert_eq!(not_found().code, 404);
    assert_eq!(port_conflict(1).code, 409);
}
