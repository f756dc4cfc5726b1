use paas::port_detect::{detect_port, detect_port_in, read_port};

fn chars(s: &str) -> Vec<char> {
    s.chars().collect()
}

#[test]
fn detects_port_after_localhost() {
    assert_eq!(detect_port("Server listening on http://localhost:4321"), Some(4321));
}

#[test]
fn failure_words_exclude_a_line() {
    assert_eq!(detect_port("connection refused at port 9999"), None);
    assert_eq!(detect_port("Error: listening on localhost:3000"), None);
    assert_eq!(detect_port("failed to start on localhost:3000"), None);
    assert_eq!(detect_port("dial tcp 127.0.0.1:5432"), None);
}

#[test]
fn out_of_range_port_is_not_detected() {
    assert_eq!(detect_port("Local: http://localhost:70000"), None);
    assert_eq!(detect_port("ready on localhost:1024"), None);
    assert_eq!(detect_port("ready on localhost:1025"), Some(1025));
    assert_eq!(detect_port("ready on localhost:65535"), Some(65535));
    assert_eq!(detect_port("ready on localhost:65536"), None);
    assert_eq!(detect_port("ready on localhost:99999999999999999999"), None);
}

#[test]
fn a_ready_word_is_needed() {
    assert_eq!(detect_port("binding :8080"), None);
    assert_eq!(detect_port("hello world"), None);
    assert_eq!(detect_port(""), None);
}

#[test]
fn detects_port_after_address() {
    assert_eq!(detect_port("Running on http://127.0.0.1:5000"), Some(5000));
}

#[test]
fn detects_port_after_last_colon() {
    assert_eq!(detect_port("Listening on :8080"), Some(8080));
    assert_eq!(detect_port("now serving at 0.0.0.0:9000/"), Some(9000));
}

#[test]
fn detects_port_after_the_word_port() {
    assert_eq!(detect_port("Server started on port 3000"), Some(3000));
    assert_eq!(detect_port("Server started on PORT 3001."), Some(3001));
    assert_eq!(detect_port("ready: port 80 then port 8081"), Some(8081));
    assert_eq!(detect_port("started, port"), None);
}

#[test]
fn vocabulary_is_matched_without_regard_to_case() {
    assert_eq!(detect_port("SERVER LISTENING ON :4000"), Some(4000));
    assert_eq!(detect_port("CONNECT listening on :4000"), None);
}

#[test]
fn marker_is_matched_with_regard_to_case() {
    // "LOCALHOST:" is a ready word in lower case but not the marker itself.
    assert_eq!(detect_port("ready at LOCALHOST:4000"), None);
}

#[test]
fn leading_zeros_are_read() {
    assert_eq!(detect_port("ready on localhost:0008080"), Some(8080));
}

#[test]
fn read_port_reads_digits_at_a_position() {
    assert_eq!(read_port(&chars("ab4321cd"), 2), Some(4321));
    assert_eq!(read_port(&chars("ab4321cd"), 0), None);
    assert_eq!(read_port(&chars("4321"), 4), None);
    assert_eq!(read_port(&chars("1024"), 0), None);
}

#[test]
fn detect_port_in_uses_the_lowered_forms_it_is_given() {
    let line = chars("Up on Port 5173");
    let lowered = chars("ready on port 5173");
    let words = vec![chars("up"), chars("on"), chars("port"), chars("5173")];
    assert_eq!(detect_port_in(&line, &lowered, &words), Some(5173));
    let unlowered = vec![chars("Up"), chars("on"), chars("Port"), chars("5173")];
    assert_eq!(detect_port_in(&line, &lowered, &unlowered), None);
    assert_eq!(detect_port_in(&line, &chars("Up on Port 5173"), &words), None);
}
