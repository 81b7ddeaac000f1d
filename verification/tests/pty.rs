use base64::Engine;
use serde_json::Value;
use web_terminal::pty::{
    outcome_of, start_request_of, start_url_of, HttpReply, HttpRequest, PidWait, PtyHandle,
    RequestKind, PTY_STARTUP_WAIT,
};
use web_terminal::sessions::TerminalService;

fn handle() -> PtyHandle {
    PtyHandle::new(
        "http://proxy/sandbox/sb-1/49983/process.Process/Start",
        "token".to_string(),
        Some("Basic abc".to_string()),
    )
}

fn headers(request: &HttpRequest) -> Vec<(&str, &str)> {
    request
        .headers
        .iter()
        .map(|(name, value)| (*name, value.as_str()))
        .collect()
}

fn body(request: &HttpRequest) -> Value {
    serde_json::from_slice(&request.body).expect("a JSON body")
}

#[test]
fn start_urls_go_through_the_proxy() {
    assert_eq!(
        start_url_of(None, "sb-1"),
        "http://127.0.0.1/sandbox/sb-1/49983/process.Process/Start"
    );
    assert_eq!(
        start_url_of(Some("https://proxy:8443//"), "sb-1"),
        "https://proxy:8443/sandbox/sb-1/49983/process.Process/Start"
    );
    assert_eq!(
        start_url_of(Some(""), "x"),
        "/sandbox/x/49983/process.Process/Start"
    );
}

#[test]
fn auth_header_is_trimmed() {
    assert_eq!(TerminalService::terminal_auth_header(None), None);
    assert_eq!(TerminalService::terminal_auth_header(Some(" \n")), None);
    assert_eq!(
        TerminalService::terminal_auth_header(Some(" Basic abc ")),
        Some("Basic abc".to_string())
    );
}

#[test]
fn start_request_asks_for_a_login_shell() {
    let request = TerminalService::connect_envd_pty(
        "http://x/process.Process/Start",
        "token",
        Some("Basic abc"),
        Some("worker-1"),
    );
    assert_eq!(request.url, "http://x/process.Process/Start");
    assert_eq!(
        headers(&request),
        vec![
            ("Content-Type", "application/connect+json"),
            ("Connect-Protocol-Version", "1"),
            ("Connect-Content-Encoding", "identity"),
            ("X-Access-Token", "token"),
            ("Authorization", "Basic abc"),
        ]
    );
    assert_eq!(request.body[0], 0);
    let size = u32::from_be_bytes(request.body[1..5].try_into().unwrap()) as usize;
    assert_eq!(request.body.len(), 5 + size);
    let payload: Value = serde_json::from_slice(&request.body[5..]).unwrap();
    let expected: Value = serde_json::from_str(
        r#"{"process":{"cmd":"/bin/bash","args":["-i","-l"],
            "envs":{"TERM":"xterm-256color","LANG":"C.UTF-8","LC_ALL":"C.UTF-8"},
            "container_id":"worker-1"},
            "pty":{"size":{"rows":24,"cols":80}}}"#,
    )
    .unwrap();
    assert_eq!(payload, expected);
}

#[test]
fn start_request_without_credentials_or_container() {
    let request = TerminalService::connect_envd_pty("u", "", None, None);
    assert_eq!(headers(&request).len(), 3);
    let payload: Value = serde_json::from_slice(&request.body[5..]).unwrap();
    assert_eq!(payload["process"].get("container_id"), None);
    assert_eq!(payload["process"]["cmd"], "/bin/bash");
}

#[test]
fn start_request_wraps_any_body() {
    let request = start_request_of("u", "", Some("a"), b"xy");
    assert_eq!(request.body, vec![0, 0, 0, 0, 2, b'x', b'y']);
    assert_eq!(headers(&request)[3], ("Authorization", "a"));
}

#[test]
fn methods_stand_beside_start() {
    let handle = handle();
    assert_eq!(
        handle.send_input_url,
        "http://proxy/sandbox/sb-1/49983/process.Process/SendInput"
    );
    assert_eq!(
        handle.update_url,
        "http://proxy/sandbox/sb-1/49983/process.Process/Update"
    );
    assert_eq!(
        handle.send_signal_url,
        "http://proxy/sandbox/sb-1/49983/process.Process/SendSignal"
    );
}

#[test]
fn every_start_method_in_a_url_is_replaced() {
    let handle = PtyHandle::new(
        "/process.Process/Start/process.Process/Start?",
        String::new(),
        None,
    );
    assert_eq!(
        handle.update_url,
        "/process.Process/Update/process.Process/Update?"
    );
    let other = PtyHandle::new("http://x/other", String::new(), None);
    assert_eq!(other.update_url, "http://x/other");
}

#[test]
fn input_travels_in_base64() {
    let request = handle().send_stdin(4242, "echo hello from e2e\n");
    assert_eq!(request.url, handle().send_input_url);
    assert_eq!(
        headers(&request),
        vec![
            ("Content-Type", "application/json"),
            ("Connect-Protocol-Version", "1"),
            ("Authorization", "Basic abc"),
            ("X-Access-Token", "token"),
        ]
    );
    let payload = body(&request);
    assert_eq!(payload["process"]["pid"], 4242);
    let pty = payload["input"]["pty"].as_str().unwrap();
    assert_eq!(pty, "ZWNobyBoZWxsbyBmcm9tIGUyZQo=");
    assert_eq!(
        base64::engine::general_purpose::STANDARD.decode(pty).unwrap(),
        b"echo hello from e2e\n"
    );
}

#[test]
fn resize_and_kill_have_their_payloads() {
    let handle = PtyHandle::new("http://x/process.Process/Start", String::new(), None);
    let resize = handle.resize(7, 41, 133);
    assert_eq!(resize.url, "http://x/process.Process/Update");
    assert_eq!(headers(&resize).len(), 2);
    let expected: Value =
        serde_json::from_str(r#"{"process":{"pid":7},"pty":{"size":{"rows":41,"cols":133}}}"#)
            .unwrap();
    assert_eq!(body(&resize), expected);

    assert!(handle.kill(0).is_none());
    let kill = handle.kill(7).expect("a process was started");
    assert_eq!(kill.url, "http://x/process.Process/SendSignal");
    let expected: Value =
        serde_json::from_str(r#"{"process":{"pid":7},"signal":"SIGNAL_SIGKILL"}"#).unwrap();
    assert_eq!(body(&kill), expected);
}

#[test]
fn waiting_for_the_process_ends() {
    assert!(matches!(PtyHandle::wait_for_pid(9, 0, PTY_STARTUP_WAIT), PidWait::Ready(9)));
    assert!(matches!(PtyHandle::wait_for_pid(9, 10_000, PTY_STARTUP_WAIT), PidWait::Ready(9)));
    assert!(matches!(
        PtyHandle::wait_for_pid(0, 9_999, PTY_STARTUP_WAIT),
        PidWait::Sleep { millis: 20 }
    ));
    match PtyHandle::wait_for_pid(0, 10_000, PTY_STARTUP_WAIT) {
        PidWait::Failed(e) => assert_eq!(e, "PTY process did not start in time"),
        other => panic!("unexpected {:?}", other),
    }
    assert_eq!(PtyHandle::pid(9), Ok(9));
    assert_eq!(
        PtyHandle::pid(0),
        Err("PTY process has not started yet".to_string())
    );
}

#[test]
fn replies_have_a_meaning() {
    for kind in [
        RequestKind::Start,
        RequestKind::SendInput,
        RequestKind::Resize,
        RequestKind::SendSignal,
    ] {
        assert_eq!(outcome_of(kind, &HttpReply::Status(200)), Ok(()));
        assert_eq!(outcome_of(kind, &HttpReply::Status(299)), Ok(()));
    }
    assert_eq!(
        outcome_of(RequestKind::Start, &HttpReply::Status(404)),
        Err("HTTP error: 404 Not Found".to_string())
    );
    assert_eq!(
        outcome_of(RequestKind::Start, &HttpReply::Failed("refused".to_string())),
        Err("HTTP request failed: refused".to_string())
    );
    assert_eq!(
        outcome_of(RequestKind::SendInput, &HttpReply::Status(300)),
        Err("SendInput error: 300 Multiple Choices".to_string())
    );
    assert_eq!(
        outcome_of(RequestKind::SendInput, &HttpReply::Failed("x".to_string())),
        Err("SendInput failed: x".to_string())
    );
    assert_eq!(
        outcome_of(RequestKind::Resize, &HttpReply::Status(599)),
        Err("Resize error: 599 <unknown status code>".to_string())
    );
    assert_eq!(
        outcome_of(RequestKind::Resize, &HttpReply::Failed("x".to_string())),
        Err("Resize failed: x".to_string())
    );
    assert_eq!(
        outcome_of(RequestKind::SendSignal, &HttpReply::Status(100)),
        Err("SendSignal error: 100 Continue".to_string())
    );
    assert_eq!(
        outcome_of(RequestKind::SendSignal, &HttpReply::Failed("x".to_string())),
        Err("SendSignal failed: x".to_string())
    );
}
