use web_terminal::control::{
    client_text_of, input_settled, resize_of, ClientText, ControlFields, InputState, InputStep,
};
use web_terminal::error::AppError;
use web_terminal::sessions::{SessionLimits, TerminalService};
use web_terminal::target::{SandboxContainer, SandboxDetail, SandboxState};

fn container(name: &str, id: &str, status: &str) -> SandboxContainer {
    SandboxContainer {
        name: name.to_string(),
        container_id: id.to_string(),
        status: status.to_string(),
        image: "img".to_string(),
        kind: None,
        primary: false,
    }
}

#[test]
fn parses_resize_control_message() {
    assert_eq!(
        TerminalService::parse_resize_message(r#"{"type":"resize","rows":40,"cols":120}"#),
        Some((40, 120))
    );
}

#[test]
fn clamps_resize_dimensions() {
    assert_eq!(
        TerminalService::parse_resize_message(r#"{"type":"resize","rows":0,"cols":9999}"#),
        Some((1, 512))
    );
}

#[test]
fn ignores_non_resize_json_as_resize() {
    assert_eq!(
        TerminalService::parse_resize_message(r#"{"type":"input","data":"ls"}"#),
        None
    );
}

#[test]
fn parses_ping_control_message() {
    assert!(TerminalService::parse_ping_message(r#"{"type":"ping"}"#));
    assert!(!TerminalService::parse_ping_message(r#"{"type":"resize"}"#));
}

#[test]
fn resolve_terminal_container_prefers_single_container() {
    let containers = vec![SandboxContainer {
        name: "sandbox".to_string(),
        container_id: "sb-1".to_string(),
        status: "running".to_string(),
        image: "img".to_string(),
        kind: Some("sandbox".to_string()),
        primary: true,
    }];

    let (id, name) = TerminalService::resolve_terminal_container(&containers, None, "sb-1")
        .expect("single container should resolve");
    assert_eq!(id, "sb-1");
    assert_eq!(name, "sandbox");
}

#[test]
fn resolve_terminal_container_requires_selector_for_multiple_containers() {
    let containers = vec![
        SandboxContainer {
            name: "sandbox".to_string(),
            container_id: "sb-1".to_string(),
            status: "running".to_string(),
            image: "img".to_string(),
            kind: Some("sandbox".to_string()),
            primary: true,
        },
        SandboxContainer {
            name: "workload".to_string(),
            container_id: "work-1".to_string(),
            status: "running".to_string(),
            image: "img2".to_string(),
            kind: Some("workload".to_string()),
            primary: false,
        },
    ];

    let err = TerminalService::resolve_terminal_container(&containers, None, "sb-1")
        .expect_err("multiple containers should require a selector");
    assert!(err.to_string().contains("multiple containers"));
}

#[test]
fn terminal_error_code_distinguishes_container_conflicts() {
    assert_eq!(
        TerminalService::terminal_error_code(&AppError::Conflict(
            "sandbox sb-1 has multiple containers; specify one via container query parameter"
                .to_string(),
        )),
        "container_selection_required"
    );
    assert_eq!(
        TerminalService::terminal_error_code(&AppError::Conflict(
            "sandbox sb-1 does not expose any containers".to_string(),
        )),
        "sandbox_has_no_containers"
    );
    assert_eq!(
        TerminalService::terminal_error_code(&AppError::Conflict(
            "container worker in sandbox sb-1 is not running".to_string(),
        )),
        "container_not_running"
    );
    assert_eq!(
        TerminalService::terminal_error_code(&AppError::Conflict(
            "sandbox sb-1 is not running".to_string(),
        )),
        "sandbox_not_running"
    );
    assert_eq!(
        TerminalService::terminal_error_code(&AppError::Conflict(
            "container worker not found in sandbox sb-1".to_string(),
        )),
        "container_not_found"
    );
}

#[test]
fn resolve_terminal_container_accepts_selector_by_name_or_id() {
    let containers = vec![
        SandboxContainer {
            name: "sandbox".to_string(),
            container_id: "sb-1".to_string(),
            status: "running".to_string(),
            image: "img".to_string(),
            kind: Some("sandbox".to_string()),
            primary: true,
        },
        SandboxContainer {
            name: "workload".to_string(),
            container_id: "work-1".to_string(),
            status: "running".to_string(),
            image: "img2".to_string(),
            kind: Some("workload".to_string()),
            primary: false,
        },
    ];

    let (id, name) =
        TerminalService::resolve_terminal_container(&containers, Some("workload"), "sb-1")
            .expect("selector by name should resolve");
    assert_eq!(id, "work-1");
    assert_eq!(name, "workload");

    let (id, name) =
        TerminalService::resolve_terminal_container(&containers, Some("work-1"), "sb-1")
            .expect("selector by id should resolve");
    assert_eq!(id, "work-1");
    assert_eq!(name, "workload");
}

#[test]
fn error_codes_of_the_other_errors() {
    let text = "is not running".to_string();
    assert_eq!(
        TerminalService::terminal_error_code(&AppError::NotFound(text.clone())),
        "sandbox_not_found"
    );
    assert_eq!(
        TerminalService::terminal_error_code(&AppError::Unauthorized(text.clone())),
        "unauthorized"
    );
    assert_eq!(
        TerminalService::terminal_error_code(&AppError::TooManyRequests(text.clone())),
        "session_limit"
    );
    assert_eq!(
        TerminalService::terminal_error_code(&AppError::BadRequest(text.clone())),
        "bad_request"
    );
    assert_eq!(
        TerminalService::terminal_error_code(&AppError::Internal(text)),
        "terminal_error"
    );
    assert_eq!(
        TerminalService::terminal_error_code(&AppError::Conflict("anything else".to_string())),
        "sandbox_not_running"
    );
}

#[test]
fn containers_that_cannot_be_resolved() {
    let none: Vec<SandboxContainer> = Vec::new();
    match TerminalService::resolve_terminal_container(&none, Some("  "), "sb-1") {
        Err(AppError::NotFound(m)) => assert_eq!(m, "sandbox sb-1 does not expose any containers"),
        other => panic!("unexpected {:?}", other),
    }
    let one = vec![container("main", "c-1", "Stopped")];
    match TerminalService::resolve_terminal_container(&one, Some(" other "), "sb-1") {
        Err(AppError::NotFound(m)) => assert_eq!(m, "container other not found in sandbox sb-1"),
        other => panic!("unexpected {:?}", other),
    }
    match TerminalService::resolve_terminal_container(&one, None, "sb-1") {
        Err(AppError::Conflict(m)) => {
            assert_eq!(m, "container c-1 in sandbox sb-1 is not running");
            assert_eq!(
                TerminalService::terminal_error_code(&AppError::Conflict(m)),
                "container_not_running"
            );
        }
        other => panic!("unexpected {:?}", other),
    }
    let two = vec![container("a", "c-1", "running"), container("b", "c-2", "running")];
    match TerminalService::resolve_terminal_container(&two, None, "sb-1") {
        Err(e) => assert_eq!(
            TerminalService::terminal_error_code(&e),
            "container_selection_required"
        ),
        other => panic!("unexpected {:?}", other),
    }
}

#[test]
fn missing_containers_have_codes_of_their_own() {
    let code = |containers: &[SandboxContainer], selector, sandbox_id| {
        let error = TerminalService::resolve_terminal_container(containers, selector, sandbox_id)
            .expect_err("nothing to resolve");
        assert!(matches!(error, AppError::NotFound(_)));
        TerminalService::terminal_error_code(&error)
    };
    let one = vec![container("main", "c-1", "running")];
    assert_eq!(code(&one, Some("other"), "sb-1"), "container_not_found");
    assert_eq!(code(&[], Some("other"), "sb-1"), "container_not_found");
    assert_eq!(code(&[], None, "sb-1"), "sandbox_has_no_containers");
    assert_eq!(code(&[], Some(" "), "sb-1"), "sandbox_has_no_containers");
    assert_eq!(
        code(&[], None, "x not found in sandbox y"),
        "sandbox_has_no_containers"
    );
    assert_eq!(
        code(&one, Some("x does not expose any containers"), "sb-1"),
        "container_not_found"
    );
    assert_eq!(
        TerminalService::lookup_error_code(&AppError::NotFound(
            "container x not found in sandbox y".to_string()
        )),
        "sandbox_not_found"
    );
    assert_eq!(
        TerminalService::lookup_error_code(&AppError::Internal("x".to_string())),
        "terminal_error"
    );
    assert_eq!(
        TerminalService::terminal_error_code(&AppError::NotFound(
            "sandbox sb-1 not found".to_string()
        )),
        "sandbox_not_found"
    );
}

#[test]
fn names_do_not_change_what_is_said() {
    let stopped = SandboxDetail {
        state: SandboxState::Paused,
        envd_access_token: None,
        containers: None,
        end_at: None,
    };
    for id in [
        "mycontainer",
        "x has multiple containers",
        "x not found in sandbox y",
        "x does not expose any containers",
    ] {
        let error = TerminalService::validate_terminal_target(&stopped, id, None).unwrap_err();
        assert_eq!(TerminalService::terminal_error_code(&error), "sandbox_not_running");
        let one = vec![container("main", id, "exited")];
        let error = TerminalService::resolve_terminal_container(&one, None, id).unwrap_err();
        assert_eq!(TerminalService::terminal_error_code(&error), "container_not_running");
        let two = vec![container("a", id, "exited"), container("b", id, "exited")];
        let error = TerminalService::resolve_terminal_container(&two, None, id).unwrap_err();
        assert_eq!(
            TerminalService::terminal_error_code(&error),
            "container_selection_required"
        );
    }
}

#[test]
fn first_container_by_a_selector_wins() {
    let containers = vec![
        container("a", "c-1", "running"),
        container("c-3", "c-2", "RUNNING"),
        container("b", "c-3", "running"),
    ];
    let (id, name) =
        TerminalService::resolve_terminal_container(&containers, Some(" c-3\n"), "sb").unwrap();
    assert_eq!((id.as_str(), name.as_str()), ("c-2", "c-3"));
}

#[test]
fn targets_are_validated() {
    let sandbox = SandboxDetail {
        state: SandboxState::Running,
        envd_access_token: Some("token".to_string()),
        containers: Some(vec![container("main", "c-1", "running")]),
        end_at: Some(77),
    };
    let target = TerminalService::validate_terminal_target(&sandbox, "sb-1", None).unwrap();
    assert_eq!(target.access_token.as_deref(), Some("token"));
    assert_eq!(target.container_id.as_deref(), Some("c-1"));
    assert_eq!(target.container_name.as_deref(), Some("main"));
    assert_eq!(target.end_at, Some(77));

    let no_token = SandboxDetail {
        envd_access_token: Some(String::new()),
        end_at: None,
        ..sandbox
    };
    let target = TerminalService::validate_terminal_target(&no_token, "sb-1", None).unwrap();
    assert!(target.access_token.is_none());
    assert_eq!(target.end_at, None);

    let no_containers = SandboxDetail { containers: None, ..no_token };
    match TerminalService::validate_terminal_target(&no_containers, "sb-1", None) {
        Err(AppError::NotFound(m)) => assert_eq!(m, "sandbox sb-1 does not expose any containers"),
        other => panic!("unexpected {:?}", other),
    }

    for state in [
        SandboxState::Pausing,
        SandboxState::Paused,
        SandboxState::Stopped,
        SandboxState::Unknown,
    ] {
        let stopped = SandboxDetail {
            state,
            envd_access_token: None,
            containers: None,
            end_at: None,
        };
        match TerminalService::validate_terminal_target(&stopped, "sb-1", None) {
            Err(AppError::Conflict(m)) => assert_eq!(m, "sandbox sb-1 is not running"),
            other => panic!("unexpected {:?}", other),
        }
    }
}

#[test]
fn resize_messages_have_defaults() {
    assert_eq!(
        TerminalService::parse_resize_message(r#"{"type":"resize"}"#),
        Some((24, 80))
    );
    assert_eq!(
        TerminalService::parse_resize_message(r#" {"type":"resize","rows":"9","cols":-3} "#),
        Some((24, 80))
    );
    assert_eq!(
        TerminalService::parse_resize_message(r#"{"type":"resize","rows":1.5,"cols":512}"#),
        Some((24, 512))
    );
    assert_eq!(TerminalService::parse_resize_message("not json"), None);
    assert_eq!(TerminalService::parse_resize_message("[1]"), None);
    assert_eq!(TerminalService::parse_resize_message(r#"{"type":5}"#), None);
    assert_eq!(TerminalService::parse_resize_message(r#"{"rows":5}"#), None);
}

#[test]
fn control_fields_decide() {
    let resize = ControlFields {
        kind: Some("resize".to_string()),
        rows: Some(600),
        cols: Some(1),
    };
    assert_eq!(resize_of(&resize), Some((512, 1)));
    assert_eq!(client_text_of(&resize), ClientText::Resize { rows: 512, cols: 1 });
    let ping = ControlFields { kind: Some("ping".to_string()), rows: Some(3), cols: None };
    assert_eq!(resize_of(&ping), None);
    assert_eq!(client_text_of(&ping), ClientText::Ignore);
    let other = ControlFields { kind: None, rows: Some(3), cols: Some(4) };
    assert_eq!(client_text_of(&other), ClientText::Input);
}

#[test]
fn control_messages_are_recognised() {
    assert!(TerminalService::is_control_message(r#"{"type":"resize"}"#));
    assert!(TerminalService::is_control_message(r#"{"type":"ping"}"#));
    assert!(!TerminalService::is_control_message(r#" {"type":"ping"}"#));
    assert!(!TerminalService::is_control_message(r#"{"type":"input"}"#));
    assert!(!TerminalService::is_control_message("{"));
    assert!(!TerminalService::is_control_message(""));
}

#[test]
fn client_texts_call_for_something() {
    assert_eq!(
        TerminalService::handle_client_text(r#"{"type":"resize","rows":41,"cols":133}"#),
        ClientText::Resize { rows: 41, cols: 133 }
    );
    assert_eq!(
        TerminalService::handle_client_text(r#"{"type":"ping"}"#),
        ClientText::Ignore
    );
    assert_eq!(
        TerminalService::handle_client_text("echo hello\n"),
        ClientText::Input
    );
    assert_eq!(
        TerminalService::handle_client_text(r#"{"type":"input","data":"ls"}"#),
        ClientText::Input
    );
}

#[test]
fn client_bytes_are_text() {
    assert_eq!(
        TerminalService::handle_client_binary("gr\u{fc}\u{df}e\u{1f600}".as_bytes()),
        "gr\u{fc}\u{df}e\u{1f600}"
    );
    assert_eq!(
        TerminalService::handle_client_binary(&[b'a', 0xff, b'b']),
        "a\u{fffd}b"
    );
}

#[test]
fn input_is_sent_at_most_twice() {
    for error in [
        "x PTY process did not start in time",
        "PTY process has not started yet",
    ] {
        assert!(matches!(
            input_settled(InputState::FirstTry, Err(error.to_string())),
            InputStep::RetryAfter { millis: 200 }
        ));
        match input_settled(InputState::Retrying, Err(error.to_string())) {
            InputStep::Done(Err(e)) => assert_eq!(e, error),
            _ => panic!("no third try"),
        }
    }
    match input_settled(InputState::FirstTry, Err("SendInput failed: x".to_string())) {
        InputStep::Done(Err(e)) => assert_eq!(e, "SendInput failed: x"),
        _ => panic!("other errors count"),
    }
    assert!(matches!(
        input_settled(InputState::FirstTry, Ok(())),
        InputStep::Done(Ok(()))
    ));
    assert!(matches!(
        input_settled(InputState::Resizing, Err("Resize failed".to_string())),
        InputStep::Done(Ok(()))
    ));
}

#[test]
fn limits_are_read_from_settings() {
    assert_eq!(TerminalService::max_total_sessions(None), 64);
    assert_eq!(TerminalService::max_total_sessions(Some("3")), 3);
    assert_eq!(TerminalService::max_total_sessions(Some("+3")), 3);
    assert_eq!(TerminalService::max_total_sessions(Some("0")), 0);
    assert_eq!(TerminalService::max_total_sessions(Some("")), 64);
    assert_eq!(TerminalService::max_total_sessions(Some(" 3")), 64);
    assert_eq!(TerminalService::max_total_sessions(Some("-3")), 64);
    assert_eq!(
        TerminalService::max_total_sessions(Some("18446744073709551616")),
        64
    );
    assert_eq!(
        TerminalService::max_total_sessions(Some(&usize::MAX.to_string())),
        usize::MAX
    );
    assert_eq!(TerminalService::max_sessions_per_sandbox(None), 8);
    assert_eq!(TerminalService::max_sessions_per_sandbox(Some("007")), 7);
}

fn open(
    service: &mut TerminalService,
    id: &str,
    sandbox: &str,
    total: usize,
    per_sandbox: usize,
) -> Result<(), AppError> {
    service.register_session_at(
        id.to_string(),
        sandbox.to_string(),
        None,
        "op".to_string(),
        &SessionLimits { total, per_sandbox },
        5,
    )
}

#[test]
fn sessions_keep_to_the_limits() {
    let mut service = TerminalService::new();
    assert!(open(&mut service, "s1", "sb-1", 3, 2).is_ok());
    assert!(open(&mut service, "s2", "sb-1", 3, 2).is_ok());
    match open(&mut service, "s3", "sb-1", 3, 2) {
        Err(AppError::TooManyRequests(m)) => {
            assert_eq!(m, "terminal session limit reached for sandbox sb-1: 2");
        }
        other => panic!("unexpected {:?}", other),
    }
    assert!(open(&mut service, "s3", "sb-2", 3, 2).is_ok());
    match open(&mut service, "s4", "sb-3", 3, 2) {
        Err(AppError::TooManyRequests(m)) => assert_eq!(m, "terminal session limit reached: 3"),
        other => panic!("unexpected {:?}", other),
    }
    assert!(service.unregister_session("s2").is_some());
    assert!(open(&mut service, "s4", "sb-1", 3, 2).is_ok());
}

#[test]
fn no_session_under_a_limit_of_none() {
    let mut service = TerminalService::new();
    match open(&mut service, "s1", "sb-1", 0, 8) {
        Err(AppError::TooManyRequests(m)) => assert_eq!(m, "terminal session limit reached: 0"),
        other => panic!("unexpected {:?}", other),
    }
}

#[test]
fn sessions_are_given_back_once() {
    let mut service = TerminalService::new();
    let limits = SessionLimits { total: 64, per_sandbox: 8 };
    let before = chrono::Utc::now().timestamp_micros();
    service
        .register_session(
            "s1".to_string(),
            "sb-1".to_string(),
            Some("c-1".to_string()),
            "operator".to_string(),
            &limits,
        )
        .unwrap();
    let after = chrono::Utc::now().timestamp_micros();
    assert!(service.unregister_session("s2").is_none());
    let session = service.unregister_session("s1").expect("it was open");
    assert_eq!(session.sandbox_id, "sb-1");
    assert_eq!(session.container_id.as_deref(), Some("c-1"));
    assert_eq!(session.operator_id, "operator");
    assert!(before <= session.started_at && session.started_at <= after);
    assert!(service.unregister_session("s1").is_none());
}
