use web_terminal::bridge::{BridgeAction, BridgeEvent, PtySession};
use web_terminal::control::ClientText;
use web_terminal::error::AppError;
use web_terminal::events::{AuditEvent, LogLevel, TerminalServerEvent};
use web_terminal::opening::{
    OpenTerminal, Opening, OpeningAction, OpeningEvent, OpeningStep, TerminalRequest,
    TerminalSettings,
};
use web_terminal::pty::{HttpReply, PtyHandle};
use web_terminal::sessions::TerminalService;
use web_terminal::target::{SandboxContainer, SandboxDetail, SandboxState};

fn request() -> TerminalRequest {
    TerminalRequest {
        sandbox_id: "sb-123".to_string(),
        container_selector: Some("worker-1".to_string()),
        operator_id: "tester-1".to_string(),
    }
}

fn settings() -> TerminalSettings {
    TerminalSettings {
        max_sessions: None,
        max_sessions_per_sandbox: Some("1".to_string()),
        proxy_base: Some("http://proxy/".to_string()),
        envd_auth: Some(" Basic abc ".to_string()),
    }
}

fn sandbox(end_at: Option<i64>) -> SandboxDetail {
    let container = |name: &str, id: &str| SandboxContainer {
        name: name.to_string(),
        container_id: id.to_string(),
        status: "running".to_string(),
        image: "cube/test:latest".to_string(),
        kind: None,
        primary: false,
    };
    SandboxDetail {
        state: SandboxState::Running,
        envd_access_token: Some("token".to_string()),
        containers: Some(vec![container("sandbox", "sb-123"), container("worker", "worker-1")]),
        end_at,
    }
}

fn first(service: &mut TerminalService, sandbox: Result<SandboxDetail, AppError>) -> OpeningStep {
    service.handle_terminal_as(
        Opening::AwaitingSandbox,
        OpeningEvent::Sandbox(sandbox),
        &request(),
        &settings(),
        "s1".to_string(),
        5,
    )
}

fn then(service: &mut TerminalService, opening: Opening, event: OpeningEvent) -> OpeningStep {
    service.handle_terminal(opening, event, &request(), &settings())
}

fn fields(event: &AuditEvent) -> Vec<(String, String)> {
    event
        .audit()
        .into_iter()
        .map(|(name, value)| (name.to_string(), value))
        .collect()
}

fn pairs(list: &[(&str, &str)]) -> Vec<(String, String)> {
    list.iter()
        .map(|(name, value)| (name.to_string(), value.to_string()))
        .collect()
}

fn assert_refused(step: &OpeningStep, action: &str, listed: bool, code: &str, message: &str) {
    assert!(matches!(step.next, Opening::Refused));
    match step.actions.as_slice() {
        [OpeningAction::Audit(event), OpeningAction::Send(TerminalServerEvent::Error { code: told, message: text }), OpeningAction::CloseSocket] =>
        {
            assert_eq!(event.level, LogLevel::Warn);
            let expected = if listed {
                pairs(&[
                    ("action", action),
                    ("sandbox_id", "sb-123"),
                    ("operator_id", "tester-1"),
                    ("container_id", "worker-1"),
                    ("session_id", "s1"),
                    ("reason", code),
                ])
            } else {
                pairs(&[
                    ("action", action),
                    ("sandbox_id", "sb-123"),
                    ("operator_id", "tester-1"),
                    ("reason", code),
                ])
            };
            assert_eq!(fields(event), expected);
            assert_eq!(*told, code);
            assert_eq!(text, message);
        }
        other => panic!("unexpected {:?}", other),
    }
}

#[test]
fn terminals_open_in_sandboxes_with_a_deadline() {
    let mut service = TerminalService::new();
    let step = first(&mut service, Ok(sandbox(Some(77))));
    assert!(matches!(
        step.actions.as_slice(),
        [OpeningAction::Hold { seconds: 3600 }]
    ));
    assert!(matches!(step.next, Opening::AwaitingHold(_)));

    let step = then(&mut service, step.next, OpeningEvent::Hold(Ok(())));
    match step.actions.as_slice() {
        [OpeningAction::Audit(event), OpeningAction::Connect(start)] => {
            assert_eq!(event.level, LogLevel::Info);
            assert_eq!(
                fields(event),
                pairs(&[
                    ("action", "open"),
                    ("sandbox_id", "sb-123"),
                    ("operator_id", "tester-1"),
                    ("container_id", "worker-1"),
                    ("session_id", "s1"),
                ])
            );
            assert_eq!(
                start.url,
                "http://proxy/sandbox/sb-123/49983/process.Process/Start"
            );
            let payload: serde_json::Value = serde_json::from_slice(&start.body[5..]).unwrap();
            assert_eq!(payload["process"]["container_id"], "worker-1");
            assert!(start
                .headers
                .contains(&("Authorization", "Basic abc".to_string())));
            assert!(start
                .headers
                .contains(&("X-Access-Token", "token".to_string())));
        }
        other => panic!("unexpected {:?}", other),
    }

    let step = then(&mut service, step.next, OpeningEvent::Connect(HttpReply::Status(200)));
    match step.actions.as_slice() {
        [OpeningAction::Send(TerminalServerEvent::Ready { session_id })] => {
            assert_eq!(session_id, "s1");
        }
        other => panic!("unexpected {:?}", other),
    }
    match step.next {
        Opening::Established { session, handle } => {
            assert!(session.hold_enabled);
            assert_eq!(session.session_id, "s1");
            assert_eq!(session.container_id.as_deref(), Some("worker-1"));
            assert_eq!(
                handle.send_input_url,
                "http://proxy/sandbox/sb-123/49983/process.Process/SendInput"
            );
            assert_eq!(handle.envd_auth.as_deref(), Some("Basic abc"));
        }
        other => panic!("unexpected {:?}", other),
    }
    let session = service.unregister_session("s1").expect("on the list");
    assert_eq!(session.started_at, 5);
    assert_eq!(session.container_id.as_deref(), Some("worker-1"));
}

#[test]
fn terminals_open_in_sandboxes_without_a_deadline() {
    let mut service = TerminalService::new();
    let step = first(&mut service, Ok(sandbox(None)));
    assert!(matches!(
        step.actions.as_slice(),
        [OpeningAction::Audit(_), OpeningAction::Connect(_)]
    ));
    assert!(matches!(step.next, Opening::AwaitingPty { .. }));
    assert_eq!(TerminalService::hold_sandbox_for_terminal(false), None);
    assert_eq!(TerminalService::hold_sandbox_for_terminal(true), Some(3600));
}

#[test]
fn new_sessions_get_random_ids() {
    let mut ids = Vec::new();
    let mut service = TerminalService::new();
    let before = chrono::Utc::now().timestamp_micros();
    for _ in 0..2 {
        let step = service.handle_terminal(
            Opening::AwaitingSandbox,
            OpeningEvent::Sandbox(Ok(sandbox(Some(1)))),
            &request(),
            &TerminalSettings { max_sessions_per_sandbox: None, ..settings() },
        );
        match step.next {
            Opening::AwaitingHold(terminal) => ids.push(terminal.session_id),
            other => panic!("unexpected {:?}", other),
        }
    }
    assert_ne!(ids[0], ids[1]);
    for id in &ids {
        assert_eq!(id.len(), 36);
        for (i, c) in id.chars().enumerate() {
            match i {
                8 | 13 | 18 | 23 => assert_eq!(c, '-'),
                14 => assert_eq!(c, '4'),
                _ => assert!(c.is_ascii_digit() || ('a'..='f').contains(&c)),
            }
        }
        let session = service.unregister_session(id).expect("on the list");
        assert!(session.started_at >= before);
    }
}

#[test]
fn unknown_sandboxes_are_refused() {
    let mut service = TerminalService::new();
    let step = first(&mut service, Err(AppError::NotFound("no such sandbox".to_string())));
    assert_refused(
        &step,
        "target_validation_failed",
        false,
        "sandbox_not_found",
        "no such sandbox",
    );
    let message = "sb-123 not found in sandbox store";
    let step = first(&mut service, Err(AppError::NotFound(message.to_string())));
    assert_refused(
        &step,
        "target_validation_failed",
        false,
        "sandbox_not_found",
        message,
    );
    assert!(service.unregister_session("s1").is_none());
}

#[test]
fn missing_containers_are_refused() {
    let mut service = TerminalService::new();
    let empty = SandboxDetail { containers: None, ..sandbox(None) };
    let step = first(&mut service, Ok(empty));
    assert_refused(
        &step,
        "target_validation_failed",
        false,
        "container_not_found",
        "container worker-1 not found in sandbox sb-123",
    );
    let step = service.handle_terminal(
        Opening::AwaitingSandbox,
        OpeningEvent::Sandbox(Ok(SandboxDetail { containers: None, ..sandbox(None) })),
        &TerminalRequest { container_selector: None, ..request() },
        &settings(),
    );
    assert_refused(
        &step,
        "target_validation_failed",
        false,
        "sandbox_has_no_containers",
        "sandbox sb-123 does not expose any containers",
    );
}

#[test]
fn stopped_sandboxes_are_refused() {
    let mut service = TerminalService::new();
    let paused = SandboxDetail { state: SandboxState::Paused, ..sandbox(None) };
    let step = first(&mut service, Ok(paused));
    assert_refused(
        &step,
        "target_validation_failed",
        false,
        "sandbox_not_running",
        "sandbox sb-123 is not running",
    );
}

#[test]
fn sessions_over_the_limit_are_refused() {
    let mut service = TerminalService::new();
    service.handle_terminal_as(
        Opening::AwaitingSandbox,
        OpeningEvent::Sandbox(Ok(sandbox(None))),
        &request(),
        &settings(),
        "s0".to_string(),
        5,
    );
    let step = first(&mut service, Ok(sandbox(None)));
    assert_refused(
        &step,
        "session_rejected",
        true,
        "session_limit",
        "terminal session limit reached for sandbox sb-123: 1",
    );
    assert!(service.unregister_session("s1").is_none());
    assert!(service.unregister_session("s0").is_some());
}

#[test]
fn failed_holds_are_refused() {
    let mut service = TerminalService::new();
    let step = first(&mut service, Ok(sandbox(Some(1))));
    let step = then(
        &mut service,
        step.next,
        OpeningEvent::Hold(Err(AppError::Internal("no answer".to_string()))),
    );
    assert_refused(&step, "hold_failed", true, "sandbox_hold_failed", "no answer");
    assert!(service.unregister_session("s1").is_none());
}

#[test]
fn failed_starts_are_refused() {
    let mut service = TerminalService::new();
    let step = first(&mut service, Ok(sandbox(None)));
    let step = then(&mut service, step.next, OpeningEvent::Connect(HttpReply::Status(502)));
    assert_refused(
        &step,
        "pty_connect_failed",
        true,
        "pty_connect_failed",
        "HTTP error: 502 Bad Gateway",
    );
    assert!(service.unregister_session("s1").is_none());
}

#[test]
fn the_meaning_of_a_reply_decides() {
    let mut service = TerminalService::new();
    let terminal = OpenTerminal {
        session_id: "s1".to_string(),
        container_id: Some("worker-1".to_string()),
        access_token: String::new(),
        hold_enabled: false,
    };
    let step = service.pty_answered(
        &request(),
        terminal,
        "u".to_string(),
        None,
        Err("why".to_string()),
    );
    assert_refused(&step, "pty_connect_failed", true, "pty_connect_failed", "why");
}

#[test]
fn answers_that_nothing_waits_for_change_nothing() {
    let mut service = TerminalService::new();
    let step = then(&mut service, Opening::AwaitingSandbox, OpeningEvent::Hold(Ok(())));
    assert!(matches!(step.next, Opening::AwaitingSandbox));
    assert!(step.actions.is_empty());
    let step = then(&mut service, Opening::Refused, OpeningEvent::Connect(HttpReply::Status(200)));
    assert!(matches!(step.next, Opening::Refused));
    assert!(step.actions.is_empty());
}

fn session(hold_enabled: bool) -> PtySession {
    PtySession::open(
        "sb-1".to_string(),
        "s1".to_string(),
        "op".to_string(),
        None,
        hold_enabled,
    )
}

fn text(now: u64, text: &str) -> BridgeEvent {
    BridgeEvent::Text { now, text: text.to_string() }
}

fn assert_farewell(actions: &[BridgeAction]) {
    match actions {
        [BridgeAction::Kill, BridgeAction::CloseSocket, BridgeAction::Unregister { session_id }, BridgeAction::Audit(event)] =>
        {
            assert_eq!(session_id, "s1");
            assert_eq!(event.level, LogLevel::Info);
            assert_eq!(
                fields(event),
                pairs(&[
                    ("action", "close"),
                    ("sandbox_id", "sb-1"),
                    ("operator_id", "op"),
                    ("session_id", "s1"),
                ])
            );
        }
        other => panic!("unexpected {:?}", other),
    }
}

fn assert_closed(
    actions: &[BridgeAction],
    level: LogLevel,
    action: &str,
    reason: &str,
    message: &str,
) {
    assert_eq!(actions.len(), 6);
    match &actions[..2] {
        [BridgeAction::Audit(event), BridgeAction::Send(TerminalServerEvent::Closed { reason: told, message: said })] =>
        {
            assert_eq!(event.level, level);
            assert_eq!(
                fields(event),
                pairs(&[
                    ("action", action),
                    ("sandbox_id", "sb-1"),
                    ("operator_id", "op"),
                    ("session_id", "s1"),
                    ("reason", reason),
                ])
            );
            assert_eq!(*told, reason);
            assert_eq!(said, message);
        }
        other => panic!("unexpected {:?}", other),
    }
    assert_farewell(&actions[2..]);
}

#[test]
fn idle_sessions_time_out() {
    let mut open = session(false);
    assert_eq!(open.time_left(0), 1_800_000);
    assert!(
        TerminalService::run_pty_session(&mut open, BridgeEvent::Timer { now: 1_799_999 })
            .is_empty()
    );
    let actions =
        TerminalService::run_pty_session(&mut open, BridgeEvent::Timer { now: 1_800_000 });
    assert_closed(
        &actions,
        LogLevel::Info,
        "timeout",
        "idle_timeout",
        "Terminal session closed after idle timeout",
    );
    assert!(open.is_ended());
    assert_eq!(open.time_left(1_800_000), 0);
}

#[test]
fn long_sessions_time_out() {
    let mut open = session(false);
    let actions = TerminalService::run_pty_session(&mut open, text(7_000_000, r#"{"type":"ping"}"#));
    assert!(actions.is_empty());
    assert_eq!(open.time_left(7_000_000), 200_000);
    let actions =
        TerminalService::run_pty_session(&mut open, BridgeEvent::Timer { now: 7_200_000 });
    assert_closed(
        &actions,
        LogLevel::Info,
        "timeout",
        "max_lifetime",
        "Terminal session reached maximum lifetime",
    );
}

#[test]
fn only_input_puts_off_the_idle_timeout() {
    let mut open = session(false);
    TerminalService::run_pty_session(&mut open, BridgeEvent::Ping(vec![1]));
    TerminalService::run_pty_session(&mut open, BridgeEvent::Pong);
    TerminalService::run_pty_session(&mut open, BridgeEvent::Keepalive);
    TerminalService::run_pty_session(&mut open, BridgeEvent::Output("x".to_string()));
    assert_eq!(open.last_activity, 0);
    TerminalService::run_pty_session(
        &mut open,
        BridgeEvent::Binary { now: 9, data: b"x".to_vec() },
    );
    assert_eq!(open.last_activity, 9);
}

#[test]
fn keepalives_hold_the_sandbox() {
    let actions = TerminalService::run_pty_session(&mut session(true), BridgeEvent::Keepalive);
    assert!(matches!(
        actions.as_slice(),
        [BridgeAction::RefreshHold { seconds: 30 }, BridgeAction::Ping]
    ));
    let actions = TerminalService::run_pty_session(&mut session(false), BridgeEvent::Keepalive);
    assert!(matches!(actions.as_slice(), [BridgeAction::Ping]));
}

#[test]
fn typed_text_goes_to_the_process() {
    let mut open = session(false);
    match TerminalService::run_pty_session(&mut open, text(3, "ls\n")).as_slice() {
        [BridgeAction::Input(typed)] => assert_eq!(typed, "ls\n"),
        other => panic!("unexpected {:?}", other),
    }
    assert!(TerminalService::run_pty_session(&mut open, BridgeEvent::Settled(Ok(()))).is_empty());
    let bytes = BridgeEvent::Binary { now: 4, data: vec![b'a', 0xff] };
    match TerminalService::run_pty_session(&mut open, bytes).as_slice() {
        [BridgeAction::Input(typed)] => assert_eq!(typed, "a\u{fffd}"),
        other => panic!("unexpected {:?}", other),
    }
}

#[test]
fn early_input_is_sent_again() {
    let mut open = session(false);
    TerminalService::run_pty_session(&mut open, text(3, "ls\n"));
    let early = "PTY process did not start in time";
    let again =
        TerminalService::run_pty_session(&mut open, BridgeEvent::Settled(Err(early.to_string())));
    match again.as_slice() {
        [BridgeAction::Sleep { millis: 200 }, BridgeAction::Input(typed)] => {
            assert_eq!(typed, "ls\n");
        }
        other => panic!("unexpected {:?}", other),
    }
    let actions =
        TerminalService::run_pty_session(&mut open, BridgeEvent::Settled(Err(early.to_string())));
    assert_closed(
        &actions,
        LogLevel::Warn,
        "close",
        "pty_input_error",
        "Terminal input failed",
    );
    assert!(
        TerminalService::run_pty_session(&mut open, BridgeEvent::Disconnected).is_empty()
    );
}

#[test]
fn resizes_never_end_a_session() {
    let mut open = session(false);
    let resize = r#"{"type":"resize","rows":41,"cols":133}"#;
    let actions = TerminalService::run_pty_session(&mut open, text(3, resize));
    assert!(matches!(
        actions.as_slice(),
        [BridgeAction::Resize { rows: 41, cols: 133 }]
    ));
    let settled = BridgeEvent::Settled(Err("Resize error: 500".to_string()));
    assert!(TerminalService::run_pty_session(&mut open, settled).is_empty());
    assert!(!open.is_ended());
}

#[test]
fn the_meaning_of_a_text_decides() {
    let mut open = session(false);
    let actions = open.text_received(3, "x".to_string(), ClientText::Ignore);
    assert!(actions.is_empty());
    assert_eq!(open.last_activity, 3);
    let actions = open.text_received(4, "x".to_string(), ClientText::Resize { rows: 1, cols: 2 });
    assert!(matches!(
        actions.as_slice(),
        [BridgeAction::Resize { rows: 1, cols: 2 }]
    ));
}

#[test]
fn output_and_pings_are_answered() {
    let mut open = session(false);
    let output = BridgeEvent::Output("hello".to_string());
    match TerminalService::run_pty_session(&mut open, output).as_slice() {
        [BridgeAction::Forward(TerminalServerEvent::Output { data })] => assert_eq!(data, "hello"),
        other => panic!("unexpected {:?}", other),
    }
    match TerminalService::run_pty_session(&mut open, BridgeEvent::Ping(vec![1, 2])).as_slice() {
        [BridgeAction::Pong(data)] => assert_eq!(data, &vec![1, 2]),
        other => panic!("unexpected {:?}", other),
    }
}

#[test]
fn sessions_end_with_a_farewell() {
    for event in [
        BridgeEvent::Disconnected,
        BridgeEvent::OutputClosed,
        BridgeEvent::SendFailed,
    ] {
        let mut open = session(false);
        assert_farewell(&TerminalService::run_pty_session(&mut open, event));
        assert!(open.is_ended());
        assert!(TerminalService::run_pty_session(&mut open, BridgeEvent::Keepalive).is_empty());
    }
}

#[test]
fn happy_path_from_request_to_farewell() {
    let mut service = TerminalService::new();
    let step = first(&mut service, Ok(sandbox(None)));
    let step = then(&mut service, step.next, OpeningEvent::Connect(HttpReply::Status(200)));
    let (mut open, handle): (PtySession, PtyHandle) = match step.next {
        Opening::Established { session, handle } => (session, handle),
        other => panic!("unexpected {:?}", other),
    };
    let actions = TerminalService::run_pty_session(&mut open, text(1, "echo hello from e2e\n"));
    let input = match actions.as_slice() {
        [BridgeAction::Input(typed)] => handle.send_stdin(4242, typed),
        other => panic!("unexpected {:?}", other),
    };
    let payload: serde_json::Value = serde_json::from_slice(&input.body).unwrap();
    assert_eq!(payload["input"]["pty"], "ZWNobyBoZWxsbyBmcm9tIGUyZQo=");
    TerminalService::run_pty_session(&mut open, BridgeEvent::Settled(Ok(())));
    let actions = TerminalService::run_pty_session(&mut open, BridgeEvent::Disconnected);
    assert!(matches!(
        actions.as_slice(),
        [
            BridgeAction::Kill,
            BridgeAction::CloseSocket,
            BridgeAction::Unregister { .. },
            BridgeAction::Audit(_)
        ]
    ));
    assert!(service.unregister_session(&open.session_id).is_some());
}

#[test]
fn runs_unregister_exactly_once() {
    let mut open = session(true);
    let mut count = 0;
    for event in [
        BridgeEvent::Keepalive,
        text(1, "ls\n"),
        BridgeEvent::Settled(Err("SendInput failed: x".to_string())),
        BridgeEvent::Disconnected,
        BridgeEvent::OutputClosed,
        BridgeEvent::Timer { now: 9_000_000 },
    ] {
        count += TerminalService::run_pty_session(&mut open, event)
            .iter()
            .filter(|action| matches!(action, BridgeAction::Unregister { .. }))
            .count();
    }
    assert_eq!(count, 1);
    assert_eq!(AuditEvent::name(), "terminal.session");
}
