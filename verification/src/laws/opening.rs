//! Laws of opening a terminal: what each answer leads to.

use vstd::prelude::*;

use crate::error::AppErrorView;
use crate::events::{AuditView, LogLevel, ServerEventView};
use crate::json::json_bytes;
use crate::laws::pty::{law_credentials_go_along, law_handles_keep_credentials};
use crate::laws::sessions::law_limits_are_what_is_set;
use crate::laws::target::law_targets_are_of_the_sandbox;
use crate::opening::{
    opening_step, OpenTerminalView, OpeningActionView, OpeningEventView, OpeningView, SettingsView,
    TerminalRequestView, OPENING_HOLD,
};
use crate::pty::{
    auth_header_in, reply_outcome, start_headers, start_tree, start_url, HttpReplyView, RequestKind,
};
use crate::envelope::envelope;
use crate::sessions::{sessions_of, SessionView};
use crate::target::{error_code, lookup_code, resolved_target, SandboxDetail, TargetView};
use crate::text::{decimal, replaced};

verus! {

/// What the audit log is told of an opening.
pub open spec fn noted(
    request: TerminalRequestView,
    level: LogLevel,
    action: Seq<char>,
    session_id: Option<Seq<char>>,
    container_id: Option<Seq<char>>,
    reason: Option<Seq<char>>,
) -> OpeningActionView {
    OpeningActionView::Audit(
        AuditView {
            level,
            action,
            sandbox_id: request.sandbox_id,
            session_id,
            operator_id: request.operator_id,
            container_id,
            reason,
        },
    )
}

/// The browser is told an error, and the connection is closed.
pub open spec fn sent_away(code: Seq<char>, message: Seq<char>) -> Seq<OpeningActionView> {
    seq![
        OpeningActionView::Send(ServerEventView::Error { code, message }),
        OpeningActionView::CloseSocket,
    ]
}

/// A sandbox that is due to end is held for an hour.
pub proof fn law_hold_of_an_opening()
    ensures
        OPENING_HOLD == 60 * 60,
{
}

/// The settings are the two limits, 64 and 8 where they are not set.
pub proof fn law_settings(settings: SettingsView, total: usize, per_sandbox: usize)
    ensures
        settings.max_sessions is None ==> settings.limits().total == 64,
        settings.max_sessions_per_sandbox is None ==> settings.limits().per_sandbox == 8,
        settings.max_sessions == Some(decimal(total as nat)) ==> settings.limits().total == total,
        settings.max_sessions_per_sandbox == Some(decimal(per_sandbox as nat))
            ==> settings.limits().per_sandbox == per_sandbox,
{
    law_limits_are_what_is_set(total as nat, Seq::empty(), 64);
    law_limits_are_what_is_set(per_sandbox as nat, Seq::empty(), 8);
}

/// A look-up that failed, or a sandbox without a target, is refused: the log and the browser are
/// told the code and the message of that error, and no session is listed.
pub proof fn law_no_target_no_terminal(
    sessions: Map<Seq<char>, SessionView>,
    request: TerminalRequestView,
    settings: SettingsView,
    sandbox: SandboxDetail,
    error: AppErrorView,
    session_id: Seq<char>,
    started_at: i64,
)
    ensures
        ({
            let step = opening_step(
                sessions,
                OpeningView::AwaitingSandbox,
                OpeningEventView::Sandbox(Err(error)),
                request,
                settings,
                session_id,
                started_at,
            );
            let code = lookup_code(error);
            &&& step.sessions == sessions
            &&& step.next is Refused
            &&& step.actions == seq![
                noted(
                    request,
                    LogLevel::Warn,
                    "target_validation_failed"@,
                    None,
                    None,
                    Some(code),
                ),
            ] + sent_away(code, error.message())
        }),
        resolved_target(sandbox, request.sandbox_id, request.container_selector) matches Err(e)
            ==> ({
            let step = opening_step(
                sessions,
                OpeningView::AwaitingSandbox,
                OpeningEventView::Sandbox(Ok(sandbox)),
                request,
                settings,
                session_id,
                started_at,
            );
            let code = error_code(e);
            &&& step.sessions == sessions
            &&& step.next is Refused
            &&& step.actions == seq![
                noted(
                    request,
                    LogLevel::Warn,
                    "target_validation_failed"@,
                    None,
                    None,
                    Some(code),
                ),
            ] + sent_away(code, e.message())
        }),
{
    let step = opening_step(
        sessions,
        OpeningView::AwaitingSandbox,
        OpeningEventView::Sandbox(Err(error)),
        request,
        settings,
        session_id,
        started_at,
    );
    let code = lookup_code(error);
    assert(step.actions =~= seq![
        noted(request, LogLevel::Warn, "target_validation_failed"@, None, None, Some(code)),
    ] + sent_away(code, error.message()));
    if let Err(e) = resolved_target(sandbox, request.sandbox_id, request.container_selector) {
        let refused = opening_step(
            sessions,
            OpeningView::AwaitingSandbox,
            OpeningEventView::Sandbox(Ok(sandbox)),
            request,
            settings,
            session_id,
            started_at,
        );
        assert(refused.actions =~= seq![
            noted(
                request,
                LogLevel::Warn,
                "target_validation_failed"@,
                None,
                None,
                Some(error_code(e)),
            ),
        ] + sent_away(error_code(e), e.message()));
    }
}

/// A target over the limits is refused under `session_limit`, with the words for the limit that was
/// reached; no session is listed.
pub proof fn law_full_lists_refuse(
    sessions: Map<Seq<char>, SessionView>,
    request: TerminalRequestView,
    settings: SettingsView,
    sandbox: SandboxDetail,
    target: TargetView,
    session_id: Seq<char>,
    started_at: i64,
)
    requires
        resolved_target(sandbox, request.sandbox_id, request.container_selector) == Ok::<
            TargetView,
            AppErrorView,
        >(target),
        sessions.len() >= settings.limits().total || sessions_of(sessions, request.sandbox_id)
            >= settings.limits().per_sandbox,
    ensures
        ({
            let step = opening_step(
                sessions,
                OpeningView::AwaitingSandbox,
                OpeningEventView::Sandbox(Ok(sandbox)),
                request,
                settings,
                session_id,
                started_at,
            );
            let message = if sessions.len() >= settings.limits().total {
                "terminal session limit reached: "@ + decimal(settings.limits().total as nat)
            } else {
                "terminal session limit reached for sandbox "@ + request.sandbox_id + ": "@
                    + decimal(settings.limits().per_sandbox as nat)
            };
            &&& step.sessions == sessions
            &&& step.next is Refused
            &&& step.actions == seq![
                noted(
                    request,
                    LogLevel::Warn,
                    "session_rejected"@,
                    Some(session_id),
                    target.container_id,
                    Some("session_limit"@),
                ),
            ] + sent_away("session_limit"@, message)
        }),
{
    let step = opening_step(
        sessions,
        OpeningView::AwaitingSandbox,
        OpeningEventView::Sandbox(Ok(sandbox)),
        request,
        settings,
        session_id,
        started_at,
    );
    let message = if sessions.len() >= settings.limits().total {
        "terminal session limit reached: "@ + decimal(settings.limits().total as nat)
    } else {
        "terminal session limit reached for sandbox "@ + request.sandbox_id + ": "@ + decimal(
            settings.limits().per_sandbox as nat,
        )
    };
    assert(step.actions =~= seq![
        noted(
            request,
            LogLevel::Warn,
            "session_rejected"@,
            Some(session_id),
            target.container_id,
            Some("session_limit"@),
        ),
    ] + sent_away("session_limit"@, message));
}

/// What is on the way to a terminal once the process is asked for: the log is told that it opens,
/// and the request goes to the process of the sandbox, with the token and the authorization, for
/// the container.
pub open spec fn asks_for_the_process(
    actions: Seq<OpeningActionView>,
    request: TerminalRequestView,
    settings: SettingsView,
    terminal: OpenTerminalView,
) -> bool {
    &&& actions.len() == 2
    &&& actions[0] == noted(
        request,
        LogLevel::Info,
        "open"@,
        Some(terminal.session_id),
        terminal.container_id,
        None,
    )
    &&& actions[1] matches OpeningActionView::Connect(start)
    &&& start.url == start_url(settings.proxy_base, request.sandbox_id)
    &&& start.headers == start_headers(terminal.access_token, auth_header_in(settings.envd_auth))
    &&& start.body == envelope(json_bytes(start_tree(terminal.container_id)))
}

/// A target within the limits gets a session: under the new id, for its sandbox, container and
/// operator, from the given time. A sandbox with a deadline is held first; otherwise the process is
/// asked for at once. The token of the target and whether there is a deadline go along.
pub proof fn law_targets_get_a_session(
    sessions: Map<Seq<char>, SessionView>,
    request: TerminalRequestView,
    settings: SettingsView,
    sandbox: SandboxDetail,
    target: TargetView,
    session_id: Seq<char>,
    started_at: i64,
)
    requires
        resolved_target(sandbox, request.sandbox_id, request.container_selector) == Ok::<
            TargetView,
            AppErrorView,
        >(target),
        sessions.len() < settings.limits().total,
        sessions_of(sessions, request.sandbox_id) < settings.limits().per_sandbox,
    ensures
        ({
            let step = opening_step(
                sessions,
                OpeningView::AwaitingSandbox,
                OpeningEventView::Sandbox(Ok(sandbox)),
                request,
                settings,
                session_id,
                started_at,
            );
            let token = match target.access_token {
                Some(t) => t,
                None => Seq::<char>::empty(),
            };
            let terminal = OpenTerminalView {
                session_id,
                container_id: target.container_id,
                access_token: token,
                hold_enabled: target.end_at is Some,
            };
            &&& step.sessions == sessions.insert(
                session_id,
                SessionView {
                    sandbox_id: request.sandbox_id,
                    container_id: target.container_id,
                    operator_id: request.operator_id,
                    started_at,
                },
            )
            &&& target.end_at is Some ==> step.next == OpeningView::AwaitingHold(terminal)
                && step.actions == seq![OpeningActionView::Hold { seconds: 3600 }]
            &&& target.end_at is None ==> step.next == (OpeningView::AwaitingPty {
                terminal,
                url: start_url(settings.proxy_base, request.sandbox_id),
                envd_auth: auth_header_in(settings.envd_auth),
            }) && asks_for_the_process(step.actions, request, settings, terminal)
        }),
{
}

/// A hold that is granted leads to the process, with the session as it is; one that is not takes
/// the session off the list and refuses.
pub proof fn law_holds_decide(
    sessions: Map<Seq<char>, SessionView>,
    request: TerminalRequestView,
    settings: SettingsView,
    terminal: OpenTerminalView,
    error: AppErrorView,
    session_id: Seq<char>,
    started_at: i64,
)
    ensures
        ({
            let step = opening_step(
                sessions,
                OpeningView::AwaitingHold(terminal),
                OpeningEventView::Hold(Ok(())),
                request,
                settings,
                session_id,
                started_at,
            );
            &&& step.sessions == sessions
            &&& step.next == (OpeningView::AwaitingPty {
                terminal,
                url: start_url(settings.proxy_base, request.sandbox_id),
                envd_auth: auth_header_in(settings.envd_auth),
            })
            &&& asks_for_the_process(step.actions, request, settings, terminal)
        }),
        ({
            let step = opening_step(
                sessions,
                OpeningView::AwaitingHold(terminal),
                OpeningEventView::Hold(Err(error)),
                request,
                settings,
                session_id,
                started_at,
            );
            &&& step.sessions == sessions.remove(terminal.session_id)
            &&& step.next is Refused
            &&& step.actions == seq![
                noted(
                    request,
                    LogLevel::Warn,
                    "hold_failed"@,
                    Some(terminal.session_id),
                    terminal.container_id,
                    Some("sandbox_hold_failed"@),
                ),
            ] + sent_away("sandbox_hold_failed"@, error.message())
        }),
{
    let step = opening_step(
        sessions,
        OpeningView::AwaitingHold(terminal),
        OpeningEventView::Hold(Err(error)),
        request,
        settings,
        session_id,
        started_at,
    );
    assert(step.actions =~= seq![
        noted(
            request,
            LogLevel::Warn,
            "hold_failed"@,
            Some(terminal.session_id),
            terminal.container_id,
            Some("sandbox_hold_failed"@),
        ),
    ] + sent_away("sandbox_hold_failed"@, error.message()));
}

/// A process that starts makes the terminal: the session is the one that was listed, and the
/// process is reached beside the URL that it was started at, with the token and the authorization
/// that it was started with. The browser is told the id of the session.
pub proof fn law_started_processes_make_a_terminal(
    sessions: Map<Seq<char>, SessionView>,
    request: TerminalRequestView,
    settings: SettingsView,
    terminal: OpenTerminalView,
    url: Seq<char>,
    envd_auth: Option<Seq<char>>,
    status: u16,
    session_id: Seq<char>,
    started_at: i64,
    to: Seq<char>,
    body: Seq<u8>,
)
    requires
        200 <= status <= 299,
    ensures
        ({
            let step = opening_step(
                sessions,
                OpeningView::AwaitingPty { terminal, url, envd_auth },
                OpeningEventView::Connect(HttpReplyView::Status(status)),
                request,
                settings,
                session_id,
                started_at,
            );
            &&& step.sessions == sessions
            &&& step.actions == seq![
                OpeningActionView::Send(
                    ServerEventView::Ready { session_id: terminal.session_id },
                ),
            ]
            &&& step.next matches OpeningView::Established { session, handle }
            &&& session.sandbox_id == request.sandbox_id
            &&& session.session_id == terminal.session_id
            &&& session.operator_id == request.operator_id
            &&& session.container_id == terminal.container_id
            &&& session.hold_enabled == terminal.hold_enabled
            &&& session.last_activity == 0
            &&& session.phase is Waiting
            &&& handle.access_token == terminal.access_token
            &&& handle.envd_auth == envd_auth
            &&& handle.send_input_url == replaced(
                url,
                "/process.Process/Start"@,
                "/process.Process/SendInput"@,
            )
            &&& handle.update_url == replaced(
                url,
                "/process.Process/Start"@,
                "/process.Process/Update"@,
            )
            &&& handle.send_signal_url == replaced(
                url,
                "/process.Process/Start"@,
                "/process.Process/SendSignal"@,
            )
            &&& terminal.access_token.len() > 0 ==> handle.request(to, body).headers.contains(
                ("X-Access-Token"@, terminal.access_token),
            )
            &&& envd_auth matches Some(a) ==> handle.request(to, body).headers.contains(
                ("Authorization"@, a),
            )
        }),
{
    law_handles_keep_credentials(url, terminal.access_token, envd_auth, to, body);
}

/// A process that does not start takes the session off the list and refuses, in the words of what
/// went wrong.
pub proof fn law_failed_processes_refuse(
    sessions: Map<Seq<char>, SessionView>,
    request: TerminalRequestView,
    settings: SettingsView,
    terminal: OpenTerminalView,
    url: Seq<char>,
    envd_auth: Option<Seq<char>>,
    reply: HttpReplyView,
    message: Seq<char>,
    session_id: Seq<char>,
    started_at: i64,
)
    requires
        reply_outcome(RequestKind::Start, reply) == Err::<(), Seq<char>>(message),
    ensures
        ({
            let step = opening_step(
                sessions,
                OpeningView::AwaitingPty { terminal, url, envd_auth },
                OpeningEventView::Connect(reply),
                request,
                settings,
                session_id,
                started_at,
            );
            &&& step.sessions == sessions.remove(terminal.session_id)
            &&& step.next is Refused
            &&& step.actions == seq![
                noted(
                    request,
                    LogLevel::Warn,
                    "pty_connect_failed"@,
                    Some(terminal.session_id),
                    terminal.container_id,
                    Some("pty_connect_failed"@),
                ),
            ] + sent_away("pty_connect_failed"@, message)
        }),
{
    let step = opening_step(
        sessions,
        OpeningView::AwaitingPty { terminal, url, envd_auth },
        OpeningEventView::Connect(reply),
        request,
        settings,
        session_id,
        started_at,
    );
    assert(step.actions =~= seq![
        noted(
            request,
            LogLevel::Warn,
            "pty_connect_failed"@,
            Some(terminal.session_id),
            terminal.container_id,
            Some("pty_connect_failed"@),
        ),
    ] + sent_away("pty_connect_failed"@, message));
}

/// The token of a sandbox goes all the way: from a sandbox that runs and has a token, the request
/// that starts the process carries it, and so does every request through the terminal that it
/// makes. The same holds of the authorization that is set.
pub proof fn law_the_token_goes_all_the_way(
    sessions: Map<Seq<char>, SessionView>,
    request: TerminalRequestView,
    settings: SettingsView,
    sandbox: SandboxDetail,
    token: String,
    session_id: Seq<char>,
    started_at: i64,
    status: u16,
    to: Seq<char>,
    body: Seq<u8>,
)
    requires
        sandbox.envd_access_token == Some(token),
        token@.len() > 0,
        sandbox.end_at is None,
        resolved_target(sandbox, request.sandbox_id, request.container_selector) is Ok,
        sessions.len() < settings.limits().total,
        sessions_of(sessions, request.sandbox_id) < settings.limits().per_sandbox,
        200 <= status <= 299,
    ensures
        ({
            let first = opening_step(
                sessions,
                OpeningView::AwaitingSandbox,
                OpeningEventView::Sandbox(Ok(sandbox)),
                request,
                settings,
                session_id,
                started_at,
            );
            let second = opening_step(
                first.sessions,
                first.next,
                OpeningEventView::Connect(HttpReplyView::Status(status)),
                request,
                settings,
                session_id,
                started_at,
            );
            &&& first.actions.len() == 2
            &&& first.actions[1] matches OpeningActionView::Connect(start)
            &&& start.headers.contains(("X-Access-Token"@, token@))
            &&& second.next matches OpeningView::Established { handle, .. }
            &&& handle.access_token == token@
            &&& handle.request(to, body).headers.contains(("X-Access-Token"@, token@))
            &&& auth_header_in(settings.envd_auth) matches Some(a) ==> start.headers.contains(
                ("Authorization"@, a),
            ) && handle.request(to, body).headers.contains(("Authorization"@, a))
        }),
{
    law_targets_are_of_the_sandbox(sandbox, request.sandbox_id, request.container_selector);
    let target = resolved_target(
        sandbox,
        request.sandbox_id,
        request.container_selector,
    )->Ok_0;
    law_targets_get_a_session(
        sessions,
        request,
        settings,
        sandbox,
        target,
        session_id,
        started_at,
    );
    let first = opening_step(
        sessions,
        OpeningView::AwaitingSandbox,
        OpeningEventView::Sandbox(Ok(sandbox)),
        request,
        settings,
        session_id,
        started_at,
    );
    let terminal = OpenTerminalView {
        session_id,
        container_id: target.container_id,
        access_token: token@,
        hold_enabled: false,
    };
    law_started_processes_make_a_terminal(
        first.sessions,
        request,
        settings,
        terminal,
        start_url(settings.proxy_base, request.sandbox_id),
        auth_header_in(settings.envd_auth),
        status,
        session_id,
        started_at,
        to,
        body,
    );
    law_credentials_go_along(token@, auth_header_in(settings.envd_auth));
}

/// An answer that an opening does not wait for changes nothing.
pub proof fn law_stray_answers_change_nothing(
    sessions: Map<Seq<char>, SessionView>,
    opening: OpeningView,
    event: OpeningEventView,
    request: TerminalRequestView,
    settings: SettingsView,
    session_id: Seq<char>,
    started_at: i64,
)
    requires
        !(opening is AwaitingSandbox && event is Sandbox),
        !(opening is AwaitingHold && event is Hold),
        !(opening is AwaitingPty && event is Connect),
    ensures
        ({
            let step = opening_step(
                sessions,
                opening,
                event,
                request,
                settings,
                session_id,
                started_at,
            );
            &&& step.sessions == sessions
            &&& step.next == opening
            &&& step.actions == Seq::<OpeningActionView>::empty()
        }),
{
}

} // verus!
