//! How a terminal is opened: the sandbox is looked up, the session put on the list, the sandbox
//! held, and the process started. Each step can refuse.

use vstd::prelude::*;

use crate::bridge::{PhaseView, PtySession, PtySessionView};
use crate::error::{AppError, AppErrorView};
use crate::events::{AuditEvent, AuditView, LogLevel, ServerEventView, TerminalServerEvent};
use crate::json::json_bytes;
use crate::pty::{
    auth_header_in, handle_at, outcome_of, outcome_view, reply_outcome, start_request, start_tree,
    start_url, start_url_of, HttpReply, HttpReplyView, HttpRequest, HttpRequestView, PtyHandle,
    PtyHandleView, RequestKind,
};
use crate::sessions::{
    law_register_keeps_limits, law_unregister_keeps_limits, limit_in, limit_reached,
    utc_now_micros, within_limits, SessionLimits, SessionView, TerminalService,
};
use crate::target::{
    chosen_container, containers_in, error_code, first_by, is_running,
    law_empty_sandboxes_are_named_so, law_missing_containers_are_named_so,
    law_several_containers_ask_for_a_choice, law_stopped_containers_are_named_so,
    law_stopped_sandboxes_are_named_so, lookup_code, resolved_target, selector_in, SandboxDetail,
    SandboxState, TargetView,
};
use crate::text::{optional_chars, optional_str};

verus! {

/// How long a sandbox is held for a terminal that is being opened, in seconds.
pub const OPENING_HOLD: i32 = 3600;

/// Who wants a terminal, and where.
#[derive(Debug)]
pub struct TerminalRequest {
    pub sandbox_id: String,
    pub container_selector: Option<String>,
    pub operator_id: String,
}

/// A `TerminalRequest`, its strings as characters.
pub struct TerminalRequestView {
    pub sandbox_id: Seq<char>,
    pub container_selector: Option<Seq<char>>,
    pub operator_id: Seq<char>,
}

impl View for TerminalRequest {
    type V = TerminalRequestView;

    open spec fn view(&self) -> TerminalRequestView {
        TerminalRequestView {
            sandbox_id: self.sandbox_id@,
            container_selector: optional_chars(self.container_selector),
            operator_id: self.operator_id@,
        }
    }
}

/// The settings of terminals, as they were written; a missing one has its default.
#[derive(Debug)]
pub struct TerminalSettings {
    pub max_sessions: Option<String>,
    pub max_sessions_per_sandbox: Option<String>,
    pub proxy_base: Option<String>,
    pub envd_auth: Option<String>,
}

/// `TerminalSettings`, its strings as characters.
pub struct SettingsView {
    pub max_sessions: Option<Seq<char>>,
    pub max_sessions_per_sandbox: Option<Seq<char>>,
    pub proxy_base: Option<Seq<char>>,
    pub envd_auth: Option<Seq<char>>,
}

impl View for TerminalSettings {
    type V = SettingsView;

    open spec fn view(&self) -> SettingsView {
        SettingsView {
            max_sessions: optional_chars(self.max_sessions),
            max_sessions_per_sandbox: optional_chars(self.max_sessions_per_sandbox),
            proxy_base: optional_chars(self.proxy_base),
            envd_auth: optional_chars(self.envd_auth),
        }
    }
}

impl SettingsView {
    /// How many sessions may be open.
    pub open spec fn limits(self) -> SessionLimits {
        SessionLimits {
            total: limit_in(self.max_sessions, 64) as usize,
            per_sandbox: limit_in(self.max_sessions_per_sandbox, 8) as usize,
        }
    }
}

/// A terminal that is on the list of sessions.
#[derive(Debug)]
pub struct OpenTerminal {
    pub session_id: String,
    pub container_id: Option<String>,
    pub access_token: String,
    pub hold_enabled: bool,
}

/// An `OpenTerminal`, its strings as characters.
pub struct OpenTerminalView {
    pub session_id: Seq<char>,
    pub container_id: Option<Seq<char>>,
    pub access_token: Seq<char>,
    pub hold_enabled: bool,
}

impl View for OpenTerminal {
    type V = OpenTerminalView;

    open spec fn view(&self) -> OpenTerminalView {
        OpenTerminalView {
            session_id: self.session_id@,
            container_id: optional_chars(self.container_id),
            access_token: self.access_token@,
            hold_enabled: self.hold_enabled,
        }
    }
}

/// What the opening of a terminal is waiting for.
#[derive(Debug)]
pub enum Opening {
    /// What the sandbox is.
    AwaitingSandbox,
    /// Whether the sandbox is held.
    AwaitingHold(OpenTerminal),
    /// Whether the process is started.
    AwaitingPty { terminal: OpenTerminal, url: String, envd_auth: Option<String> },
    /// Nothing: the terminal is open.
    Established { session: PtySession, handle: PtyHandle },
    /// Nothing: no terminal was opened.
    Refused,
}

/// An `Opening`, its strings as characters.
pub enum OpeningView {
    AwaitingSandbox,
    AwaitingHold(OpenTerminalView),
    AwaitingPty { terminal: OpenTerminalView, url: Seq<char>, envd_auth: Option<Seq<char>> },
    Established { session: PtySessionView, handle: PtyHandleView },
    Refused,
}

impl View for Opening {
    type V = OpeningView;

    open spec fn view(&self) -> OpeningView {
        match self {
            Opening::AwaitingSandbox => OpeningView::AwaitingSandbox,
            Opening::AwaitingHold(terminal) => OpeningView::AwaitingHold(terminal@),
            Opening::AwaitingPty { terminal, url, envd_auth } => OpeningView::AwaitingPty {
                terminal: terminal@,
                url: url@,
                envd_auth: optional_chars(*envd_auth),
            },
            Opening::Established { session, handle } => OpeningView::Established {
                session: session@,
                handle: handle@,
            },
            Opening::Refused => OpeningView::Refused,
        }
    }
}

/// What the opening of a terminal learns.
pub enum OpeningEvent {
    /// What the sandbox is, or why that is not known.
    Sandbox(Result<SandboxDetail, AppError>),
    /// Whether the sandbox is held.
    Hold(Result<(), AppError>),
    /// What came of the request that starts the process.
    Connect(HttpReply),
}

/// An `OpeningEvent` as plain values.
pub enum OpeningEventView {
    Sandbox(Result<SandboxDetail, AppErrorView>),
    Hold(Result<(), AppErrorView>),
    Connect(HttpReplyView),
}

impl View for OpeningEvent {
    type V = OpeningEventView;

    open spec fn view(&self) -> OpeningEventView {
        match self {
            OpeningEvent::Sandbox(Ok(sandbox)) => OpeningEventView::Sandbox(Ok(*sandbox)),
            OpeningEvent::Sandbox(Err(e)) => OpeningEventView::Sandbox(Err(e@)),
            OpeningEvent::Hold(Ok(())) => OpeningEventView::Hold(Ok(())),
            OpeningEvent::Hold(Err(e)) => OpeningEventView::Hold(Err(e@)),
            OpeningEvent::Connect(reply) => OpeningEventView::Connect(reply@),
        }
    }
}

/// What is to be done for the opening of a terminal, one after another.
#[derive(Debug)]
pub enum OpeningAction {
    /// Write to the audit log.
    Audit(AuditEvent),
    /// Tell the browser; a failure does not matter.
    Send(TerminalServerEvent),
    /// Close the connection to the browser.
    CloseSocket,
    /// Hold the sandbox; the answer is an event.
    Hold { seconds: i32 },
    /// Start the process; the answer is an event.
    Connect(HttpRequest),
}

/// An `OpeningAction` as plain values.
pub enum OpeningActionView {
    Audit(AuditView),
    Send(ServerEventView),
    CloseSocket,
    Hold { seconds: i32 },
    Connect(HttpRequestView),
}

impl View for OpeningAction {
    type V = OpeningActionView;

    open spec fn view(&self) -> OpeningActionView {
        match self {
            OpeningAction::Audit(event) => OpeningActionView::Audit(event@),
            OpeningAction::Send(event) => OpeningActionView::Send(event@),
            OpeningAction::CloseSocket => OpeningActionView::CloseSocket,
            OpeningAction::Hold { seconds } => OpeningActionView::Hold { seconds: *seconds },
            OpeningAction::Connect(request) => OpeningActionView::Connect(request@),
        }
    }
}

/// Actions as plain values.
pub open spec fn opening_action_views(actions: Seq<OpeningAction>) -> Seq<OpeningActionView> {
    Seq::new(actions.len(), |i: int| actions[i]@)
}

/// The opening of a terminal after a step: the open sessions, what is waited for next, and what is
/// to be done.
pub struct OpeningStepView {
    pub sessions: Map<Seq<char>, SessionView>,
    pub next: OpeningView,
    pub actions: Seq<OpeningActionView>,
}

/// A refusal: it is written to the audit log, the browser is told, and the connection is closed.
pub open spec fn refusal(
    request: TerminalRequestView,
    action: Seq<char>,
    session_id: Option<Seq<char>>,
    container_id: Option<Seq<char>>,
    code: Seq<char>,
    message: Seq<char>,
) -> Seq<OpeningActionView> {
    seq![
        OpeningActionView::Audit(
            AuditView {
                level: LogLevel::Warn,
                action,
                sandbox_id: request.sandbox_id,
                session_id,
                operator_id: request.operator_id,
                container_id,
                reason: Some(code),
            },
        ),
        OpeningActionView::Send(ServerEventView::Error { code, message }),
        OpeningActionView::CloseSocket,
    ]
}

/// The process is to be started: that the terminal opens is written to the audit log.
pub open spec fn connect_step(
    sessions: Map<Seq<char>, SessionView>,
    request: TerminalRequestView,
    settings: SettingsView,
    terminal: OpenTerminalView,
) -> OpeningStepView {
    let url = start_url(settings.proxy_base, request.sandbox_id);
    let envd_auth = auth_header_in(settings.envd_auth);
    OpeningStepView {
        sessions,
        next: OpeningView::AwaitingPty { terminal, url, envd_auth },
        actions: seq![
            OpeningActionView::Audit(
                AuditView {
                    level: LogLevel::Info,
                    action: "open"@,
                    sandbox_id: request.sandbox_id,
                    session_id: Some(terminal.session_id),
                    operator_id: request.operator_id,
                    container_id: terminal.container_id,
                    reason: None,
                },
            ),
            OpeningActionView::Connect(
                start_request(
                    url,
                    terminal.access_token,
                    envd_auth,
                    json_bytes(start_tree(terminal.container_id)),
                ),
            ),
        ],
    }
}

/// What a terminal is opened in is known: its session goes on the list, unless a limit is reached,
/// and a sandbox that has a deadline is held.
pub open spec fn resolved_step(
    sessions: Map<Seq<char>, SessionView>,
    request: TerminalRequestView,
    settings: SettingsView,
    target: TargetView,
    session_id: Seq<char>,
    started_at: i64,
) -> OpeningStepView {
    match limit_reached(sessions, request.sandbox_id, settings.limits()) {
        Some(e) => OpeningStepView {
            sessions,
            next: OpeningView::Refused,
            actions: refusal(
                request,
                "session_rejected"@,
                Some(session_id),
                target.container_id,
                error_code(e),
                e.message(),
            ),
        },
        None => {
            let listed = sessions.insert(
                session_id,
                SessionView {
                    sandbox_id: request.sandbox_id,
                    container_id: target.container_id,
                    operator_id: request.operator_id,
                    started_at,
                },
            );
            let terminal = OpenTerminalView {
                session_id,
                container_id: target.container_id,
                access_token: match target.access_token {
                    Some(token) => token,
                    None => Seq::empty(),
                },
                hold_enabled: target.end_at is Some,
            };
            if target.end_at is Some {
                OpeningStepView {
                    sessions: listed,
                    next: OpeningView::AwaitingHold(terminal),
                    actions: seq![OpeningActionView::Hold { seconds: OPENING_HOLD }],
                }
            } else {
                connect_step(listed, request, settings, terminal)
            }
        },
    }
}

/// There is nothing that a terminal could be opened in.
pub open spec fn target_refused_step(
    sessions: Map<Seq<char>, SessionView>,
    request: TerminalRequestView,
    code: Seq<char>,
    error: AppErrorView,
) -> OpeningStepView {
    OpeningStepView {
        sessions,
        next: OpeningView::Refused,
        actions: refusal(
            request,
            "target_validation_failed"@,
            None,
            None,
            code,
            error.message(),
        ),
    }
}

/// The answer about the sandbox has come. The code of a refusal goes by its cause: the look-up, or
/// what was found.
pub open spec fn sandbox_step(
    sessions: Map<Seq<char>, SessionView>,
    request: TerminalRequestView,
    settings: SettingsView,
    sandbox: Result<SandboxDetail, AppErrorView>,
    session_id: Seq<char>,
    started_at: i64,
) -> OpeningStepView {
    match sandbox {
        Err(e) => target_refused_step(sessions, request, lookup_code(e), e),
        Ok(detail) => match resolved_target(
            detail,
            request.sandbox_id,
            request.container_selector,
        ) {
            Err(e) => target_refused_step(sessions, request, error_code(e), e),
            Ok(t) => resolved_step(sessions, request, settings, t, session_id, started_at),
        },
    }
}

/// The answer about the hold has come.
pub open spec fn hold_step(
    sessions: Map<Seq<char>, SessionView>,
    request: TerminalRequestView,
    settings: SettingsView,
    terminal: OpenTerminalView,
    held: Result<(), AppErrorView>,
) -> OpeningStepView {
    match held {
        Ok(()) => connect_step(sessions, request, settings, terminal),
        Err(e) => OpeningStepView {
            sessions: sessions.remove(terminal.session_id),
            next: OpeningView::Refused,
            actions: refusal(
                request,
                "hold_failed"@,
                Some(terminal.session_id),
                terminal.container_id,
                "sandbox_hold_failed"@,
                e.message(),
            ),
        },
    }
}

/// The answer about the process has come.
pub open spec fn pty_step(
    sessions: Map<Seq<char>, SessionView>,
    request: TerminalRequestView,
    terminal: OpenTerminalView,
    url: Seq<char>,
    envd_auth: Option<Seq<char>>,
    outcome: Result<(), Seq<char>>,
) -> OpeningStepView {
    match outcome {
        Ok(()) => OpeningStepView {
            sessions,
            next: OpeningView::Established {
                session: PtySessionView {
                    sandbox_id: request.sandbox_id,
                    session_id: terminal.session_id,
                    operator_id: request.operator_id,
                    container_id: terminal.container_id,
                    hold_enabled: terminal.hold_enabled,
                    last_activity: 0,
                    phase: PhaseView::Waiting,
                },
                handle: handle_at(url, terminal.access_token, envd_auth),
            },
            actions: seq![
                OpeningActionView::Send(
                    ServerEventView::Ready { session_id: terminal.session_id },
                ),
            ],
        },
        Err(message) => OpeningStepView {
            sessions: sessions.remove(terminal.session_id),
            next: OpeningView::Refused,
            actions: refusal(
                request,
                "pty_connect_failed"@,
                Some(terminal.session_id),
                terminal.container_id,
                "pty_connect_failed"@,
                message,
            ),
        },
    }
}

/// What an answer does to the opening of a terminal, for the session id and the time that a new
/// session gets. An answer that is not waited for changes nothing.
pub open spec fn opening_step(
    sessions: Map<Seq<char>, SessionView>,
    opening: OpeningView,
    event: OpeningEventView,
    request: TerminalRequestView,
    settings: SettingsView,
    session_id: Seq<char>,
    started_at: i64,
) -> OpeningStepView {
    match (opening, event) {
        (OpeningView::AwaitingSandbox, OpeningEventView::Sandbox(sandbox)) => sandbox_step(
            sessions,
            request,
            settings,
            sandbox,
            session_id,
            started_at,
        ),
        (OpeningView::AwaitingHold(terminal), OpeningEventView::Hold(held)) => hold_step(
            sessions,
            request,
            settings,
            terminal,
            held,
        ),
        (
            OpeningView::AwaitingPty { terminal, url, envd_auth },
            OpeningEventView::Connect(reply),
        ) => pty_step(
            sessions,
            request,
            terminal,
            url,
            envd_auth,
            reply_outcome(RequestKind::Start, reply),
        ),
        _ => OpeningStepView { sessions, next: opening, actions: Seq::empty() },
    }
}

/// A character of a number in lower-case hexadecimal.
pub open spec fn is_hex(c: char) -> bool {
    ('0' <= c && c <= '9') || ('a' <= c && c <= 'f')
}

/// A text has the form of a random UUID: five groups of lower-case hexadecimal digits with hyphens
/// between them, version 4 and the variant that goes with it.
pub open spec fn is_session_id(id: Seq<char>) -> bool {
    &&& id.len() == 36
    &&& id[8] == '-' && id[13] == '-' && id[18] == '-' && id[23] == '-'
    &&& id[14] == '4'
    &&& id[19] == '8' || id[19] == '9' || id[19] == 'a' || id[19] == 'b'
    &&& forall|i: int|
        0 <= i < 36 && i != 8 && i != 13 && i != 18 && i != 23 ==> is_hex(#[trigger] id[i])
}

/// `uuid::Uuid::new_v4` makes a random UUID of version 4, which is written in lower-case
/// hexadecimal with hyphens. That no two are the same is not claimed: they are random.
#[verifier::external_body]
pub(crate) fn new_session_id() -> (id: String)
    ensures
        is_session_id(id@),
{
    uuid::Uuid::new_v4().to_string()
}

/// The step of an opening.
pub struct OpeningStep {
    pub next: Opening,
    pub actions: Vec<OpeningAction>,
}

fn copied(text: &Option<String>) -> (copy: Option<String>)
    ensures
        optional_chars(copy) == optional_chars(*text),
{
    match text {
        Some(t) => Some(t.clone()),
        None => None,
    }
}

fn borrowed(text: &Option<String>) -> (r: Option<&str>)
    ensures
        optional_str(r) == optional_chars(*text),
{
    match text {
        Some(t) => Some(t.as_str()),
        None => None,
    }
}

impl TerminalSettings {
    /// How many sessions may be open.
    pub fn limits(&self) -> (limits: SessionLimits)
        ensures
            limits == self@.limits(),
    {
        SessionLimits {
            total: TerminalService::max_total_sessions(borrowed(&self.max_sessions)),
            per_sandbox: TerminalService::max_sessions_per_sandbox(
                borrowed(&self.max_sessions_per_sandbox),
            ),
        }
    }
}

impl TerminalService {
    /// How long a sandbox is held for a terminal that is being opened, in seconds: only one that
    /// has a deadline is.
    pub fn hold_sandbox_for_terminal(has_deadline: bool) -> (seconds: Option<i32>)
        ensures
            seconds == if has_deadline {
                Some(OPENING_HOLD)
            } else {
                None
            },
    {
        if !has_deadline {
            return None;
        }
        Some(OPENING_HOLD)
    }

    /// Tells the browser about an error and closes the connection.
    pub fn close_with_error(
        actions: &mut Vec<OpeningAction>,
        code: &'static str,
        message: String,
    )
        ensures
            opening_action_views(final(actions)@) == opening_action_views(old(actions)@) + seq![
                OpeningActionView::Send(ServerEventView::Error { code: code@, message: message@ }),
                OpeningActionView::CloseSocket,
            ],
    {
        let ghost before = opening_action_views(actions@);
        let ghost told = message@;
        actions.push(OpeningAction::Send(TerminalServerEvent::Error { code, message }));
        actions.push(OpeningAction::CloseSocket);
        assert(opening_action_views(actions@) =~= before + seq![
            OpeningActionView::Send(ServerEventView::Error { code: code@, message: told }),
            OpeningActionView::CloseSocket,
        ]);
    }

    /// A refusal.
    fn refuse(
        request: &TerminalRequest,
        action: &'static str,
        session_id: Option<String>,
        container_id: Option<String>,
        code: &'static str,
        message: String,
    ) -> (step: OpeningStep)
        ensures
            step.next@ == OpeningView::Refused,
            opening_action_views(step.actions@) == refusal(
                request@,
                action@,
                optional_chars(session_id),
                optional_chars(container_id),
                code@,
                message@,
            ),
    {
        let ghost told = message@;
        let event = AuditEvent {
            level: LogLevel::Warn,
            action,
            sandbox_id: request.sandbox_id.clone(),
            session_id,
            operator_id: request.operator_id.clone(),
            container_id,
            reason: Some(code),
        };
        let mut actions: Vec<OpeningAction> = Vec::new();
        actions.push(OpeningAction::Audit(event));
        assert(opening_action_views(actions@) =~= seq![OpeningActionView::Audit(event@)]);
        Self::close_with_error(&mut actions, code, message);
        assert(opening_action_views(actions@) =~= refusal(
            request@,
            action@,
            optional_chars(session_id),
            optional_chars(container_id),
            code@,
            told,
        ));
        OpeningStep { next: Opening::Refused, actions }
    }

    /// The process is to be started.
    fn connect(
        request: &TerminalRequest,
        settings: &TerminalSettings,
        terminal: OpenTerminal,
        sessions: Ghost<Map<Seq<char>, SessionView>>,
    ) -> (step: OpeningStep)
        ensures
            connect_step(sessions@, request@, settings@, terminal@) == (OpeningStepView {
                sessions: sessions@,
                next: step.next@,
                actions: opening_action_views(step.actions@),
            }),
    {
        let url = start_url_of(borrowed(&settings.proxy_base), request.sandbox_id.as_str());
        let envd_auth = Self::terminal_auth_header(borrowed(&settings.envd_auth));
        let mut actions: Vec<OpeningAction> = Vec::new();
        actions.push(
            OpeningAction::Audit(
                AuditEvent {
                    level: LogLevel::Info,
                    action: "open",
                    sandbox_id: request.sandbox_id.clone(),
                    session_id: Some(terminal.session_id.clone()),
                    operator_id: request.operator_id.clone(),
                    container_id: copied(&terminal.container_id),
                    reason: None,
                },
            ),
        );
        let start = Self::connect_envd_pty(
            url.as_str(),
            terminal.access_token.as_str(),
            borrowed(&envd_auth),
            borrowed(&terminal.container_id),
        );
        actions.push(OpeningAction::Connect(start));
        assert(opening_action_views(actions@) =~= connect_step(
            sessions@,
            request@,
            settings@,
            terminal@,
        ).actions);
        OpeningStep { next: Opening::AwaitingPty { terminal, url, envd_auth }, actions }
    }

    /// The answer about the sandbox has come.
    fn sandbox_answered(
        &mut self,
        request: &TerminalRequest,
        settings: &TerminalSettings,
        sandbox: Result<SandboxDetail, AppError>,
        session_id: String,
        started_at: i64,
    ) -> (step: OpeningStep)
        requires
            old(self).wf(),
        ensures
            final(self).wf(),
            sandbox_step(
                old(self)@,
                request@,
                settings@,
                match sandbox {
                    Ok(detail) => Ok(detail),
                    Err(e) => Err(e@),
                },
                session_id@,
                started_at,
            ) == (OpeningStepView {
                sessions: final(self)@,
                next: step.next@,
                actions: opening_action_views(step.actions@),
            }),
    {
        let resolved = match sandbox {
            Ok(detail) => match Self::validate_terminal_target(
                &detail,
                request.sandbox_id.as_str(),
                borrowed(&request.container_selector),
            ) {
                Ok(t) => Ok(t),
                Err(e) => {
                    let code = Self::terminal_error_code(&e);
                    Err((code, e))
                },
            },
            Err(e) => {
                let code = Self::lookup_error_code(&e);
                Err((code, e))
            },
        };
        let target = match resolved {
            Ok(t) => t,
            Err((code, e)) => {
                return Self::refuse(
                    request,
                    "target_validation_failed",
                    None,
                    None,
                    code,
                    e.to_string(),
                );
            },
        };
        let hold = Self::hold_sandbox_for_terminal(target.end_at.is_some());
        let access_token = match target.access_token {
            Some(token) => token,
            None => String::new(),
        };
        let registered = self.register_session_at(
            session_id.clone(),
            request.sandbox_id.clone(),
            copied(&target.container_id),
            request.operator_id.clone(),
            &settings.limits(),
            started_at,
        );
        if let Err(e) = registered {
            let code = Self::terminal_error_code(&e);
            return Self::refuse(
                request,
                "session_rejected",
                Some(session_id),
                target.container_id,
                code,
                e.to_string(),
            );
        }
        let terminal = OpenTerminal {
            session_id,
            container_id: target.container_id,
            access_token,
            hold_enabled: target.end_at.is_some(),
        };
        match hold {
            Some(seconds) => {
                let mut actions: Vec<OpeningAction> = Vec::new();
                actions.push(OpeningAction::Hold { seconds });
                assert(opening_action_views(actions@) =~= seq![
                    OpeningActionView::Hold { seconds: OPENING_HOLD },
                ]);
                OpeningStep { next: Opening::AwaitingHold(terminal), actions }
            },
            None => Self::connect(request, settings, terminal, Ghost(self@)),
        }
    }

    /// The answer about the hold has come.
    fn hold_answered(
        &mut self,
        request: &TerminalRequest,
        settings: &TerminalSettings,
        terminal: OpenTerminal,
        held: Result<(), AppError>,
    ) -> (step: OpeningStep)
        requires
            old(self).wf(),
        ensures
            final(self).wf(),
            hold_step(
                old(self)@,
                request@,
                settings@,
                terminal@,
                match held {
                    Ok(()) => Ok(()),
                    Err(e) => Err(e@),
                },
            ) == (OpeningStepView {
                sessions: final(self)@,
                next: step.next@,
                actions: opening_action_views(step.actions@),
            }),
    {
        match held {
            Ok(()) => Self::connect(request, settings, terminal, Ghost(self@)),
            Err(e) => {
                let _ = self.unregister_session(terminal.session_id.as_str());
                Self::refuse(
                    request,
                    "hold_failed",
                    Some(terminal.session_id),
                    terminal.container_id,
                    "sandbox_hold_failed",
                    e.to_string(),
                )
            },
        }
    }

    /// The answer about the process has come. `outcome` is what it means.
    pub fn pty_answered(
        &mut self,
        request: &TerminalRequest,
        terminal: OpenTerminal,
        url: String,
        envd_auth: Option<String>,
        outcome: Result<(), String>,
    ) -> (step: OpeningStep)
        requires
            old(self).wf(),
        ensures
            final(self).wf(),
            pty_step(
                old(self)@,
                request@,
                terminal@,
                url@,
                optional_chars(envd_auth),
                outcome_view(outcome),
            ) == (OpeningStepView {
                sessions: final(self)@,
                next: step.next@,
                actions: opening_action_views(step.actions@),
            }),
    {
        match outcome {
            Ok(()) => {
                let mut actions: Vec<OpeningAction> = Vec::new();
                actions.push(
                    OpeningAction::Send(
                        TerminalServerEvent::Ready { session_id: terminal.session_id.clone() },
                    ),
                );
                assert(opening_action_views(actions@) =~= seq![
                    OpeningActionView::Send(
                        ServerEventView::Ready { session_id: terminal.session_id@ },
                    ),
                ]);
                let handle = PtyHandle::new(url.as_str(), terminal.access_token, envd_auth);
                let session = PtySession::open(
                    request.sandbox_id.clone(),
                    terminal.session_id,
                    request.operator_id.clone(),
                    terminal.container_id,
                    terminal.hold_enabled,
                );
                OpeningStep { next: Opening::Established { session, handle }, actions }
            },
            Err(message) => {
                let _ = self.unregister_session(terminal.session_id.as_str());
                Self::refuse(
                    request,
                    "pty_connect_failed",
                    Some(terminal.session_id),
                    terminal.container_id,
                    "pty_connect_failed",
                    message,
                )
            },
        }
    }

    /// Takes the next answer for the opening of a terminal. A new session gets the given id and
    /// time.
    pub fn handle_terminal_as(
        &mut self,
        opening: Opening,
        event: OpeningEvent,
        request: &TerminalRequest,
        settings: &TerminalSettings,
        session_id: String,
        started_at: i64,
    ) -> (step: OpeningStep)
        requires
            old(self).wf(),
            event@ matches OpeningEventView::Connect(reply) ==> reply.wf(),
        ensures
            final(self).wf(),
            opening_step(
                old(self)@,
                opening@,
                event@,
                request@,
                settings@,
                session_id@,
                started_at,
            ) == (OpeningStepView {
                sessions: final(self)@,
                next: step.next@,
                actions: opening_action_views(step.actions@),
            }),
    {
        match (opening, event) {
            (Opening::AwaitingSandbox, OpeningEvent::Sandbox(sandbox)) => self.sandbox_answered(
                request,
                settings,
                sandbox,
                session_id,
                started_at,
            ),
            (Opening::AwaitingHold(terminal), OpeningEvent::Hold(held)) => self.hold_answered(
                request,
                settings,
                terminal,
                held,
            ),
            (
                Opening::AwaitingPty { terminal, url, envd_auth },
                OpeningEvent::Connect(reply),
            ) => {
                let outcome = outcome_of(RequestKind::Start, &reply);
                self.pty_answered(request, terminal, url, envd_auth, outcome)
            },
            (opening, _) => {
                let actions: Vec<OpeningAction> = Vec::new();
                assert(opening_action_views(actions@) =~= Seq::empty());
                OpeningStep { next: opening, actions }
            },
        }
    }

    /// Takes the next answer for the opening of a terminal. A new session gets a random id and is
    /// opened now.
    pub fn handle_terminal(
        &mut self,
        opening: Opening,
        event: OpeningEvent,
        request: &TerminalRequest,
        settings: &TerminalSettings,
    ) -> (step: OpeningStep)
        requires
            old(self).wf(),
            event@ matches OpeningEventView::Connect(reply) ==> reply.wf(),
        ensures
            final(self).wf(),
            exists|session_id: Seq<char>, started_at: i64|
                is_session_id(session_id) && started_at >= 0 && #[trigger] opening_step(
                    old(self)@,
                    opening@,
                    event@,
                    request@,
                    settings@,
                    session_id,
                    started_at,
                ) == (OpeningStepView {
                    sessions: final(self)@,
                    next: step.next@,
                    actions: opening_action_views(step.actions@),
                }),
    {
        let session_id = new_session_id();
        let started_at = utc_now_micros();
        self.handle_terminal_as(opening, event, request, settings, session_id, started_at)
    }
}

/// The session that an opening is about: the one that it has, or the one that it would get.
pub open spec fn own_session(opening: OpeningView, session_id: Seq<char>) -> Seq<char> {
    match opening {
        OpeningView::AwaitingHold(terminal) => terminal.session_id,
        OpeningView::AwaitingPty { terminal, .. } => terminal.session_id,
        OpeningView::Established { session, .. } => session.session_id,
        _ => session_id,
    }
}

/// An opening has a session on the list from the moment when it gets one until it is refused.
pub open spec fn listed_by(opening: OpeningView) -> bool {
    opening is AwaitingHold || opening is AwaitingPty || opening is Established
}

/// The opening of a terminal changes nothing about other sessions.
pub proof fn law_other_sessions_stay(
    sessions: Map<Seq<char>, SessionView>,
    opening: OpeningView,
    event: OpeningEventView,
    request: TerminalRequestView,
    settings: SettingsView,
    session_id: Seq<char>,
    started_at: i64,
)
    ensures
        opening_step(
            sessions,
            opening,
            event,
            request,
            settings,
            session_id,
            started_at,
        ).sessions.remove(own_session(opening, session_id)) == sessions.remove(
            own_session(opening, session_id),
        ),
{
    let id = own_session(opening, session_id);
    let now = opening_step(
        sessions,
        opening,
        event,
        request,
        settings,
        session_id,
        started_at,
    ).sessions;
    assert(now.remove(id) =~= sessions.remove(id));
}

/// A session is on the list as long as its terminal is being opened or open: it comes with the
/// new id, and a refusal takes it off again.
pub proof fn law_refused_terminals_leave_no_session(
    sessions: Map<Seq<char>, SessionView>,
    opening: OpeningView,
    event: OpeningEventView,
    request: TerminalRequestView,
    settings: SettingsView,
    session_id: Seq<char>,
    started_at: i64,
)
    requires
        sessions.contains_key(own_session(opening, session_id)) == listed_by(opening),
    ensures
        ({
            let step = opening_step(
                sessions,
                opening,
                event,
                request,
                settings,
                session_id,
                started_at,
            );
            &&& own_session(step.next, session_id) == own_session(opening, session_id)
                || step.next is Refused
            &&& step.sessions.contains_key(own_session(opening, session_id)) == listed_by(step.next)
        }),
{
}

/// The opening of a terminal keeps the sessions within the limits.
pub proof fn law_opening_keeps_limits(
    sessions: Map<Seq<char>, SessionView>,
    opening: OpeningView,
    event: OpeningEventView,
    request: TerminalRequestView,
    settings: SettingsView,
    session_id: Seq<char>,
    started_at: i64,
)
    requires
        within_limits(sessions, settings.limits()),
    ensures
        within_limits(
            opening_step(
                sessions,
                opening,
                event,
                request,
                settings,
                session_id,
                started_at,
            ).sessions,
            settings.limits(),
        ),
{
    let limits = settings.limits();
    match (opening, event) {
        (OpeningView::AwaitingSandbox, OpeningEventView::Sandbox(Ok(detail))) => {
            if let Ok(target) = resolved_target(
                detail,
                request.sandbox_id,
                request.container_selector,
            ) {
                if limit_reached(sessions, request.sandbox_id, limits) is None {
                    law_register_keeps_limits(
                        sessions,
                        limits,
                        session_id,
                        SessionView {
                            sandbox_id: request.sandbox_id,
                            container_id: target.container_id,
                            operator_id: request.operator_id,
                            started_at,
                        },
                    );
                }
            }
        },
        (OpeningView::AwaitingHold(terminal), _) => {
            law_unregister_keeps_limits(sessions, limits, terminal.session_id);
        },
        (OpeningView::AwaitingPty { terminal, .. }, _) => {
            law_unregister_keeps_limits(sessions, limits, terminal.session_id);
        },
        _ => {},
    }
}

/// Every refusal is answered alike: a warning in the audit log, then the error for the browser
/// under the same code, then the end of the connection.
pub proof fn law_every_refusal_is_audited_and_told(
    sessions: Map<Seq<char>, SessionView>,
    opening: OpeningView,
    event: OpeningEventView,
    request: TerminalRequestView,
    settings: SettingsView,
    session_id: Seq<char>,
    started_at: i64,
)
    requires
        !(opening is Refused),
    ensures
        ({
            let step = opening_step(
                sessions,
                opening,
                event,
                request,
                settings,
                session_id,
                started_at,
            );
            step.next is Refused ==> {
                &&& step.actions.len() == 3
                &&& step.actions[0] matches OpeningActionView::Audit(entry)
                &&& step.actions[1] matches OpeningActionView::Send(
                    ServerEventView::Error { code, .. },
                )
                &&& step.actions[2] == OpeningActionView::CloseSocket
                &&& entry.level == LogLevel::Warn
                &&& entry.reason == Some(code)
                &&& entry.sandbox_id == request.sandbox_id
                &&& entry.operator_id == request.operator_id
            }
        }),
{
}

/// No process is started before the opening is in the audit log, and none but for a session that
/// is on the list.
pub proof fn law_every_start_is_audited(
    sessions: Map<Seq<char>, SessionView>,
    opening: OpeningView,
    event: OpeningEventView,
    request: TerminalRequestView,
    settings: SettingsView,
    session_id: Seq<char>,
    started_at: i64,
    i: int,
)
    requires
        sessions.contains_key(own_session(opening, session_id)) == listed_by(opening),
        0 <= i < opening_step(
            sessions,
            opening,
            event,
            request,
            settings,
            session_id,
            started_at,
        ).actions.len(),
        opening_step(
            sessions,
            opening,
            event,
            request,
            settings,
            session_id,
            started_at,
        ).actions[i] is Connect,
    ensures
        ({
            let step = opening_step(
                sessions,
                opening,
                event,
                request,
                settings,
                session_id,
                started_at,
            );
            let id = own_session(opening, session_id);
            &&& i > 0
            &&& step.actions[0] matches OpeningActionView::Audit(entry)
            &&& entry.action == "open"@
            &&& entry.session_id == Some(id)
            &&& step.sessions.contains_key(id)
        }),
{
}

/// Each cause of a refusal has its own code: a sandbox that is not found, a limit that is reached,
/// a hold that fails, a process that does not start.
pub proof fn law_causes_have_their_codes(
    sessions: Map<Seq<char>, SessionView>,
    request: TerminalRequestView,
    settings: SettingsView,
    target: TargetView,
    terminal: OpenTerminalView,
    url: Seq<char>,
    envd_auth: Option<Seq<char>>,
    message: Seq<char>,
    error: AppErrorView,
    session_id: Seq<char>,
    started_at: i64,
)
    ensures
        sandbox_step(
            sessions,
            request,
            settings,
            Err(AppErrorView::NotFound(message)),
            session_id,
            started_at,
        ).actions[1] == OpeningActionView::Send(
            ServerEventView::Error { code: "sandbox_not_found"@, message },
        ),
        limit_reached(sessions, request.sandbox_id, settings.limits()) matches Some(e)
            ==> resolved_step(
            sessions,
            request,
            settings,
            target,
            session_id,
            started_at,
        ).actions[1] == OpeningActionView::Send(
            ServerEventView::Error { code: "session_limit"@, message: e.message() },
        ),
        hold_step(sessions, request, settings, terminal, Err(error)).actions[1]
            == OpeningActionView::Send(
            ServerEventView::Error { code: "sandbox_hold_failed"@, message: error.message() },
        ),
        pty_step(sessions, request, terminal, url, envd_auth, Err(message)).actions[1]
            == OpeningActionView::Send(
            ServerEventView::Error { code: "pty_connect_failed"@, message },
        ),
{
}

/// What is found wrong with a sandbox or its containers has its own code, whatever they are called:
/// the sandbox does not run, no container goes by the selector, there is none, there are several
/// and none is named, or the one that is asked for does not run.
pub proof fn law_targets_are_refused_by_cause(
    sessions: Map<Seq<char>, SessionView>,
    request: TerminalRequestView,
    settings: SettingsView,
    sandbox: SandboxDetail,
    session_id: Seq<char>,
    started_at: i64,
)
    ensures
        ({
            let step = sandbox_step(
                sessions,
                request,
                settings,
                Ok(sandbox),
                session_id,
                started_at,
            );
            let containers = containers_in(sandbox);
            let runs = sandbox.state == SandboxState::Running;
            let told = |code: Seq<char>|
                step.actions[1] matches OpeningActionView::Send(
                    ServerEventView::Error { code: c, .. },
                ) && c == code;
            let named = selector_in(request.container_selector);
            &&& !runs ==> told("sandbox_not_running"@)
            &&& runs && (named matches Some(s) && first_by(containers, s) is None) ==> told(
                "container_not_found"@,
            )
            &&& runs && named is None && containers.len() == 0 ==> told(
                "sandbox_has_no_containers"@,
            )
            &&& runs && named is None && containers.len() > 1 ==> told(
                "container_selection_required"@,
            )
            &&& runs && (chosen_container(
                containers,
                request.container_selector,
                request.sandbox_id,
            ) matches Ok(c) && !is_running(c.status@)) ==> told("container_not_running"@)
        }),
{
    let id = request.sandbox_id;
    let selector = request.container_selector;
    let containers = containers_in(sandbox);
    if sandbox.state != SandboxState::Running {
        law_stopped_sandboxes_are_named_so(sandbox, id, selector);
    } else {
        match chosen_container(containers, selector, id) {
            Ok(c) => {
                if !is_running(c.status@) {
                    law_stopped_containers_are_named_so(containers, selector, id, c);
                }
            },
            Err(_) => {
                if selector_in(selector) is Some {
                    law_missing_containers_are_named_so(containers, selector, id);
                } else if containers.len() == 0 {
                    law_empty_sandboxes_are_named_so(containers, selector, id);
                } else {
                    law_several_containers_ask_for_a_choice(containers, selector, id);
                }
            },
        }
    }
}

/// A sandbox that does not run gets no terminal, and no session.
pub proof fn law_only_running_sandboxes_get_terminals(
    sessions: Map<Seq<char>, SessionView>,
    sandbox: SandboxDetail,
    request: TerminalRequestView,
    settings: SettingsView,
    session_id: Seq<char>,
    started_at: i64,
)
    requires
        sandbox.state != SandboxState::Running,
    ensures
        ({
            let step = opening_step(
                sessions,
                OpeningView::AwaitingSandbox,
                OpeningEventView::Sandbox(Ok(sandbox)),
                request,
                settings,
                session_id,
                started_at,
            );
            step.next is Refused && step.sessions == sessions
        }),
{
}

} // verus!
