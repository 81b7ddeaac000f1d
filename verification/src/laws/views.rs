//! Laws of what contracts see of a value: all of it, as it is.

use vstd::prelude::*;

use crate::admission::{optional_bytes, verdict_view};
use crate::bridge::{
    action_views, BridgeAction, BridgeActionView, BridgeEvent, BridgeEventView, BridgePhase,
    PhaseView, PtySession,
};
use crate::control::{ControlFields, InputState, InputStep, InputStepView};
use crate::envelope::Frame;
use crate::error::{AppError, AppErrorView};
use crate::events::{field_views, AuditEvent, AuditView, ServerEventView, TerminalServerEvent};
use crate::json::{member_of, Json};
use crate::opening::{
    opening_action_views, OpenTerminal, Opening, OpeningAction, OpeningActionView, OpeningEvent,
    OpeningEventView, OpeningView, TerminalRequest, TerminalSettings,
};
use crate::origin::{host_view, origin_view, parsed_origin_view, UrlParts};
use crate::pty::{
    header_views, outcome_view, HttpReply, HttpReplyView, HttpRequest, PidWait, PidWaitView,
    PtyHandle,
};
use crate::sessions::TerminalSession;
use crate::stream::{event_views, StreamEvent, StreamEventView};
use crate::target::{ResolvedTerminalTarget, SandboxDetail};
use crate::text::{optional_chars, optional_str};

verus! {

/// An error is seen as its kind and its message, and the message is what it carries.
pub proof fn law_errors_carry_their_message(m: String)
    ensures
        AppError::NotFound(m)@ == AppErrorView::NotFound(m@),
        AppError::Unauthorized(m)@ == AppErrorView::Unauthorized(m@),
        AppError::Conflict(m)@ == AppErrorView::Conflict(m@),
        AppError::TooManyRequests(m)@ == AppErrorView::TooManyRequests(m@),
        AppError::BadRequest(m)@ == AppErrorView::BadRequest(m@),
        AppError::Internal(m)@ == AppErrorView::Internal(m@),
        AppError::NotFound(m)@.message() == m@,
        AppError::Unauthorized(m)@.message() == m@,
        AppError::Conflict(m)@.message() == m@,
        AppError::TooManyRequests(m)@.message() == m@,
        AppError::BadRequest(m)@.message() == m@,
        AppError::Internal(m)@.message() == m@,
{
}

/// A message to the browser is seen as its kind and its texts.
pub proof fn law_server_events_are_seen_whole(a: String, c: &'static str)
    ensures
        (TerminalServerEvent::Ready { session_id: a })@ == (ServerEventView::Ready {
            session_id: a@,
        }),
        (TerminalServerEvent::Output { data: a })@ == (ServerEventView::Output { data: a@ }),
        (TerminalServerEvent::Error { code: c, message: a })@ == (ServerEventView::Error {
            code: c@,
            message: a@,
        }),
        (TerminalServerEvent::Closed { reason: c, message: a })@ == (ServerEventView::Closed {
            reason: c@,
            message: a@,
        }),
{
}

/// An entry of the audit log is seen with all its parts.
pub proof fn law_audit_events_are_seen_whole(event: AuditEvent)
    ensures
        event@.level == event.level,
        event@.action == event.action@,
        event@.sandbox_id == event.sandbox_id@,
        event@.operator_id == event.operator_id@,
        event.session_id matches Some(s) ==> event@.session_id == Some(s@),
        event.session_id is None ==> event@.session_id is None,
        event.container_id matches Some(s) ==> event@.container_id == Some(s@),
        event.container_id is None ==> event@.container_id is None,
        event.reason matches Some(s) ==> event@.reason == Some(s@),
        event.reason is None ==> event@.reason is None,
{
}

/// An entry is logged with its action, sandbox and operator, then with its container, session and
/// reason, each under its name and only where it has one.
pub proof fn law_audit_fields(event: AuditView, c: Seq<char>, s: Seq<char>, r: Seq<char>)
    ensures
        event.fields().len() >= 3,
        event.fields()[0] == ("action"@, event.action),
        event.fields()[1] == ("sandbox_id"@, event.sandbox_id),
        event.fields()[2] == ("operator_id"@, event.operator_id),
        event.container_id is None && event.session_id is None && event.reason is None
            ==> event.fields().len() == 3,
        event.container_id is None && event.session_id is None && event.reason == Some(r)
            ==> event.fields().skip(3) == seq![("reason"@, r)],
        event.container_id is None && event.session_id == Some(s) && event.reason is None
            ==> event.fields().skip(3) == seq![("session_id"@, s)],
        event.container_id == Some(c) && event.session_id is None && event.reason is None
            ==> event.fields().skip(3) == seq![("container_id"@, c)],
        event.container_id is None && event.session_id == Some(s) && event.reason == Some(r)
            ==> event.fields().skip(3) == seq![("session_id"@, s), ("reason"@, r)],
        event.container_id == Some(c) && event.session_id is None && event.reason == Some(r)
            ==> event.fields().skip(3) == seq![("container_id"@, c), ("reason"@, r)],
        event.container_id == Some(c) && event.session_id == Some(s) && event.reason is None
            ==> event.fields().skip(3) == seq![("container_id"@, c), ("session_id"@, s)],
        event.container_id == Some(c) && event.session_id == Some(s) && event.reason == Some(r)
            ==> event.fields().skip(3) == seq![
            ("container_id"@, c),
            ("session_id"@, s),
            ("reason"@, r),
        ],
{
    let rest = event.fields().skip(3);
    if event.container_id is None && event.session_id is None && event.reason == Some(r) {
        assert(rest =~= seq![("reason"@, r)]);
    }
    if event.container_id is None && event.session_id == Some(s) && event.reason is None {
        assert(rest =~= seq![("session_id"@, s)]);
    }
    if event.container_id == Some(c) && event.session_id is None && event.reason is None {
        assert(rest =~= seq![("container_id"@, c)]);
    }
    if event.container_id is None && event.session_id == Some(s) && event.reason == Some(r) {
        assert(rest =~= seq![("session_id"@, s), ("reason"@, r)]);
    }
    if event.container_id == Some(c) && event.session_id is None && event.reason == Some(r) {
        assert(rest =~= seq![("container_id"@, c), ("reason"@, r)]);
    }
    if event.container_id == Some(c) && event.session_id == Some(s) && event.reason is None {
        assert(rest =~= seq![("container_id"@, c), ("session_id"@, s)]);
    }
    if event.container_id == Some(c) && event.session_id == Some(s) && event.reason == Some(r) {
        assert(rest =~= seq![("container_id"@, c), ("session_id"@, s), ("reason"@, r)]);
    }
}

/// A request is seen with its URL, its body, and each of its headers in turn.
pub proof fn law_requests_are_seen_whole(request: HttpRequest)
    ensures
        request@.url == request.url@,
        request@.body == request.body@,
        request@.headers.len() == request.headers@.len(),
        forall|i: int|
            0 <= i < request.headers@.len() ==> (#[trigger] request@.headers[i]).0
                == request.headers@[i].0@ && request@.headers[i].1 == request.headers@[i].1@,
{
}

/// A reply is seen as its status, or as the words of its failure.
pub proof fn law_replies_are_seen_whole(e: String, code: u16)
    ensures
        HttpReply::Failed(e)@ == HttpReplyView::Failed(e@),
        HttpReply::Status(code)@ == HttpReplyView::Status(code),
{
}

/// A process is seen with its URLs and credentials.
pub proof fn law_handles_are_seen_whole(handle: PtyHandle)
    ensures
        handle@.send_input_url == handle.send_input_url@,
        handle@.update_url == handle.update_url@,
        handle@.send_signal_url == handle.send_signal_url@,
        handle@.access_token == handle.access_token@,
        handle.envd_auth matches Some(a) ==> handle@.envd_auth == Some(a@),
        handle.envd_auth is None ==> handle@.envd_auth is None,
{
}

/// What the stream calls for is seen with its id, its text or its error.
pub proof fn law_stream_events_are_seen_whole(pid: u32, text: String, error: Vec<u8>)
    ensures
        StreamEvent::Started(pid)@ == StreamEventView::Started(pid),
        StreamEvent::Output(text)@ == StreamEventView::Output(text@),
        StreamEvent::Skipped@ == StreamEventView::Skipped,
        StreamEvent::Ended(Some(error))@ == StreamEventView::Ended(Some(error@)),
        StreamEvent::Ended(None)@ == StreamEventView::Ended(None),
{
}

/// What happens to a session, and what is done for it, is seen with its texts and bytes.
pub proof fn law_session_events_are_seen_whole(
    now: u64,
    text: String,
    data: Vec<u8>,
    event: TerminalServerEvent,
    entry: AuditEvent,
)
    ensures
        (BridgeEvent::Text { now, text })@ == (BridgeEventView::Text { now, text: text@ }),
        (BridgeEvent::Binary { now, data })@ == (BridgeEventView::Binary { now, data: data@ }),
        (BridgeEvent::Timer { now })@ == (BridgeEventView::Timer { now }),
        BridgeEvent::Ping(data)@ == BridgeEventView::Ping(data@),
        BridgeEvent::Output(text)@ == BridgeEventView::Output(text@),
        BridgeEvent::Settled(Ok(()))@ == BridgeEventView::Settled(Ok(())),
        BridgeEvent::Settled(Err(text))@ == BridgeEventView::Settled(Err(text@)),
        BridgeAction::Forward(event)@ == BridgeActionView::Forward(event@),
        BridgeAction::Send(event)@ == BridgeActionView::Send(event@),
        BridgeAction::Audit(entry)@ == BridgeActionView::Audit(entry@),
        BridgeAction::Pong(data)@ == BridgeActionView::Pong(data@),
        BridgeAction::Input(text)@ == BridgeActionView::Input(text@),
        (BridgeAction::Unregister { session_id: text })@ == (BridgeActionView::Unregister {
            session_id: text@,
        }),
{
}

/// What is done for an opening is seen whole.
pub proof fn law_opening_actions_are_seen_whole(
    event: TerminalServerEvent,
    entry: AuditEvent,
    request: HttpRequest,
    seconds: i32,
)
    ensures
        OpeningAction::Audit(entry)@ == OpeningActionView::Audit(entry@),
        OpeningAction::Send(event)@ == OpeningActionView::Send(event@),
        OpeningAction::CloseSocket@ == OpeningActionView::CloseSocket,
        (OpeningAction::Hold { seconds })@ == (OpeningActionView::Hold { seconds }),
        OpeningAction::Connect(request)@ == OpeningActionView::Connect(request@),
{
}

/// Lists are seen item by item, none left out and none added.
pub proof fn law_lists_are_seen_whole(
    actions: Seq<BridgeAction>,
    opening: Seq<OpeningAction>,
    events: Seq<StreamEvent>,
    fields: Seq<(&'static str, String)>,
)
    ensures
        action_views(actions).len() == actions.len(),
        forall|i: int|
            0 <= i < actions.len() ==> #[trigger] action_views(actions)[i] == actions[i]@,
        opening_action_views(opening).len() == opening.len(),
        forall|i: int|
            0 <= i < opening.len() ==> #[trigger] opening_action_views(opening)[i] == opening[i]@,
        event_views(events).len() == events.len(),
        forall|i: int| 0 <= i < events.len() ==> #[trigger] event_views(events)[i] == events[i]@,
        field_views(fields).len() == fields.len(),
        forall|i: int|
            0 <= i < fields.len() ==> #[trigger] field_views(fields)[i] == (
                fields[i].0@,
                fields[i].1@,
            ),
        header_views(fields).len() == fields.len(),
        forall|i: int|
            0 <= i < fields.len() ==> #[trigger] header_views(fields)[i] == (
                fields[i].0@,
                fields[i].1@,
            ),
{
}

/// What may be missing is seen as missing or as what it is.
pub proof fn law_options_are_seen_whole(text: String, slice: &str, bytes: Vec<u8>, e: AppError)
    ensures
        optional_chars(None) is None,
        optional_chars(Some(text)) == Some(text@),
        optional_str(None) is None,
        optional_str(Some(slice)) == Some(slice@),
        optional_bytes(None) is None,
        optional_bytes(Some(bytes)) == Some(bytes@),
        outcome_view(Ok(())) == Ok::<(), Seq<char>>(()),
        outcome_view(Err(text)) == Err::<(), Seq<char>>(text@),
        verdict_view(Ok(())) == Ok::<(), AppErrorView>(()),
        verdict_view(Err(e)) == Err::<(), AppErrorView>(e@),
{
}

/// Origins and hosts are seen with their parts.
pub proof fn law_origins_are_seen_whole(a: String, b: String, p: u16, q: Option<u16>)
    ensures
        origin_view(None) is None,
        origin_view(Some((a, b, p))) == Some((a@, b@, p)),
        parsed_origin_view(None) is None,
        parsed_origin_view(Some((a, b, q))) == Some((a@, b@, q)),
        host_view(None) is None,
        host_view(Some((a, q))) == Some((a@, q)),
{
}

/// The parts of a URL are seen each as itself.
pub proof fn law_urls_are_seen_whole(url: UrlParts)
    ensures
        url@.scheme == url.scheme@,
        url@.username == url.username@,
        url@.path == url.path@,
        url@.port == url.port,
        url@.password == optional_chars(url.password),
        url@.host == optional_chars(url.host),
        url@.query == optional_chars(url.query),
        url@.fragment == optional_chars(url.fragment),
{
}

/// Sessions, requests, settings, targets and terminals are seen with all their parts.
pub proof fn law_records_are_seen_whole(
    session: TerminalSession,
    request: TerminalRequest,
    settings: TerminalSettings,
    target: ResolvedTerminalTarget,
    terminal: OpenTerminal,
)
    ensures
        session@.sandbox_id == session.sandbox_id@,
        session@.container_id == optional_chars(session.container_id),
        session@.operator_id == session.operator_id@,
        session@.started_at == session.started_at,
        request@.sandbox_id == request.sandbox_id@,
        request@.container_selector == optional_chars(request.container_selector),
        request@.operator_id == request.operator_id@,
        settings@.max_sessions == optional_chars(settings.max_sessions),
        settings@.max_sessions_per_sandbox == optional_chars(settings.max_sessions_per_sandbox),
        settings@.proxy_base == optional_chars(settings.proxy_base),
        settings@.envd_auth == optional_chars(settings.envd_auth),
        target@.access_token == optional_chars(target.access_token),
        target@.container_id == optional_chars(target.container_id),
        target@.container_name == optional_chars(target.container_name),
        target@.end_at == target.end_at,
        terminal@.session_id == terminal.session_id@,
        terminal@.container_id == optional_chars(terminal.container_id),
        terminal@.access_token == terminal.access_token@,
        terminal@.hold_enabled == terminal.hold_enabled,
{
}

/// A session that is open, and what it waits for, is seen with all its parts.
pub proof fn law_open_sessions_are_seen_whole(
    session: PtySession,
    state: InputState,
    text: String,
)
    ensures
        session@.sandbox_id == session.sandbox_id@,
        session@.session_id == session.session_id@,
        session@.operator_id == session.operator_id@,
        session@.container_id == optional_chars(session.container_id),
        session@.hold_enabled == session.hold_enabled,
        session@.last_activity == session.last_activity,
        session@.phase == session.phase@,
        BridgePhase::Waiting@ == PhaseView::Waiting,
        BridgePhase::Ended@ == PhaseView::Ended,
        (BridgePhase::Sending { state, text })@ == (PhaseView::Sending { state, text: text@ }),
{
}

/// An opening, and what it learns, is seen with all its parts.
pub proof fn law_openings_are_seen_whole(
    terminal: OpenTerminal,
    url: String,
    auth: Option<String>,
    session: PtySession,
    handle: PtyHandle,
    sandbox: SandboxDetail,
    e: AppError,
    reply: HttpReply,
)
    ensures
        Opening::AwaitingSandbox@ == OpeningView::AwaitingSandbox,
        Opening::AwaitingHold(terminal)@ == OpeningView::AwaitingHold(terminal@),
        (Opening::AwaitingPty { terminal, url, envd_auth: auth })@ == (OpeningView::AwaitingPty {
            terminal: terminal@,
            url: url@,
            envd_auth: optional_chars(auth),
        }),
        (Opening::Established { session, handle })@ == (OpeningView::Established {
            session: session@,
            handle: handle@,
        }),
        Opening::Refused@ == OpeningView::Refused,
        OpeningEvent::Sandbox(Ok(sandbox))@ == OpeningEventView::Sandbox(Ok(sandbox)),
        OpeningEvent::Sandbox(Err(e))@ == OpeningEventView::Sandbox(Err(e@)),
        OpeningEvent::Hold(Ok(()))@ == OpeningEventView::Hold(Ok(())),
        OpeningEvent::Hold(Err(e))@ == OpeningEventView::Hold(Err(e@)),
        OpeningEvent::Connect(reply)@ == OpeningEventView::Connect(reply@),
{
}

/// Control fields, messages off a buffer, and what follows a request are seen as they are.
pub proof fn law_small_values_are_seen_whole(
    fields: ControlFields,
    frame: Frame,
    text: String,
    millis: u64,
    pid: u32,
)
    ensures
        fields@.kind == optional_chars(fields.kind),
        fields@.rows == fields.rows,
        fields@.cols == fields.cols,
        frame@.flags == frame.flags,
        frame@.payload == frame.payload@,
        frame@.rest == frame.rest@,
        InputStep::Done(Ok(()))@ == InputStepView::Done(Ok(())),
        InputStep::Done(Err(text))@ == InputStepView::Done(Err(text@)),
        (InputStep::RetryAfter { millis })@ == (InputStepView::RetryAfter { millis }),
        PidWait::Ready(pid)@ == PidWaitView::Ready(pid),
        PidWait::Failed(text)@ == PidWaitView::Failed(text@),
        (PidWait::Sleep { millis })@ == (PidWaitView::Sleep { millis }),
{
}

/// The remaining things that happen to a session, and that are done for it, are seen as they are.
pub proof fn law_plain_events_are_seen_as_they_are(
    rows: u32,
    cols: u32,
    millis: u64,
    seconds: i32,
)
    ensures
        BridgeEvent::Keepalive@ == BridgeEventView::Keepalive,
        BridgeEvent::Pong@ == BridgeEventView::Pong,
        BridgeEvent::Disconnected@ == BridgeEventView::Disconnected,
        BridgeEvent::OutputClosed@ == BridgeEventView::OutputClosed,
        BridgeEvent::SendFailed@ == BridgeEventView::SendFailed,
        BridgeAction::Ping@ == BridgeActionView::Ping,
        BridgeAction::Kill@ == BridgeActionView::Kill,
        BridgeAction::CloseSocket@ == BridgeActionView::CloseSocket,
        (BridgeAction::RefreshHold { seconds })@ == (BridgeActionView::RefreshHold { seconds }),
        (BridgeAction::Resize { rows, cols })@ == (BridgeActionView::Resize { rows, cols }),
        (BridgeAction::Sleep { millis })@ == (BridgeActionView::Sleep { millis }),
{
}

/// What a JSON value holds is found by its own key and kind.
pub proof fn law_json_values_are_seen_as_they_are(
    members: Map<Seq<char>, Json>,
    key: Seq<char>,
    text: Seq<char>,
    n: u64,
    value: Json,
)
    ensures
        members.contains_key(key) ==> Json::Object(members).member(key) == Some(members[key]),
        !members.contains_key(key) ==> Json::Object(members).member(key) is None,
        !(value is Object) ==> value.member(key) is None,
        Json::Text(text).text() == Some(text),
        !(value is Text) ==> value.text() is None,
        Json::Unsigned(n).unsigned() == Some(n),
        !(value is Unsigned) ==> value.unsigned() is None,
        member_of(None, key) is None,
        member_of(Some(value), key) == value.member(key),
{
}

} // verus!
