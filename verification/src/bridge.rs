//! A terminal session that is open: what it does on each message, timer and failure, and how it
//! ends.

use vstd::prelude::*;
use vstd::utf8::*;

use crate::codec::utf8_lossy;
use crate::control::{
    client_text_in, control_of, input_settled, is_control, settled, ClientText, InputState,
    InputStep, InputStepView,
};
use crate::events::{AuditEvent, AuditView, LogLevel, ServerEventView, TerminalServerEvent};
use crate::pty::outcome_view;
use crate::sessions::TerminalService;
use crate::text::optional_chars;

verus! {

/// How long a session may go without input, in milliseconds.
pub const IDLE_TIMEOUT: u64 = 1_800_000;

/// How long a session may last, in milliseconds.
pub const MAX_LIFETIME: u64 = 7_200_000;

/// How often the connection and the hold on the sandbox are kept alive, in milliseconds.
pub const KEEPALIVE_INTERVAL: u64 = 30_000;

/// How long the hold on the sandbox is prolonged each time, in seconds.
pub const HOLD_REFRESH: i32 = 30;

/// What a session is waiting for.
#[derive(Debug)]
pub enum BridgePhase {
    /// Any event.
    Waiting,
    /// The answer to a request to the process. Input is kept until it is answered.
    Sending { state: InputState, text: String },
    /// Nothing: the session is over.
    Ended,
}

/// A `BridgePhase`, its string as characters.
pub enum PhaseView {
    Waiting,
    Sending { state: InputState, text: Seq<char> },
    Ended,
}

impl View for BridgePhase {
    type V = PhaseView;

    open spec fn view(&self) -> PhaseView {
        match self {
            BridgePhase::Waiting => PhaseView::Waiting,
            BridgePhase::Sending { state, text } => PhaseView::Sending {
                state: *state,
                text: text@,
            },
            BridgePhase::Ended => PhaseView::Ended,
        }
    }
}

/// A terminal session that is open. Times are in milliseconds since it was opened.
#[derive(Debug)]
pub struct PtySession {
    pub sandbox_id: String,
    pub session_id: String,
    pub operator_id: String,
    pub container_id: Option<String>,
    /// The sandbox has a deadline, which the session holds off.
    pub hold_enabled: bool,
    /// When the last input came.
    pub last_activity: u64,
    pub phase: BridgePhase,
}

/// A `PtySession`, its strings as characters.
pub struct PtySessionView {
    pub sandbox_id: Seq<char>,
    pub session_id: Seq<char>,
    pub operator_id: Seq<char>,
    pub container_id: Option<Seq<char>>,
    pub hold_enabled: bool,
    pub last_activity: u64,
    pub phase: PhaseView,
}

impl View for PtySession {
    type V = PtySessionView;

    open spec fn view(&self) -> PtySessionView {
        PtySessionView {
            sandbox_id: self.sandbox_id@,
            session_id: self.session_id@,
            operator_id: self.operator_id@,
            container_id: optional_chars(self.container_id),
            hold_enabled: self.hold_enabled,
            last_activity: self.last_activity,
            phase: self.phase@,
        }
    }
}

/// What happens to a session.
#[derive(Debug)]
pub enum BridgeEvent {
    /// Time has passed.
    Timer { now: u64 },
    /// It is time to keep the connection alive.
    Keepalive,
    /// The browser sent a text.
    Text { now: u64, text: String },
    /// The browser sent bytes.
    Binary { now: u64, data: Vec<u8> },
    /// The browser sent a ping.
    Ping(Vec<u8>),
    /// The browser answered a ping.
    Pong,
    /// The browser closed the connection, or it broke.
    Disconnected,
    /// The process wrote a text.
    Output(String),
    /// The channel that carries the output is closed: nobody can write to it any more.
    OutputClosed,
    /// A message to the browser that had to get through did not.
    SendFailed,
    /// A request to the process is answered.
    Settled(Result<(), String>),
}

/// A `BridgeEvent` as plain values.
pub enum BridgeEventView {
    Timer { now: u64 },
    Keepalive,
    Text { now: u64, text: Seq<char> },
    Binary { now: u64, data: Seq<u8> },
    Ping(Seq<u8>),
    Pong,
    Disconnected,
    Output(Seq<char>),
    OutputClosed,
    SendFailed,
    Settled(Result<(), Seq<char>>),
}

impl View for BridgeEvent {
    type V = BridgeEventView;

    open spec fn view(&self) -> BridgeEventView {
        match self {
            BridgeEvent::Timer { now } => BridgeEventView::Timer { now: *now },
            BridgeEvent::Keepalive => BridgeEventView::Keepalive,
            BridgeEvent::Text { now, text } => BridgeEventView::Text { now: *now, text: text@ },
            BridgeEvent::Binary { now, data } => BridgeEventView::Binary { now: *now, data: data@ },
            BridgeEvent::Ping(data) => BridgeEventView::Ping(data@),
            BridgeEvent::Pong => BridgeEventView::Pong,
            BridgeEvent::Disconnected => BridgeEventView::Disconnected,
            BridgeEvent::Output(text) => BridgeEventView::Output(text@),
            BridgeEvent::OutputClosed => BridgeEventView::OutputClosed,
            BridgeEvent::SendFailed => BridgeEventView::SendFailed,
            BridgeEvent::Settled(outcome) => BridgeEventView::Settled(outcome_view(*outcome)),
        }
    }
}

/// What is to be done for a session, one after another.
#[derive(Debug)]
pub enum BridgeAction {
    /// Write to the audit log.
    Audit(AuditEvent),
    /// Tell the browser; a failure does not matter.
    Send(TerminalServerEvent),
    /// Tell the browser; a failure is an event.
    Forward(TerminalServerEvent),
    /// Ping the browser; a failure is an event.
    Ping,
    /// Answer a ping of the browser; a failure does not matter.
    Pong(Vec<u8>),
    /// Prolong the hold on the sandbox; a failure does not matter.
    RefreshHold { seconds: i32 },
    /// Give the terminal a new size; the answer is an event.
    Resize { rows: u32, cols: u32 },
    /// Type text into the terminal; the answer is an event.
    Input(String),
    /// Do nothing for a time.
    Sleep { millis: u64 },
    /// End the process.
    Kill,
    /// Close the connection to the browser.
    CloseSocket,
    /// Take the session off the list of open ones.
    Unregister { session_id: String },
}

/// A `BridgeAction` as plain values.
pub enum BridgeActionView {
    Audit(AuditView),
    Send(ServerEventView),
    Forward(ServerEventView),
    Ping,
    Pong(Seq<u8>),
    RefreshHold { seconds: i32 },
    Resize { rows: u32, cols: u32 },
    Input(Seq<char>),
    Sleep { millis: u64 },
    Kill,
    CloseSocket,
    Unregister { session_id: Seq<char> },
}

impl View for BridgeAction {
    type V = BridgeActionView;

    open spec fn view(&self) -> BridgeActionView {
        match self {
            BridgeAction::Audit(event) => BridgeActionView::Audit(event@),
            BridgeAction::Send(event) => BridgeActionView::Send(event@),
            BridgeAction::Forward(event) => BridgeActionView::Forward(event@),
            BridgeAction::Ping => BridgeActionView::Ping,
            BridgeAction::Pong(data) => BridgeActionView::Pong(data@),
            BridgeAction::RefreshHold { seconds } => BridgeActionView::RefreshHold {
                seconds: *seconds,
            },
            BridgeAction::Resize { rows, cols } => BridgeActionView::Resize {
                rows: *rows,
                cols: *cols,
            },
            BridgeAction::Input(text) => BridgeActionView::Input(text@),
            BridgeAction::Sleep { millis } => BridgeActionView::Sleep { millis: *millis },
            BridgeAction::Kill => BridgeActionView::Kill,
            BridgeAction::CloseSocket => BridgeActionView::CloseSocket,
            BridgeAction::Unregister { session_id } => BridgeActionView::Unregister {
                session_id: session_id@,
            },
        }
    }
}

/// Actions as plain values.
pub open spec fn action_views(actions: Seq<BridgeAction>) -> Seq<BridgeActionView> {
    Seq::new(actions.len(), |i: int| actions[i]@)
}

impl PtySessionView {
    /// The entry of the audit log for something that happened to the session.
    pub open spec fn audit(
        self,
        level: LogLevel,
        action: Seq<char>,
        reason: Option<Seq<char>>,
    ) -> BridgeActionView {
        BridgeActionView::Audit(
            AuditView {
                level,
                action,
                sandbox_id: self.sandbox_id,
                session_id: Some(self.session_id),
                operator_id: self.operator_id,
                container_id: self.container_id,
                reason,
            },
        )
    }

    /// What every end of the session comes down to: the process is ended, the connection closed,
    /// the session taken off the list, and the close written to the audit log.
    pub open spec fn farewell(self) -> Seq<BridgeActionView> {
        seq![
            BridgeActionView::Kill,
            BridgeActionView::CloseSocket,
            BridgeActionView::Unregister { session_id: self.session_id },
            self.audit(LogLevel::Info, "close"@, None),
        ]
    }

    /// An end of the session that the browser and the audit log are given a reason for.
    pub open spec fn closing(
        self,
        level: LogLevel,
        action: Seq<char>,
        reason: Seq<char>,
        message: Seq<char>,
    ) -> Seq<BridgeActionView> {
        seq![
            self.audit(level, action, Some(reason)),
            BridgeActionView::Send(ServerEventView::Closed { reason, message }),
        ] + self.farewell()
    }

    /// The session is over.
    pub open spec fn ended(self) -> PtySessionView {
        PtySessionView { phase: PhaseView::Ended, ..self }
    }

    /// No input came for as long as a session may go without.
    pub open spec fn is_idle(self, now: u64) -> bool {
        now - self.last_activity >= IDLE_TIMEOUT
    }
}

/// A session and what is to be done for it.
pub struct BridgeStepView {
    pub session: PtySessionView,
    pub actions: Seq<BridgeActionView>,
}

/// A step that does nothing.
pub open spec fn stays(session: PtySessionView) -> BridgeStepView {
    BridgeStepView { session, actions: Seq::empty() }
}

/// A step that ends a session without a reason of its own.
pub open spec fn ends(session: PtySessionView) -> BridgeStepView {
    BridgeStepView { session: session.ended(), actions: session.farewell() }
}

/// Time passes: a session that was idle for too long, or has lasted too long, ends.
pub open spec fn timer_step(session: PtySessionView, now: u64) -> BridgeStepView {
    if session.is_idle(now) {
        BridgeStepView {
            session: session.ended(),
            actions: session.closing(
                LogLevel::Info,
                "timeout"@,
                "idle_timeout"@,
                "Terminal session closed after idle timeout"@,
            ),
        }
    } else if now >= MAX_LIFETIME {
        BridgeStepView {
            session: session.ended(),
            actions: session.closing(
                LogLevel::Info,
                "timeout"@,
                "max_lifetime"@,
                "Terminal session reached maximum lifetime"@,
            ),
        }
    } else {
        stays(session)
    }
}

/// It is time to keep the connection alive, and the hold on a sandbox that has a deadline.
pub open spec fn keepalive_step(session: PtySessionView) -> BridgeStepView {
    BridgeStepView {
        session,
        actions: if session.hold_enabled {
            seq![
                BridgeActionView::RefreshHold { seconds: HOLD_REFRESH },
                BridgeActionView::Ping,
            ]
        } else {
            seq![BridgeActionView::Ping]
        },
    }
}

/// Text is typed into the terminal.
pub open spec fn typed_step(session: PtySessionView, now: u64, text: Seq<char>) -> BridgeStepView {
    BridgeStepView {
        session: PtySessionView {
            last_activity: now,
            phase: PhaseView::Sending { state: InputState::FirstTry, text },
            ..session
        },
        actions: seq![BridgeActionView::Input(text)],
    }
}

/// The browser sent a text that calls for something.
pub open spec fn text_step(
    session: PtySessionView,
    now: u64,
    text: Seq<char>,
    meaning: ClientText,
) -> BridgeStepView {
    match meaning {
        ClientText::Resize { rows, cols } => BridgeStepView {
            session: PtySessionView {
                last_activity: now,
                phase: PhaseView::Sending { state: InputState::Resizing, text },
                ..session
            },
            actions: seq![BridgeActionView::Resize { rows, cols }],
        },
        ClientText::Ignore => stays(PtySessionView { last_activity: now, ..session }),
        ClientText::Input => typed_step(session, now, text),
    }
}

/// A request to the process is answered.
pub open spec fn settled_step(
    session: PtySessionView,
    state: InputState,
    text: Seq<char>,
    outcome: Result<(), Seq<char>>,
) -> BridgeStepView {
    match settled(state, outcome) {
        InputStepView::Done(Ok(())) => stays(
            PtySessionView { phase: PhaseView::Waiting, ..session },
        ),
        InputStepView::Done(Err(_)) => BridgeStepView {
            session: session.ended(),
            actions: session.closing(
                LogLevel::Warn,
                "close"@,
                "pty_input_error"@,
                "Terminal input failed"@,
            ),
        },
        InputStepView::RetryAfter { millis } => BridgeStepView {
            session: PtySessionView {
                phase: PhaseView::Sending { state: InputState::Retrying, text },
                ..session
            },
            actions: seq![BridgeActionView::Sleep { millis }, BridgeActionView::Input(text)],
        },
    }
}

/// What an event does to a session that waits for any.
pub open spec fn waiting_step(session: PtySessionView, event: BridgeEventView) -> BridgeStepView {
    match event {
        BridgeEventView::Timer { now } => timer_step(session, now),
        BridgeEventView::Keepalive => keepalive_step(session),
        BridgeEventView::Text { now, text } => text_step(
            session,
            now,
            text,
            client_text_in(control_of(text)),
        ),
        BridgeEventView::Binary { now, data } => typed_step(session, now, utf8_lossy(data)),
        BridgeEventView::Ping(data) => BridgeStepView {
            session,
            actions: seq![BridgeActionView::Pong(data)],
        },
        BridgeEventView::Pong => stays(session),
        BridgeEventView::Disconnected => ends(session),
        BridgeEventView::Output(text) => BridgeStepView {
            session,
            actions: seq![BridgeActionView::Forward(ServerEventView::Output { data: text })],
        },
        BridgeEventView::OutputClosed => ends(session),
        BridgeEventView::SendFailed => ends(session),
        BridgeEventView::Settled(_) => stays(session),
    }
}

/// What an event does to a session. While a request to the process is under way, only its answer
/// counts; once the session is over, nothing does.
pub open spec fn bridge_step(session: PtySessionView, event: BridgeEventView) -> BridgeStepView {
    match session.phase {
        PhaseView::Waiting => waiting_step(session, event),
        PhaseView::Sending { state, text } => match event {
            BridgeEventView::Settled(outcome) => settled_step(session, state, text, outcome),
            _ => stays(session),
        },
        PhaseView::Ended => stays(session),
    }
}

/// How long it takes, without input, until a session ends by itself.
pub open spec fn time_left_in(session: PtySessionView, now: u64) -> int {
    let idle = IDLE_TIMEOUT - (now - session.last_activity);
    let life = MAX_LIFETIME - now;
    let sooner = if idle < life {
        idle
    } else {
        life
    };
    if sooner < 0 {
        0
    } else {
        sooner
    }
}

impl PtySession {
    /// A session that has just been opened.
    pub fn open(
        sandbox_id: String,
        session_id: String,
        operator_id: String,
        container_id: Option<String>,
        hold_enabled: bool,
    ) -> (session: PtySession)
        ensures
            session@ == (PtySessionView {
                sandbox_id: sandbox_id@,
                session_id: session_id@,
                operator_id: operator_id@,
                container_id: optional_chars(container_id),
                hold_enabled,
                last_activity: 0,
                phase: PhaseView::Waiting,
            }),
    {
        PtySession {
            sandbox_id,
            session_id,
            operator_id,
            container_id,
            hold_enabled,
            last_activity: 0,
            phase: BridgePhase::Waiting,
        }
    }

    /// How long it takes, without input, until the session ends by itself; nothing once it is
    /// due to.
    pub fn time_left(&self, now: u64) -> (millis: u64)
        requires
            self@.last_activity <= now,
        ensures
            millis == time_left_in(self@, now),
            millis == 0 <==> self@.is_idle(now) || now >= MAX_LIFETIME,
    {
        let quiet: u64 = now - self.last_activity;
        let idle: u64 = if quiet >= IDLE_TIMEOUT {
            0
        } else {
            IDLE_TIMEOUT - quiet
        };
        let life: u64 = if now >= MAX_LIFETIME {
            0
        } else {
            MAX_LIFETIME - now
        };
        if idle < life {
            idle
        } else {
            life
        }
    }

    /// Whether the session is over.
    pub fn is_ended(&self) -> (ended: bool)
        ensures
            ended == (self@.phase is Ended),
    {
        match self.phase {
            BridgePhase::Ended => true,
            _ => false,
        }
    }

    /// The entry of the audit log for something that happened to the session.
    fn audit(&self, level: LogLevel, action: &'static str, reason: Option<&'static str>) -> (entry:
        BridgeAction)
        ensures
            entry@ == self@.audit(
                level,
                action@,
                match reason {
                    Some(r) => Some(r@),
                    None => None,
                },
            ),
    {
        BridgeAction::Audit(
            AuditEvent {
                level,
                action,
                sandbox_id: self.sandbox_id.clone(),
                session_id: Some(self.session_id.clone()),
                operator_id: self.operator_id.clone(),
                container_id: match &self.container_id {
                    Some(id) => Some(id.clone()),
                    None => None,
                },
                reason,
            },
        )
    }

    /// Ends the session.
    fn end(&mut self, actions: &mut Vec<BridgeAction>)
        ensures
            final(self)@ == old(self)@.ended(),
            action_views(final(actions)@) == action_views(old(actions)@) + old(self)@.farewell(),
    {
        let ghost before = action_views(actions@);
        actions.push(BridgeAction::Kill);
        actions.push(BridgeAction::CloseSocket);
        actions.push(BridgeAction::Unregister { session_id: self.session_id.clone() });
        actions.push(self.audit(LogLevel::Info, "close", None));
        assert(action_views(actions@) =~= before + self@.farewell());
        self.phase = BridgePhase::Ended;
    }

    /// Ends the session and tells why.
    fn close(
        &mut self,
        level: LogLevel,
        action: &'static str,
        reason: &'static str,
        message: &str,
    ) -> (actions: Vec<BridgeAction>)
        ensures
            final(self)@ == old(self)@.ended(),
            action_views(actions@) == old(self)@.closing(level, action@, reason@, message@),
    {
        let mut actions: Vec<BridgeAction> = Vec::new();
        actions.push(self.audit(level, action, Some(reason)));
        actions.push(
            BridgeAction::Send(
                TerminalServerEvent::Closed { reason, message: message.to_string() },
            ),
        );
        assert(action_views(actions@) =~= seq![
            self@.audit(level, action@, Some(reason@)),
            BridgeActionView::Send(
                ServerEventView::Closed { reason: reason@, message: message@ },
            ),
        ]);
        self.end(&mut actions);
        actions
    }

    /// Time passes.
    pub fn time_passed(&mut self, now: u64) -> (actions: Vec<BridgeAction>)
        ensures
            timer_step(old(self)@, now) == (BridgeStepView {
                session: final(self)@,
                actions: action_views(actions@),
            }),
    {
        if now >= self.last_activity && now - self.last_activity >= IDLE_TIMEOUT {
            self.close(
                LogLevel::Info,
                "timeout",
                "idle_timeout",
                "Terminal session closed after idle timeout",
            )
        } else if now >= MAX_LIFETIME {
            self.close(
                LogLevel::Info,
                "timeout",
                "max_lifetime",
                "Terminal session reached maximum lifetime",
            )
        } else {
            let actions: Vec<BridgeAction> = Vec::new();
            assert(action_views(actions@) =~= Seq::empty());
            actions
        }
    }

    /// Text is typed into the terminal.
    fn type_text(&mut self, now: u64, text: String) -> (actions: Vec<BridgeAction>)
        ensures
            typed_step(old(self)@, now, text@) == (BridgeStepView {
                session: final(self)@,
                actions: action_views(actions@),
            }),
    {
        let mut actions: Vec<BridgeAction> = Vec::new();
        actions.push(BridgeAction::Input(text.clone()));
        assert(action_views(actions@) =~= seq![BridgeActionView::Input(text@)]);
        self.last_activity = now;
        self.phase = BridgePhase::Sending { state: InputState::FirstTry, text };
        actions
    }

    /// The browser sent a text that calls for something.
    pub fn text_received(&mut self, now: u64, text: String, meaning: ClientText) -> (actions: Vec<
        BridgeAction,
    >)
        ensures
            text_step(old(self)@, now, text@, meaning) == (BridgeStepView {
                session: final(self)@,
                actions: action_views(actions@),
            }),
    {
        match meaning {
            ClientText::Resize { rows, cols } => {
                let mut actions: Vec<BridgeAction> = Vec::new();
                actions.push(BridgeAction::Resize { rows, cols });
                assert(action_views(actions@) =~= seq![BridgeActionView::Resize { rows, cols }]);
                self.last_activity = now;
                self.phase = BridgePhase::Sending { state: InputState::Resizing, text };
                actions
            },
            ClientText::Ignore => {
                let actions: Vec<BridgeAction> = Vec::new();
                assert(action_views(actions@) =~= Seq::empty());
                self.last_activity = now;
                actions
            },
            ClientText::Input => self.type_text(now, text),
        }
    }

    /// A request to the process is answered.
    fn answered(
        &mut self,
        state: InputState,
        text: String,
        outcome: Result<(), String>,
    ) -> (actions: Vec<BridgeAction>)
        ensures
            settled_step(old(self)@, state, text@, outcome_view(outcome)) == (BridgeStepView {
                session: final(self)@,
                actions: action_views(actions@),
            }),
    {
        let mut actions: Vec<BridgeAction> = Vec::new();
        assert(action_views(actions@) =~= Seq::empty());
        match input_settled(state, outcome) {
            InputStep::Done(Ok(())) => {
                self.phase = BridgePhase::Waiting;
                actions
            },
            InputStep::Done(Err(_)) => self.close(
                LogLevel::Warn,
                "close",
                "pty_input_error",
                "Terminal input failed",
            ),
            InputStep::RetryAfter { millis } => {
                actions.push(BridgeAction::Sleep { millis });
                actions.push(BridgeAction::Input(text.clone()));
                assert(action_views(actions@) =~= seq![
                    BridgeActionView::Sleep { millis },
                    BridgeActionView::Input(text@),
                ]);
                self.phase = BridgePhase::Sending { state: InputState::Retrying, text };
                actions
            },
        }
    }

    /// An event comes while the session waits for any.
    fn waiting(&mut self, event: BridgeEvent) -> (actions: Vec<BridgeAction>)
        ensures
            waiting_step(old(self)@, event@) == (BridgeStepView {
                session: final(self)@,
                actions: action_views(actions@),
            }),
    {
        let mut actions: Vec<BridgeAction> = Vec::new();
        assert(action_views(actions@) =~= Seq::empty());
        assert(Seq::empty() + self@.farewell() =~= self@.farewell());
        match event {
            BridgeEvent::Timer { now } => self.time_passed(now),
            BridgeEvent::Keepalive => {
                if self.hold_enabled {
                    actions.push(BridgeAction::RefreshHold { seconds: HOLD_REFRESH });
                }
                actions.push(BridgeAction::Ping);
                assert(action_views(actions@) =~= keepalive_step(self@).actions);
                actions
            },
            BridgeEvent::Text { now, text } => {
                let meaning = TerminalService::handle_client_text(text.as_str());
                self.text_received(now, text, meaning)
            },
            BridgeEvent::Binary { now, data } => {
                let text = TerminalService::handle_client_binary(data.as_slice());
                self.type_text(now, text)
            },
            BridgeEvent::Ping(data) => {
                let ghost payload = data@;
                actions.push(BridgeAction::Pong(data));
                assert(action_views(actions@) =~= seq![BridgeActionView::Pong(payload)]);
                actions
            },
            BridgeEvent::Output(text) => {
                let ghost shown = text@;
                actions.push(BridgeAction::Forward(TerminalServerEvent::Output { data: text }));
                assert(action_views(actions@) =~= seq![
                    BridgeActionView::Forward(ServerEventView::Output { data: shown }),
                ]);
                actions
            },
            BridgeEvent::Disconnected | BridgeEvent::OutputClosed | BridgeEvent::SendFailed => {
                self.end(&mut actions);
                actions
            },
            BridgeEvent::Pong | BridgeEvent::Settled(_) => actions,
        }
    }
}

impl TerminalService {
    /// Takes the next event of a session and gives what is to be done for it.
    pub fn run_pty_session(session: &mut PtySession, event: BridgeEvent) -> (actions: Vec<
        BridgeAction,
    >)
        ensures
            bridge_step(old(session)@, event@) == (BridgeStepView {
                session: final(session)@,
                actions: action_views(actions@),
            }),
    {
        let mut phase = BridgePhase::Ended;
        std::mem::swap(&mut phase, &mut session.phase);
        match phase {
            BridgePhase::Waiting => {
                session.phase = BridgePhase::Waiting;
                session.waiting(event)
            },
            BridgePhase::Sending { state, text } => match event {
                BridgeEvent::Settled(outcome) => session.answered(state, text, outcome),
                _ => {
                    session.phase = BridgePhase::Sending { state, text };
                    let actions: Vec<BridgeAction> = Vec::new();
                    assert(action_views(actions@) =~= Seq::empty());
                    actions
                },
            },
            BridgePhase::Ended => {
                let actions: Vec<BridgeAction> = Vec::new();
                assert(action_views(actions@) =~= Seq::empty());
                actions
            },
        }
    }
}

/// However a session ends, the last things done for it are its farewell: the process is ended, the
/// connection closed, the session taken off the list, and the close written to the audit log. None
/// of the first three is done before.
pub proof fn law_every_end_is_a_farewell(session: PtySessionView, event: BridgeEventView)
    requires
        !(session.phase is Ended),
    ensures
        ({
            let step = bridge_step(session, event);
            let n = step.actions.len() as int;
            &&& step.session.phase is Ended ==> n >= 4 && step.actions.skip(n - 4)
                == session.farewell()
            &&& forall|i: int|
                0 <= i < n && (step.session.phase is Ended ==> i < n - 4) ==> !(
                #[trigger] step.actions[i] is Kill) && !(step.actions[i] is CloseSocket) && !(
                step.actions[i] is Unregister)
        }),
{
    let step = bridge_step(session, event);
    let n = step.actions.len() as int;
    if step.session.phase is Ended {
        assert(step.actions.skip(n - 4) =~= session.farewell());
    }
}

/// Nothing is done for a session that is over, and it stays over.
pub proof fn law_nothing_follows_the_end(session: PtySessionView, event: BridgeEventView)
    requires
        session.phase is Ended,
    ensures
        bridge_step(session, event) == stays(session),
{
}

/// Only input from the browser puts off the idle timeout, and it does so from the time when it
/// came.
pub proof fn law_only_input_puts_off_the_idle_timeout(
    session: PtySessionView,
    event: BridgeEventView,
)
    ensures
        ({
            let after = bridge_step(session, event).session;
            after.last_activity == match (session.phase, event) {
                (PhaseView::Waiting, BridgeEventView::Text { now, .. }) => now,
                (PhaseView::Waiting, BridgeEventView::Binary { now, .. }) => now,
                _ => session.last_activity,
            }
        }),
{
}

/// A session that waits ends by the clock exactly when it was idle for too long or has lasted too
/// long; the audit log and the browser are told which.
pub proof fn law_sessions_time_out(session: PtySessionView, now: u64)
    requires
        session.phase is Waiting,
    ensures
        ({
            let step = bridge_step(session, BridgeEventView::Timer { now });
            &&& step.session.phase is Ended <==> session.is_idle(now) || now >= MAX_LIFETIME
            &&& !(step.session.phase is Ended) ==> step == stays(session)
            &&& step.session.phase is Ended ==> {
                let reason = if session.is_idle(now) {
                    "idle_timeout"@
                } else {
                    "max_lifetime"@
                };
                &&& step.actions[0] == session.audit(LogLevel::Info, "timeout"@, Some(reason))
                &&& step.actions[1] matches BridgeActionView::Send(
                    ServerEventView::Closed { reason: told, .. },
                ) && told == reason
            }
        }),
{
}

/// A control message is never typed into the terminal.
pub proof fn law_control_messages_are_not_typed(
    session: PtySessionView,
    now: u64,
    text: Seq<char>,
)
    requires
        is_control(text),
    ensures
        forall|i: int|
            0 <= i < bridge_step(
                session,
                BridgeEventView::Text { now, text },
            ).actions.len() ==> !(#[trigger] bridge_step(
                session,
                BridgeEventView::Text { now, text },
            ).actions[i] is Input),
{
}

/// Any other text is typed into the terminal as it is.
pub proof fn law_other_texts_are_typed(session: PtySessionView, now: u64, text: Seq<char>)
    requires
        session.phase is Waiting,
        control_of(text).kind != Some("resize"@),
        control_of(text).kind != Some("ping"@),
    ensures
        bridge_step(session, BridgeEventView::Text { now, text }).actions == seq![
            BridgeActionView::Input(text),
        ],
{
}

/// A new size that the terminal does not take leaves the session open.
pub proof fn law_failed_resize_keeps_the_session(
    session: PtySessionView,
    text: Seq<char>,
    outcome: Result<(), Seq<char>>,
)
    requires
        session.phase == (PhaseView::Sending { state: InputState::Resizing, text }),
    ensures
        bridge_step(session, BridgeEventView::Settled(outcome)) == stays(
            PtySessionView { phase: PhaseView::Waiting, ..session },
        ),
{
}

/// A session never waits for more than two answers in a row.
pub proof fn law_answers_settle(
    session: PtySessionView,
    first: Result<(), Seq<char>>,
    second: Result<(), Seq<char>>,
)
    ensures
        !(bridge_step(
            bridge_step(session, BridgeEventView::Settled(first)).session,
            BridgeEventView::Settled(second),
        ).session.phase is Sending),
{
}

/// A keepalive pings the browser, and prolongs the hold on a sandbox that has a deadline.
pub proof fn law_keepalive_refreshes_the_hold(session: PtySessionView)
    requires
        session.phase is Waiting,
    ensures
        ({
            let actions = bridge_step(session, BridgeEventView::Keepalive).actions;
            &&& actions.last() == BridgeActionView::Ping
            &&& actions.contains(BridgeActionView::RefreshHold { seconds: HOLD_REFRESH })
                <==> session.hold_enabled
        }),
{
    let actions = bridge_step(session, BridgeEventView::Keepalive).actions;
    if session.hold_enabled {
        assert(actions[0] == BridgeActionView::RefreshHold { seconds: HOLD_REFRESH });
    }
}

/// What a session is about never changes.
pub proof fn law_sessions_keep_their_identity(session: PtySessionView, event: BridgeEventView)
    ensures
        ({
            let after = bridge_step(session, event).session;
            &&& after.sandbox_id == session.sandbox_id
            &&& after.session_id == session.session_id
            &&& after.operator_id == session.operator_id
            &&& after.container_id == session.container_id
            &&& after.hold_enabled == session.hold_enabled
        }),
{
}

/// What a row of events does to a session.
pub open spec fn bridge_run(session: PtySessionView, events: Seq<BridgeEventView>) -> BridgeStepView
    decreases events.len(),
{
    if events.len() == 0 {
        stays(session)
    } else {
        let step = bridge_step(session, events[0]);
        let later = bridge_run(step.session, events.skip(1));
        BridgeStepView { session: later.session, actions: step.actions + later.actions }
    }
}

/// How often the session is taken off the list.
pub open spec fn unregistered(actions: Seq<BridgeActionView>) -> nat
    decreases actions.len(),
{
    if actions.len() == 0 {
        0
    } else {
        unregistered(actions.drop_last()) + if actions.last() is Unregister {
            1nat
        } else {
            0nat
        }
    }
}

proof fn lemma_unregistered_adds(a: Seq<BridgeActionView>, b: Seq<BridgeActionView>)
    ensures
        unregistered(a + b) == unregistered(a) + unregistered(b),
    decreases b.len(),
{
    if b.len() == 0 {
        assert(a + b =~= a);
    } else {
        lemma_unregistered_adds(a, b.drop_last());
        assert((a + b).drop_last() =~= a + b.drop_last());
    }
}

proof fn lemma_none_unregistered(actions: Seq<BridgeActionView>)
    requires
        forall|i: int| 0 <= i < actions.len() ==> !(#[trigger] actions[i] is Unregister),
    ensures
        unregistered(actions) == 0,
    decreases actions.len(),
{
    if actions.len() > 0 {
        let before = actions.drop_last();
        assert forall|i: int| 0 <= i < before.len() implies !(#[trigger] before[i] is Unregister) by {
            assert(before[i] == actions[i]);
        }
        lemma_none_unregistered(before);
    }
}

proof fn lemma_farewell_unregisters(session: PtySessionView)
    ensures
        unregistered(session.farewell()) == 1,
{
    reveal_with_fuel(unregistered, 5);
}

/// Whatever happens to a session, it is taken off the list exactly once if it ends, and stays on it
/// otherwise.
pub proof fn law_runs_unregister_exactly_once(
    session: PtySessionView,
    events: Seq<BridgeEventView>,
)
    requires
        !(session.phase is Ended),
    ensures
        ({
            let run = bridge_run(session, events);
            unregistered(run.actions) == if run.session.phase is Ended {
                1nat
            } else {
                0nat
            }
        }),
    decreases events.len(),
{
    if events.len() > 0 {
        let step = bridge_step(session, events[0]);
        let n = step.actions.len() as int;
        let later = bridge_run(step.session, events.skip(1));
        law_every_end_is_a_farewell(session, events[0]);
        lemma_unregistered_adds(step.actions, later.actions);
        if step.session.phase is Ended {
            let head = step.actions.take(n - 4);
            assert(step.actions =~= head + session.farewell());
            assert forall|i: int| 0 <= i < head.len() implies !(#[trigger] head[i] is Unregister) by {
                assert(head[i] == step.actions[i]);
            }
            lemma_none_unregistered(head);
            lemma_unregistered_adds(head, session.farewell());
            lemma_farewell_unregisters(session);
            lemma_run_after_end(step.session, events.skip(1));
        } else {
            lemma_none_unregistered(step.actions);
            law_runs_unregister_exactly_once(step.session, events.skip(1));
        }
    }
}

proof fn lemma_run_after_end(session: PtySessionView, events: Seq<BridgeEventView>)
    requires
        session.phase is Ended,
    ensures
        bridge_run(session, events) == stays(session),
    decreases events.len(),
{
    if events.len() > 0 {
        lemma_run_after_end(session, events.skip(1));
        assert(Seq::<BridgeActionView>::empty() + Seq::<BridgeActionView>::empty() =~= Seq::<
            BridgeActionView,
        >::empty());
    }
}

} // verus!
