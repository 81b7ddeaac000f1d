//! Laws of an open session: what each thing that happens to it does.

use vstd::prelude::*;
use vstd::utf8::*;

use crate::bridge::{
    bridge_run, bridge_step, time_left_in, BridgeActionView, BridgeEventView, PhaseView,
    PtySessionView, HOLD_REFRESH, IDLE_TIMEOUT, KEEPALIVE_INTERVAL, MAX_LIFETIME,
};
use crate::codec::utf8_lossy;
use crate::control::InputState;
use crate::events::{AuditView, LogLevel, ServerEventView};
use crate::json::{json_parsed, Json};
use crate::laws::control::{
    asked_side, law_other_texts_are_input, law_ping_messages, law_resize_messages,
};
use crate::text::holds_text;

verus! {

/// A session may be idle for half an hour and last two hours; it is kept alive, and its sandbox
/// held for another half minute, every half minute.
pub proof fn law_times_of_a_session()
    ensures
        IDLE_TIMEOUT == 30 * 60 * 1000,
        MAX_LIFETIME == 2 * 60 * 60 * 1000,
        KEEPALIVE_INTERVAL == 30 * 1000,
        HOLD_REFRESH == 30,
{
}

/// What the audit log is told of a session: its own ids, and what happened, how much it matters and
/// why.
pub open spec fn told(
    session: PtySessionView,
    level: LogLevel,
    action: Seq<char>,
    reason: Option<Seq<char>>,
) -> BridgeActionView {
    BridgeActionView::Audit(
        AuditView {
            level,
            action,
            sandbox_id: session.sandbox_id,
            session_id: Some(session.session_id),
            operator_id: session.operator_id,
            container_id: session.container_id,
            reason,
        },
    )
}

/// The four things that every end of a session comes down to, in their order.
pub open spec fn last_things(session: PtySessionView) -> Seq<BridgeActionView> {
    seq![
        BridgeActionView::Kill,
        BridgeActionView::CloseSocket,
        BridgeActionView::Unregister { session_id: session.session_id },
        told(session, LogLevel::Info, "close"@, None),
    ]
}

/// Output of the process goes to the browser character for character, and changes nothing about the
/// session.
pub proof fn law_output_goes_to_the_browser_unchanged(session: PtySessionView, text: Seq<char>)
    requires
        session.phase is Waiting,
    ensures
        bridge_step(session, BridgeEventView::Output(text)).session == session,
        bridge_step(session, BridgeEventView::Output(text)).actions == seq![
            BridgeActionView::Forward(ServerEventView::Output { data: text }),
        ],
{
}

/// Output is sent in the order in which it comes: two pieces one after the other are two messages,
/// each as it is.
pub proof fn law_output_keeps_its_order(
    session: PtySessionView,
    first: Seq<char>,
    second: Seq<char>,
)
    requires
        session.phase is Waiting,
    ensures
        ({
            let run = bridge_run(
                session,
                seq![BridgeEventView::Output(first), BridgeEventView::Output(second)],
            );
            &&& run.session == session
            &&& run.actions == seq![
                BridgeActionView::Forward(ServerEventView::Output { data: first }),
                BridgeActionView::Forward(ServerEventView::Output { data: second }),
            ]
        }),
{
    let events = seq![BridgeEventView::Output(first), BridgeEventView::Output(second)];
    law_output_goes_to_the_browser_unchanged(session, first);
    law_output_goes_to_the_browser_unchanged(session, second);
    reveal_with_fuel(bridge_run, 3);
    assert(events.skip(1) =~= seq![BridgeEventView::Output(second)]);
    assert(events.skip(1).skip(1) =~= Seq::empty());
    assert(bridge_run(session, events).actions =~= seq![
        BridgeActionView::Forward(ServerEventView::Output { data: first }),
        BridgeActionView::Forward(ServerEventView::Output { data: second }),
    ]);
}

/// A ping is answered with its own bytes; an answer to a ping calls for nothing. Neither changes
/// the session.
pub proof fn law_pings_are_answered(session: PtySessionView, data: Seq<u8>)
    requires
        session.phase is Waiting,
    ensures
        bridge_step(session, BridgeEventView::Ping(data)).session == session,
        bridge_step(session, BridgeEventView::Ping(data)).actions == seq![
            BridgeActionView::Pong(data),
        ],
        bridge_step(session, BridgeEventView::Pong).session == session,
        bridge_step(session, BridgeEventView::Pong).actions == Seq::<BridgeActionView>::empty(),
{
}

/// A keepalive prolongs the hold on a sandbox that has a deadline, and then pings; without a
/// deadline it pings alone. The session stays as it is.
pub proof fn law_keepalive(session: PtySessionView)
    requires
        session.phase is Waiting,
    ensures
        bridge_step(session, BridgeEventView::Keepalive).session == session,
        session.hold_enabled ==> bridge_step(session, BridgeEventView::Keepalive).actions == seq![
            BridgeActionView::RefreshHold { seconds: 30 },
            BridgeActionView::Ping,
        ],
        !session.hold_enabled ==> bridge_step(session, BridgeEventView::Keepalive).actions == seq![
            BridgeActionView::Ping,
        ],
{
}

/// A connection that is gone, a message that could not be sent and a closed output end a session
/// with the last things and nothing else.
pub proof fn law_broken_connections_end_a_session(session: PtySessionView)
    requires
        session.phase is Waiting,
    ensures
        forall|event: BridgeEventView|
            event is Disconnected || event is SendFailed || event is OutputClosed ==> {
                let step = #[trigger] bridge_step(session, event);
                &&& step.actions == last_things(session)
                &&& step.session == PtySessionView { phase: PhaseView::Ended, ..session }
            },
{
    assert forall|event: BridgeEventView|
        event is Disconnected || event is SendFailed || event is OutputClosed implies {
        let step = #[trigger] bridge_step(session, event);
        &&& step.actions == last_things(session)
        &&& step.session == PtySessionView { phase: PhaseView::Ended, ..session }
    } by {
        assert(bridge_step(session, event).actions =~= last_things(session));
    }
}

/// Half an hour without input ends a session, two hours end any; before that time does nothing. The
/// audit log and the browser are told which it was, and the last things follow.
pub proof fn law_time_ends_a_session(session: PtySessionView, now: u64)
    requires
        session.phase is Waiting,
    ensures
        ({
            let step = bridge_step(session, BridgeEventView::Timer { now });
            let idle = now - session.last_activity >= 1_800_000;
            &&& idle ==> step.actions == seq![
                told(session, LogLevel::Info, "timeout"@, Some("idle_timeout"@)),
                BridgeActionView::Send(
                    ServerEventView::Closed {
                        reason: "idle_timeout"@,
                        message: "Terminal session closed after idle timeout"@,
                    },
                ),
            ] + last_things(session)
            &&& !idle && now >= 7_200_000 ==> step.actions == seq![
                told(session, LogLevel::Info, "timeout"@, Some("max_lifetime"@)),
                BridgeActionView::Send(
                    ServerEventView::Closed {
                        reason: "max_lifetime"@,
                        message: "Terminal session reached maximum lifetime"@,
                    },
                ),
            ] + last_things(session)
            &&& idle || now >= 7_200_000 ==> step.session == PtySessionView {
                phase: PhaseView::Ended,
                ..session
            }
            &&& !idle && now < 7_200_000 ==> step.session == session && step.actions == Seq::<
                BridgeActionView,
            >::empty()
        }),
{
    let step = bridge_step(session, BridgeEventView::Timer { now });
    if now - session.last_activity >= 1_800_000 {
        assert(step.actions =~= seq![
            told(session, LogLevel::Info, "timeout"@, Some("idle_timeout"@)),
            BridgeActionView::Send(
                ServerEventView::Closed {
                    reason: "idle_timeout"@,
                    message: "Terminal session closed after idle timeout"@,
                },
            ),
        ] + last_things(session));
    } else if now >= 7_200_000 {
        assert(step.actions =~= seq![
            told(session, LogLevel::Info, "timeout"@, Some("max_lifetime"@)),
            BridgeActionView::Send(
                ServerEventView::Closed {
                    reason: "max_lifetime"@,
                    message: "Terminal session reached maximum lifetime"@,
                },
            ),
        ] + last_things(session));
    }
}

/// The time that a session has left is what is missing to half an hour without input or to two
/// hours in all, whichever comes first, and nothing once that is over.
pub proof fn law_time_left(session: PtySessionView, now: u64)
    requires
        session.last_activity <= now,
    ensures
        ({
            let left = time_left_in(session, now);
            &&& left >= 0
            &&& left > 0 ==> now + left == session.last_activity + 1_800_000 || now + left
                == 7_200_000
            &&& left > 0 ==> now + left <= session.last_activity + 1_800_000 && now + left
                <= 7_200_000
            &&& left == 0 ==> now >= session.last_activity + 1_800_000 || now >= 7_200_000
        }),
{
}

/// Text that is not a control message is typed as it is, and puts off the idle timeout; it is kept
/// until it is answered.
pub proof fn law_text_is_typed(session: PtySessionView, now: u64, text: Seq<char>)
    requires
        session.phase is Waiting,
        json_parsed(encode_utf8(text)) matches Some(tree) ==> (tree matches Json::Object(members)
            ==> members.contains_key("type"@) ==> members["type"@] != Json::Text("resize"@)
            && members["type"@] != Json::Text("ping"@)),
    ensures
        bridge_step(session, BridgeEventView::Text { now, text }).actions == seq![
            BridgeActionView::Input(text),
        ],
        bridge_step(session, BridgeEventView::Text { now, text }).session == (PtySessionView {
            last_activity: now,
            phase: PhaseView::Sending { state: InputState::FirstTry, text },
            ..session
        }),
{
    law_other_texts_are_input(text);
}

/// Bytes are typed as the text that they are, and put off the idle timeout.
pub proof fn law_bytes_are_typed(session: PtySessionView, now: u64, data: Seq<u8>)
    requires
        session.phase is Waiting,
    ensures
        bridge_step(session, BridgeEventView::Binary { now, data }).actions == seq![
            BridgeActionView::Input(utf8_lossy(data)),
        ],
        bridge_step(session, BridgeEventView::Binary { now, data }).session == (PtySessionView {
            last_activity: now,
            phase: PhaseView::Sending { state: InputState::FirstTry, text: utf8_lossy(data) },
            ..session
        }),
{
}

/// A `ping` message puts off the idle timeout and does nothing else; a `resize` message gives the
/// terminal the size that it asks for, and waits for the answer.
pub proof fn law_control_messages_are_obeyed(
    session: PtySessionView,
    now: u64,
    text: Seq<char>,
    members: Map<Seq<char>, Json>,
)
    requires
        session.phase is Waiting,
        json_parsed(encode_utf8(text)) == Some(Json::Object(members)),
        members.contains_key("type"@),
    ensures
        members["type"@] == Json::Text("ping"@) ==> {
            let step = bridge_step(session, BridgeEventView::Text { now, text });
            &&& step.session == PtySessionView { last_activity: now, ..session }
            &&& step.actions == Seq::<BridgeActionView>::empty()
        },
        members["type"@] == Json::Text("resize"@) ==> {
            let step = bridge_step(session, BridgeEventView::Text { now, text });
            &&& step.actions.len() == 1
            &&& step.actions[0] matches BridgeActionView::Resize { rows, cols }
            &&& rows as int == asked_side(members, "rows"@, 24)
            &&& cols as int == asked_side(members, "cols"@, 80)
            &&& step.session.last_activity == now
            &&& step.session.phase matches PhaseView::Sending { state, .. }
            &&& state == InputState::Resizing
        },
{
    if members["type"@] == Json::Text("ping"@) {
        law_ping_messages(text, members);
    }
    if members["type"@] == Json::Text("resize"@) {
        law_resize_messages(text, members);
    }
}

/// An answer to input: success goes back to waiting; an error ends the session and says so,
/// unless it came before the process had started and is the first. Then the same text is typed
/// once more after a fifth of a second.
pub proof fn law_answers_to_input(
    session: PtySessionView,
    state: InputState,
    text: Seq<char>,
    error: Seq<char>,
)
    requires
        session.phase == (PhaseView::Sending { state, text }),
    ensures
        ({
            let ok = bridge_step(session, BridgeEventView::Settled(Ok(())));
            &&& ok.actions == Seq::<BridgeActionView>::empty()
            &&& ok.session == PtySessionView { phase: PhaseView::Waiting, ..session }
        }),
        ({
            let failed = bridge_step(session, BridgeEventView::Settled(Err(error)));
            let early = holds_text(error, "PTY process did not start in time"@) || holds_text(
                error,
                "PTY process has not started yet"@,
            );
            &&& state == InputState::Resizing ==> failed.actions == Seq::<BridgeActionView>::empty()
                && failed.session == PtySessionView { phase: PhaseView::Waiting, ..session }
            &&& state == InputState::FirstTry && early ==> failed.actions == seq![
                BridgeActionView::Sleep { millis: 200 },
                BridgeActionView::Input(text),
            ] && failed.session == PtySessionView {
                phase: PhaseView::Sending { state: InputState::Retrying, text },
                ..session
            }
            &&& state == InputState::Retrying || (state == InputState::FirstTry && !early)
                ==> failed.session == PtySessionView { phase: PhaseView::Ended, ..session }
                && failed.actions == seq![
                told(session, LogLevel::Warn, "close"@, Some("pty_input_error"@)),
                BridgeActionView::Send(
                    ServerEventView::Closed {
                        reason: "pty_input_error"@,
                        message: "Terminal input failed"@,
                    },
                ),
            ] + last_things(session)
        }),
{
    let failed = bridge_step(session, BridgeEventView::Settled(Err(error)));
    if failed.session.phase is Ended {
        assert(failed.actions =~= seq![
            told(session, LogLevel::Warn, "close"@, Some("pty_input_error"@)),
            BridgeActionView::Send(
                ServerEventView::Closed {
                    reason: "pty_input_error"@,
                    message: "Terminal input failed"@,
                },
            ),
        ] + last_things(session));
    }
}

/// While an answer is waited for, nothing else is taken; and an answer that nothing waits for
/// changes nothing.
pub proof fn law_answers_come_first(
    session: PtySessionView,
    event: BridgeEventView,
    outcome: Result<(), Seq<char>>,
)
    ensures
        session.phase is Sending && !(event is Settled) ==> bridge_step(session, event).session
            == session && bridge_step(session, event).actions == Seq::<BridgeActionView>::empty(),
        session.phase is Waiting ==> bridge_step(
            session,
            BridgeEventView::Settled(outcome),
        ).session == session && bridge_step(session, BridgeEventView::Settled(outcome)).actions
            == Seq::<BridgeActionView>::empty(),
        session.phase is Ended ==> bridge_step(session, event).session == session && bridge_step(
            session,
            event,
        ).actions == Seq::<BridgeActionView>::empty(),
{
}

} // verus!
