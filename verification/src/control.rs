//! What the browser sends: terminal input, and JSON messages that control the terminal.

use vstd::prelude::*;
use vstd::string::*;
use vstd::utf8::*;

use crate::codec::{utf8_lossy, utf8_lossy_text};
use crate::json::{json_get, json_parsed, json_str, json_u64, member_of, parse_json, Json};
use crate::pty::outcome_view;
use crate::sessions::TerminalService;
use crate::text::{contains_text, holds_text, optional_chars, same_text};

verus! {

/// The fields of a control message, as far as they are there and of the right kind.
pub struct ControlFields {
    pub kind: Option<String>,
    pub rows: Option<u64>,
    pub cols: Option<u64>,
}

/// `ControlFields`, its string as characters.
pub struct ControlView {
    pub kind: Option<Seq<char>>,
    pub rows: Option<u64>,
    pub cols: Option<u64>,
}

impl View for ControlFields {
    type V = ControlView;

    open spec fn view(&self) -> ControlView {
        ControlView { kind: optional_chars(self.kind), rows: self.rows, cols: self.cols }
    }
}

/// The number under a key of a message.
pub open spec fn number_under(message: Option<Json>, key: Seq<char>) -> Option<u64> {
    match member_of(message, key) {
        Some(value) => value.unsigned(),
        None => None,
    }
}

/// The fields of a message: `type`, `rows` and `cols`. Text that is not JSON has none.
pub open spec fn control_in(message: Option<Json>) -> ControlView {
    ControlView {
        kind: match member_of(message, "type"@) {
            Some(value) => value.text(),
            None => None,
        },
        rows: number_under(message, "rows"@),
        cols: number_under(message, "cols"@),
    }
}

/// The fields of the message that a text is.
pub open spec fn control_of(text: Seq<char>) -> ControlView {
    control_in(json_parsed(encode_utf8(text)))
}

/// Reads the fields of the message that a text is.
pub fn read_control(text: &str) -> (fields: ControlFields)
    ensures
        fields@ == control_of(text@),
{
    let mut fields = ControlFields { kind: None, rows: None, cols: None };
    if let Some(value) = parse_json(text.as_bytes()) {
        if let Some(kind) = json_get(&value, "type") {
            if let Some(name) = json_str(kind) {
                fields.kind = Some(name.to_string());
            }
        }
        if let Some(rows) = json_get(&value, "rows") {
            fields.rows = json_u64(rows);
        }
        if let Some(cols) = json_get(&value, "cols") {
            fields.cols = json_u64(cols);
        }
    }
    fields
}

/// A side of the terminal, held between 1 and 512; `default` where none is given.
pub open spec fn side(given: Option<u64>, default: u64) -> u32 {
    let n = match given {
        Some(v) => v,
        None => default,
    };
    if n < 1 {
        1
    } else if n > 512 {
        512
    } else {
        n as u32
    }
}

fn side_of(given: Option<u64>, default: u64) -> (n: u32)
    ensures
        n == side(given, default),
{
    let n: u64 = match given {
        Some(v) => v,
        None => default,
    };
    if n < 1 {
        1
    } else if n > 512 {
        512
    } else {
        n as u32
    }
}

/// The rows and columns that a `resize` message asks for: 24 and 80 where it does not say.
pub open spec fn resize_in(fields: ControlView) -> Option<(u32, u32)> {
    if fields.kind == Some("resize"@) {
        Some((side(fields.rows, 24), side(fields.cols, 80)))
    } else {
        None
    }
}

/// The fields are those of a message of this kind.
fn is_kind(fields: &ControlFields, kind: &str) -> (yes: bool)
    ensures
        yes == (fields@.kind == Some(kind@)),
{
    match &fields.kind {
        Some(k) => same_text(k.as_str(), kind),
        None => false,
    }
}

/// The rows and columns that a `resize` message asks for.
pub fn resize_of(fields: &ControlFields) -> (size: Option<(u32, u32)>)
    ensures
        size == resize_in(fields@),
{
    if !is_kind(fields, "resize") {
        return None;
    }
    Some((side_of(fields.rows, 24), side_of(fields.cols, 80)))
}

/// What a text from the browser calls for.
#[derive(Debug, Clone, Copy, PartialEq, Eq, Structural)]
pub enum ClientText {
    /// The terminal takes this size.
    Resize { rows: u32, cols: u32 },
    /// Nothing: the message only kept the connection alive.
    Ignore,
    /// The text is typed into the terminal.
    Input,
}

/// What a text with these fields calls for.
pub open spec fn client_text_in(fields: ControlView) -> ClientText {
    match resize_in(fields) {
        Some((rows, cols)) => ClientText::Resize { rows, cols },
        None => if fields.kind == Some("ping"@) {
            ClientText::Ignore
        } else {
            ClientText::Input
        },
    }
}

/// What a text with these fields calls for.
pub fn client_text_of(fields: &ControlFields) -> (action: ClientText)
    ensures
        action == client_text_in(fields@),
{
    match resize_of(fields) {
        Some((rows, cols)) => ClientText::Resize { rows, cols },
        None => if is_kind(fields, "ping") {
            ClientText::Ignore
        } else {
            ClientText::Input
        },
    }
}

/// A failure that only says that the process behind the terminal has not started yet.
pub open spec fn not_started_yet(error: Seq<char>) -> bool {
    holds_text(error, "PTY process did not start in time"@) || holds_text(
        error,
        "PTY process has not started yet"@,
    )
}

/// What input from the browser is waiting for.
#[derive(Debug, Clone, Copy, PartialEq, Eq, Structural)]
pub enum InputState {
    /// A new size was sent to the terminal.
    Resizing,
    /// Input was sent for the first time.
    FirstTry,
    /// Input was sent again.
    Retrying,
}

/// What follows when a request to the terminal is settled.
pub enum InputStep {
    /// The input is dealt with; an error ends the session.
    Done(Result<(), String>),
    /// The input is sent again after this time.
    RetryAfter { millis: u64 },
}

/// An `InputStep`, its error as characters.
pub enum InputStepView {
    Done(Result<(), Seq<char>>),
    RetryAfter { millis: u64 },
}

impl View for InputStep {
    type V = InputStepView;

    open spec fn view(&self) -> InputStepView {
        match self {
            InputStep::Done(outcome) => InputStepView::Done(outcome_view(*outcome)),
            InputStep::RetryAfter { millis } => InputStepView::RetryAfter { millis: *millis },
        }
    }
}

/// What follows when a request to the terminal is settled. A resize never ends the session.
/// Input that came before the process had started is sent once more; any other failure counts.
pub open spec fn settled(state: InputState, outcome: Result<(), Seq<char>>) -> InputStepView {
    match state {
        InputState::Resizing => InputStepView::Done(Ok(())),
        InputState::FirstTry => match outcome {
            Err(e) => if not_started_yet(e) {
                InputStepView::RetryAfter { millis: 200 }
            } else {
                InputStepView::Done(outcome)
            },
            Ok(()) => InputStepView::Done(outcome),
        },
        InputState::Retrying => InputStepView::Done(outcome),
    }
}

/// What follows when a request to the terminal is settled.
pub fn input_settled(state: InputState, outcome: Result<(), String>) -> (step: InputStep)
    ensures
        step@ == settled(state, outcome_view(outcome)),
{
    match state {
        InputState::Resizing => InputStep::Done(Ok(())),
        InputState::FirstTry => match outcome {
            Err(e) => if contains_text(e.as_str(), "PTY process did not start in time")
                || contains_text(e.as_str(), "PTY process has not started yet") {
                InputStep::RetryAfter { millis: 200 }
            } else {
                InputStep::Done(Err(e))
            },
            Ok(()) => InputStep::Done(Ok(())),
        },
        InputState::Retrying => InputStep::Done(outcome),
    }
}

/// A text is a control message: an object, from its first character on, of a known kind.
pub open spec fn is_control(text: Seq<char>) -> bool {
    text.len() > 0 && text[0] == '{' && (control_of(text).kind == Some("resize"@) || control_of(
        text,
    ).kind == Some("ping"@))
}

impl TerminalService {
    /// The rows and columns that a text asks for, where it is a `resize` message.
    pub fn parse_resize_message(text: &str) -> (size: Option<(u32, u32)>)
        ensures
            size == resize_in(control_of(text@)),
    {
        resize_of(&read_control(text))
    }

    /// Whether a text is a `ping` message.
    pub fn parse_ping_message(text: &str) -> (ping: bool)
        ensures
            ping == (control_of(text@).kind == Some("ping"@)),
    {
        is_kind(&read_control(text), "ping")
    }

    /// Whether a text is a control message.
    pub fn is_control_message(text: &str) -> (control: bool)
        ensures
            control == is_control(text@),
    {
        if text.unicode_len() == 0 || text.get_char(0) != '{' {
            return false;
        }
        let fields = read_control(text);
        is_kind(&fields, "resize") || is_kind(&fields, "ping")
    }

    /// What a text from the browser calls for. A control message is never typed into the terminal.
    pub fn handle_client_text(text: &str) -> (action: ClientText)
        ensures
            action == client_text_in(control_of(text@)),
            is_control(text@) ==> action != ClientText::Input,
    {
        client_text_of(&read_control(text))
    }

    /// The text that bytes from the browser type into the terminal. Bytes that are UTF-8 are that
    /// text, so text that is sent as bytes is typed as it is; what is malformed in others is
    /// replaced.
    pub fn handle_client_binary(data: &[u8]) -> (text: String)
        ensures
            text@ == utf8_lossy(data@),
            valid_utf8(data@) ==> text@ == decode_utf8(data@),
            forall|sent: Seq<char>| data@ == #[trigger] encode_utf8(sent) ==> text@ == sent,
    {
        let text = utf8_lossy_text(data);
        assert forall|sent: Seq<char>| data@ == #[trigger] encode_utf8(sent) implies text@
            == sent by {
            encode_utf8_valid_utf8(sent);
            encode_utf8_decode_utf8(sent);
        }
        text
    }
}

/// A size that a `resize` message asks for has between 1 and 512 rows and columns.
pub proof fn law_sizes_are_bounded(fields: ControlView)
    ensures
        resize_in(fields) matches Some((rows, cols)) ==> 1 <= rows <= 512 && 1 <= cols <= 512,
{
}

/// A size within the bounds is taken as it is.
pub proof fn law_sizes_within_bounds_stay(fields: ControlView, rows: u64, cols: u64)
    requires
        fields.kind == Some("resize"@),
        fields.rows == Some(rows),
        fields.cols == Some(cols),
        1 <= rows <= 512,
        1 <= cols <= 512,
    ensures
        resize_in(fields) == Some((rows as u32, cols as u32)),
{
}

/// Input is sent at most twice: after a second try nothing is sent again.
pub proof fn law_input_is_sent_at_most_twice(outcome: Result<(), Seq<char>>)
    ensures
        settled(InputState::Retrying, outcome) is Done,
{
}

} // verus!
