//! Laws of what the browser sends: control messages by their members, and what follows a request.

use vstd::prelude::*;
use vstd::utf8::*;

use crate::control::{
    client_text_in, control_of, is_control, resize_in, settled, ClientText, InputState,
    InputStepView,
};
use crate::json::{json_parsed, Json};
use crate::laws::text::law_holds_text;
use crate::text::holds_text;

verus! {

/// The number of rows or columns that a member asks for: the number there, held between 1 and 512,
/// and the usual one where there is no whole number that is not negative.
pub open spec fn asked_side(members: Map<Seq<char>, Json>, key: Seq<char>, usual: int) -> int {
    if members.contains_key(key) {
        match members[key] {
            Json::Unsigned(n) => if n == 0 {
                1
            } else if n > 512 {
                512
            } else {
                n as int
            },
            _ => usual,
        }
    } else {
        usual
    }
}

/// A text that is an object of type `resize` asks for its `rows` and `cols`, 24 and 80 where it
/// does not say, and is not typed.
pub proof fn law_resize_messages(text: Seq<char>, members: Map<Seq<char>, Json>)
    requires
        json_parsed(encode_utf8(text)) == Some(Json::Object(members)),
        members.contains_key("type"@) && members["type"@] == Json::Text("resize"@),
    ensures
        resize_in(control_of(text)) matches Some((rows, cols)) && rows as int == asked_side(
            members,
            "rows"@,
            24,
        ) && cols as int == asked_side(members, "cols"@, 80) && client_text_in(control_of(text))
            == (ClientText::Resize { rows, cols }),
{
}

/// A text that is an object of type `ping` asks for nothing and is not typed.
pub proof fn law_ping_messages(text: Seq<char>, members: Map<Seq<char>, Json>)
    requires
        json_parsed(encode_utf8(text)) == Some(Json::Object(members)),
        members.contains_key("type"@) && members["type"@] == Json::Text("ping"@),
    ensures
        control_of(text).kind == Some("ping"@),
        resize_in(control_of(text)) is None,
        client_text_in(control_of(text)) == ClientText::Ignore,
{
    reveal_strlit("resize");
    reveal_strlit("ping");
    assert("resize"@.len() == 6 && "ping"@.len() == 4);
}

/// Any other text is typed: one that is not JSON, is no object, has no type, or one of another
/// type.
pub proof fn law_other_texts_are_input(text: Seq<char>)
    requires
        json_parsed(encode_utf8(text)) matches Some(tree) ==> (tree matches Json::Object(members)
            ==> members.contains_key("type"@) ==> members["type"@] != Json::Text("resize"@)
            && members["type"@] != Json::Text("ping"@)),
    ensures
        resize_in(control_of(text)) is None,
        client_text_in(control_of(text)) == ClientText::Input,
        !is_control(text),
{
}

/// A control message begins with a brace and is an object of type `resize` or `ping`.
pub proof fn law_control_messages(text: Seq<char>)
    ensures
        is_control(text) <==> {
            &&& text.len() > 0 && text[0] == '{'
            &&& json_parsed(encode_utf8(text)) matches Some(Json::Object(members))
            &&& members.contains_key("type"@)
            &&& members["type"@] == Json::Text("resize"@) || members["type"@] == Json::Text(
                "ping"@,
            )
        },
{
}

/// Input fails for good with the error that it met, goes through where it went through, and is
/// tried once more, a fifth of a second later, only where the process had not started. A resize
/// is never an error.
pub proof fn law_settled(before: Seq<char>, after: Seq<char>, error: Seq<char>)
    ensures
        settled(InputState::FirstTry, Ok(())) == InputStepView::Done(Ok(())),
        settled(InputState::Retrying, Ok(())) == InputStepView::Done(Ok(())),
        settled(InputState::Retrying, Err(error)) == InputStepView::Done(Err(error)),
        settled(InputState::Resizing, Ok(())) == InputStepView::Done(Ok(())),
        settled(InputState::Resizing, Err(error)) == InputStepView::Done(Ok(())),
        settled(
            InputState::FirstTry,
            Err(before + "PTY process did not start in time"@ + after),
        ) == (InputStepView::RetryAfter { millis: 200 }),
        settled(
            InputState::FirstTry,
            Err(before + "PTY process has not started yet"@ + after),
        ) == (InputStepView::RetryAfter { millis: 200 }),
        !holds_text(error, "PTY process did not start in time"@) && !holds_text(
            error,
            "PTY process has not started yet"@,
        ) ==> settled(InputState::FirstTry, Err(error)) == InputStepView::Done(Err(error)),
{
    law_holds_text(before, "PTY process did not start in time"@, after, error);
    law_holds_text(before, "PTY process has not started yet"@, after, error);
}

} // verus!
