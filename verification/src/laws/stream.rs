//! Laws of the stream that the sandbox agent answers with, byte by byte and member by member.

use vstd::prelude::*;
use vstd::utf8::*;

use crate::codec::base64_bytes;
use crate::envelope::{envelope, first_frame, FrameView};
use crate::json::{json_bytes, json_parsed, Json};
use crate::stream::{drained, frame_events, law_chunking_is_irrelevant, StreamEventView};

verus! {

/// An envelope is a zero byte, the length of the payload in four bytes, the most significant first,
/// and the payload as it is.
pub proof fn law_envelope_layout(data: Seq<u8>)
    requires
        data.len() <= u32::MAX,
    ensures
        envelope(data).len() == 5 + data.len(),
        envelope(data)[0] == 0,
        envelope(data)[1] * 16777216 + envelope(data)[2] * 65536 + envelope(data)[3] * 256
            + envelope(data)[4] == data.len(),
        envelope(data).skip(5) == data,
{
    assert(envelope(data).skip(5) =~= data);
}

/// A message is taken off a buffer exactly where its five bytes of head and as many bytes as they
/// say are there: then it has those flags and those bytes, and the rest is what follows.
pub proof fn law_messages_are_cut_by_their_size(
    flags: u8,
    a: u8,
    b: u8,
    c: u8,
    d: u8,
    body: Seq<u8>,
)
    ensures
        ({
            let size: int = a * 16777216 + b * 65536 + c * 256 + d;
            let frame = first_frame(seq![flags, a, b, c, d] + body);
            &&& body.len() < size ==> frame is None
            &&& body.len() >= size ==> (frame matches Some(f) && f.flags == flags && f.payload
                == body.take(size) && f.rest == body.skip(size))
        }),
{
    let buffer = seq![flags, a, b, c, d] + body;
    let size: int = a * 16777216 + b * 65536 + c * 256 + d;
    if body.len() >= size {
        assert(buffer.subrange(5, 5 + size) =~= body.take(size));
        assert(buffer.skip(5 + size) =~= body.skip(size));
    }
}

/// Nothing is taken off a buffer that does not hold a whole head.
pub proof fn law_short_buffers_wait(buffer: Seq<u8>)
    requires
        buffer.len() < 5,
    ensures
        first_frame(buffer) is None,
        drained(buffer).events == Seq::<StreamEventView>::empty(),
        drained(buffer).rest == buffer,
        !drained(buffer).ended,
{
}

/// What a text at `event.data.pty` shows: the text that the base64 stands for, where it is UTF-8,
/// and nothing otherwise.
pub proof fn law_output_is_shown_as_it_is(
    payload: Seq<u8>,
    message: Map<Seq<char>, Json>,
    event: Map<Seq<char>, Json>,
    data: Map<Seq<char>, Json>,
    pty: Seq<char>,
    text: Seq<char>,
)
    requires
        json_parsed(payload) == Some(Json::Object(message)),
        message.contains_key("event"@) && message["event"@] == Json::Object(event),
        event.contains_key("data"@) && event["data"@] == Json::Object(data),
        data.contains_key("pty"@) && data["pty"@] == Json::Text(pty),
        !event.contains_key("start"@),
    ensures
        base64_bytes(pty) == Some(encode_utf8(text)) ==> frame_events(0, payload) == seq![
            StreamEventView::Output(text),
        ],
        base64_bytes(pty) is None ==> frame_events(0, payload) == Seq::<StreamEventView>::empty(),
        (base64_bytes(pty) matches Some(bytes) && !valid_utf8(bytes)) ==> frame_events(0, payload)
            == Seq::<StreamEventView>::empty(),
{
    assert((0u8 & 0x01u8) == 0 && (0u8 & 0x02u8) == 0) by (bit_vector);
    encode_utf8_valid_utf8(text);
    encode_utf8_decode_utf8(text);
    assert(Seq::<StreamEventView>::empty() + seq![StreamEventView::Output(text)] =~= seq![
        StreamEventView::Output(text),
    ]);
    assert(Seq::<StreamEventView>::empty() + Seq::<StreamEventView>::empty() =~= Seq::<
        StreamEventView,
    >::empty());
}

/// A process id at `event.start.pid` is reported, its low 32 bits, and before any output.
pub proof fn law_process_ids_are_reported(
    payload: Seq<u8>,
    message: Map<Seq<char>, Json>,
    event: Map<Seq<char>, Json>,
    start: Map<Seq<char>, Json>,
    pid: u64,
)
    requires
        json_parsed(payload) == Some(Json::Object(message)),
        message.contains_key("event"@) && message["event"@] == Json::Object(event),
        event.contains_key("start"@) && event["start"@] == Json::Object(start),
        start.contains_key("pid"@) && start["pid"@] == Json::Unsigned(pid),
    ensures
        frame_events(0, payload).len() >= 1,
        frame_events(0, payload)[0] matches StreamEventView::Started(p) && p as int == pid as int
            % 0x1_0000_0000,
        pid <= u32::MAX ==> frame_events(0, payload)[0] == StreamEventView::Started(pid as u32),
        !event.contains_key("data"@) ==> frame_events(0, payload).len() == 1,
{
    assert((0u8 & 0x01u8) == 0 && (0u8 & 0x02u8) == 0) by (bit_vector);
}

/// The text that a member of a member holds.
pub open spec fn text_under(
    event: Map<Seq<char>, Json>,
    outer: Seq<char>,
    inner: Seq<char>,
) -> Option<Seq<char>> {
    if event.contains_key(outer) {
        match event[outer] {
            Json::Object(members) => if members.contains_key(inner) {
                match members[inner] {
                    Json::Text(text) => Some(text),
                    _ => None,
                }
            } else {
                None
            },
            _ => None,
        }
    } else {
        None
    }
}

/// The whole number that a member of a member holds.
pub open spec fn number_under(
    event: Map<Seq<char>, Json>,
    outer: Seq<char>,
    inner: Seq<char>,
) -> Option<u64> {
    if event.contains_key(outer) {
        match event[outer] {
            Json::Object(members) => if members.contains_key(inner) {
                match members[inner] {
                    Json::Unsigned(n) => Some(n),
                    _ => None,
                }
            } else {
                None
            },
            _ => None,
        }
    } else {
        None
    }
}

/// A message calls for its process id, if it has one, and then for its output, if it has any, and
/// for nothing else.
pub proof fn law_messages_call_for_what_they_hold(
    payload: Seq<u8>,
    message: Map<Seq<char>, Json>,
    event: Map<Seq<char>, Json>,
    text: Seq<char>,
)
    requires
        json_parsed(payload) == Some(Json::Object(message)),
        message.contains_key("event"@) && message["event"@] == Json::Object(event),
    ensures
        ({
            let events = frame_events(0, payload);
            let pid = number_under(event, "start"@, "pid"@);
            let pty = text_under(event, "data"@, "pty"@);
            let shows = pty matches Some(d) && base64_bytes(d) == Some(encode_utf8(text));
            let silent = match pty {
                None => true,
                Some(d) => match base64_bytes(d) {
                    None => true,
                    Some(bytes) => !valid_utf8(bytes),
                },
            };
            &&& pid is None && silent ==> events == Seq::<StreamEventView>::empty()
            &&& pid is None && shows ==> events == seq![StreamEventView::Output(text)]
            &&& pid is Some && pid->Some_0 <= u32::MAX && silent ==> events == seq![
                StreamEventView::Started(pid->Some_0 as u32),
            ]
            &&& pid is Some && pid->Some_0 <= u32::MAX && shows ==> events == seq![
                StreamEventView::Started(pid->Some_0 as u32),
                StreamEventView::Output(text),
            ]
        }),
{
    assert((0u8 & 0x01u8) == 0 && (0u8 & 0x02u8) == 0) by (bit_vector);
    encode_utf8_valid_utf8(text);
    encode_utf8_decode_utf8(text);
    let events = frame_events(0, payload);
    let none = Seq::<StreamEventView>::empty();
    if let Some(n) = number_under(event, "start"@, "pid"@) {
        if n <= u32::MAX {
            let started = seq![StreamEventView::Started(n as u32)];
            assert(started + none =~= started);
            assert(started + seq![StreamEventView::Output(text)] =~= seq![
                StreamEventView::Started(n as u32),
                StreamEventView::Output(text),
            ]);
        }
    } else {
        assert(none + none =~= none);
        assert(none + seq![StreamEventView::Output(text)] =~= seq![StreamEventView::Output(text)]);
    }
}

/// A message that is not JSON, is no object, or has no event that is one calls for nothing.
pub proof fn law_other_messages_call_for_nothing(payload: Seq<u8>)
    requires
        json_parsed(payload) matches Some(tree) ==> (tree matches Json::Object(members)
            ==> members.contains_key("event"@) ==> !(members["event"@] is Object)),
    ensures
        frame_events(0, payload) == Seq::<StreamEventView>::empty(),
{
    assert((0u8 & 0x01u8) == 0 && (0u8 & 0x02u8) == 0) by (bit_vector);
    assert(Seq::<StreamEventView>::empty() + Seq::<StreamEventView>::empty() =~= Seq::<
        StreamEventView,
    >::empty());
}

/// The lowest bit of the flags marks a compressed message, which is passed over; the next one, of
/// a message that is not compressed, marks the last one. No other bit counts.
pub proof fn law_flags(flags: u8, payload: Seq<u8>)
    ensures
        flags % 2 == 1 ==> frame_events(flags, payload) == seq![StreamEventView::Skipped],
        flags % 4 == 2 ==> frame_events(flags, payload).len() == 1 && frame_events(
            flags,
            payload,
        )[0] is Ended,
        flags % 4 == 0 ==> frame_events(flags, payload) == frame_events(0, payload),
{
    assert((flags & 0x01u8) == flags % 2) by (bit_vector);
    assert((flags & 0x02u8) == 0 <==> flags % 4 < 2) by (bit_vector);
    assert((0u8 & 0x01u8) == 0 && (0u8 & 0x02u8) == 0) by (bit_vector);
}

/// The last message reports the member `error` of its object, as JSON, and none where it is not
/// JSON or has no such member.
pub proof fn law_ends_report_their_error(payload: Seq<u8>, members: Map<Seq<char>, Json>)
    ensures
        json_parsed(payload) == Some(Json::Object(members)) ==> frame_events(2, payload) == seq![
            StreamEventView::Ended(
                if members.contains_key("error"@) {
                    Some(json_bytes(members["error"@]))
                } else {
                    None
                },
            ),
        ],
        json_parsed(payload) is None ==> frame_events(2, payload) == seq![
            StreamEventView::Ended(None),
        ],
{
    assert((2u8 & 0x01u8) == 0 && (2u8 & 0x02u8) == 2) by (bit_vector);
}

/// A whole message at the start of a buffer calls for what it does alone, then for what the bytes
/// after it do; the last message of the stream is the last that is read.
pub proof fn law_messages_are_read_in_turn(buffer: Seq<u8>, frame: FrameView)
    requires
        first_frame(buffer) == Some(frame),
    ensures
        frame.flags % 4 != 2 ==> drained(buffer).events == frame_events(
            frame.flags,
            frame.payload,
        ) + drained(frame.rest).events && drained(buffer).rest == drained(frame.rest).rest
            && drained(buffer).ended == drained(frame.rest).ended,
        frame.flags % 4 == 2 ==> drained(buffer).events == frame_events(
            frame.flags,
            frame.payload,
        ) && drained(buffer).ended,
{
    let flags = frame.flags;
    assert((flags & 0x01u8) == flags % 2) by (bit_vector);
    assert((flags & 0x02u8) == 0 <==> flags % 4 < 2) by (bit_vector);
    assert(flags % 4 == 2 <==> flags % 2 == 0 && flags % 4 >= 2) by (bit_vector);
}

/// Nothing is read of a buffer until a whole message is there: what waits stays as it is.
pub proof fn law_unfinished_messages_wait(buffer: Seq<u8>, more: Seq<u8>)
    requires
        first_frame(buffer) is None,
    ensures
        drained(buffer).events == Seq::<StreamEventView>::empty(),
        drained(buffer).rest == buffer,
        !drained(buffer).ended,
        drained(drained(buffer).rest + more).events == drained(buffer + more).events,
{
    law_chunking_is_irrelevant(buffer, more);
}

} // verus!
