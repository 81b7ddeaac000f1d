//! The stream that the sandbox agent answers a terminal with: messages in envelopes, which come
//! in chunks of any size.

use vstd::prelude::*;
use vstd::utf8::*;

use crate::codec::{base64_bytes, decode_base64, utf8_chars, utf8_text};
use crate::envelope::{envelope, first_frame, law_envelope_round_trip, take_frame, FrameView};
use crate::json::{
    json_bytes, json_get, json_parsed, json_str, json_to_vec, json_u64, member_of, parse_json,
    Json,
};

verus! {

/// What a message of the stream calls for.
#[derive(Debug)]
pub enum StreamEvent {
    /// The process behind the terminal runs under this id.
    Started(u32),
    /// The terminal shows this text.
    Output(String),
    /// A compressed message was passed over.
    Skipped,
    /// The stream is at its end. It may report an error, given here as JSON.
    Ended(Option<Vec<u8>>),
}

/// A `StreamEvent` as plain values.
pub enum StreamEventView {
    Started(u32),
    Output(Seq<char>),
    Skipped,
    Ended(Option<Seq<u8>>),
}

impl View for StreamEvent {
    type V = StreamEventView;

    open spec fn view(&self) -> StreamEventView {
        match self {
            StreamEvent::Started(pid) => StreamEventView::Started(*pid),
            StreamEvent::Output(text) => StreamEventView::Output(text@),
            StreamEvent::Skipped => StreamEventView::Skipped,
            StreamEvent::Ended(error) => StreamEventView::Ended(
                match error {
                    Some(e) => Some(e@),
                    None => None,
                },
            ),
        }
    }
}

/// Events as plain values.
pub open spec fn event_views(events: Seq<StreamEvent>) -> Seq<StreamEventView> {
    Seq::new(events.len(), |i: int| events[i]@)
}

/// The process id that a message reports: `event.start.pid`.
pub open spec fn pid_in(message: Option<Json>) -> Option<u64> {
    match member_of(member_of(member_of(message, "event"@), "start"@), "pid"@) {
        Some(pid) => pid.unsigned(),
        None => None,
    }
}

/// The terminal output that a message carries, in base64: `event.data.pty`.
pub open spec fn pty_data_in(message: Option<Json>) -> Option<Seq<char>> {
    match member_of(member_of(member_of(message, "event"@), "data"@), "pty"@) {
        Some(pty) => pty.text(),
        None => None,
    }
}

/// The error that the last message of a stream reports, as JSON.
pub open spec fn stream_error_in(message: Option<Json>) -> Option<Seq<u8>> {
    match member_of(message, "error"@) {
        Some(error) => Some(json_bytes(error)),
        None => None,
    }
}

/// The low 32 bits of a process id.
pub open spec fn low_pid(pid: u64) -> u32 {
    (pid % 0x1_0000_0000) as u32
}

/// What the process id of a message, if it has one, calls for.
pub open spec fn started_events(pid: Option<u64>) -> Seq<StreamEventView> {
    match pid {
        Some(n) => seq![StreamEventView::Started(low_pid(n))],
        None => Seq::empty(),
    }
}

/// What the output of a message, if it has any, calls for: it is shown where it is the base64 of
/// UTF-8 text.
pub open spec fn output_events(data: Option<Seq<char>>) -> Seq<StreamEventView> {
    match data {
        Some(d) => match base64_bytes(d) {
            Some(bytes) => match utf8_chars(bytes) {
                Some(text) => seq![StreamEventView::Output(text)],
                None => Seq::empty(),
            },
            None => Seq::empty(),
        },
        None => Seq::empty(),
    }
}

/// A message is compressed.
pub open spec fn is_compressed(flags: u8) -> bool {
    (flags & 0x01) != 0
}

/// A message is the last one of its stream.
pub open spec fn ends_stream(flags: u8) -> bool {
    !is_compressed(flags) && (flags & 0x02) != 0
}

/// What a message calls for.
pub open spec fn frame_events(flags: u8, payload: Seq<u8>) -> Seq<StreamEventView> {
    if is_compressed(flags) {
        seq![StreamEventView::Skipped]
    } else if ends_stream(flags) {
        seq![StreamEventView::Ended(stream_error_in(json_parsed(payload)))]
    } else {
        started_events(pid_in(json_parsed(payload))) + output_events(
            pty_data_in(json_parsed(payload)),
        )
    }
}

/// What came of a buffer: the events of its messages, the bytes after the last message that was
/// taken, and whether that message ended the stream.
pub struct Drained {
    pub events: Seq<StreamEventView>,
    pub rest: Seq<u8>,
    pub ended: bool,
}

/// Takes the messages of a buffer one after another, up to one that is not all there or one that
/// ends the stream.
pub open spec fn drained(buffer: Seq<u8>) -> Drained
    decreases buffer.len(),
{
    match first_frame(buffer) {
        None => Drained { events: Seq::empty(), rest: buffer, ended: false },
        Some(frame) => if ends_stream(frame.flags) {
            Drained {
                events: frame_events(frame.flags, frame.payload),
                rest: frame.rest,
                ended: true,
            }
        } else {
            let later = drained(frame.rest);
            Drained {
                events: frame_events(frame.flags, frame.payload) + later.events,
                rest: later.rest,
                ended: later.ended,
            }
        },
    }
}

/// What a message of the stream says, as far as the terminal reads it.
pub struct PtyMessage {
    pub pid: Option<u64>,
    pub data: Option<String>,
}

/// Reads a message of the stream.
pub fn read_pty_message(raw: &[u8]) -> (message: PtyMessage)
    ensures
        message.pid == pid_in(json_parsed(raw@)),
        match message.data {
            Some(d) => pty_data_in(json_parsed(raw@)) == Some(d@),
            None => pty_data_in(json_parsed(raw@)) is None,
        },
{
    let mut message = PtyMessage { pid: None, data: None };
    if let Some(value) = parse_json(raw) {
        if let Some(event) = json_get(&value, "event") {
            if let Some(start) = json_get(event, "start") {
                if let Some(pid) = json_get(start, "pid") {
                    message.pid = json_u64(pid);
                }
            }
            if let Some(data) = json_get(event, "data") {
                if let Some(pty) = json_get(data, "pty") {
                    if let Some(text) = json_str(pty) {
                        message.data = Some(text.to_string());
                    }
                }
            }
        }
    }
    message
}

/// Reads the last message of a stream: the error that it reports, as JSON.
pub fn read_end_of_stream(raw: &[u8]) -> (error: Option<Vec<u8>>)
    ensures
        match error {
            Some(e) => stream_error_in(json_parsed(raw@)) == Some(e@),
            None => stream_error_in(json_parsed(raw@)) is None,
        },
{
    match parse_json(raw) {
        Some(value) => match json_get(&value, "error") {
            Some(error) => match json_to_vec(error) {
                Ok(bytes) => Some(bytes),
                Err(_) => None,
            },
            None => None,
        },
        None => None,
    }
}

/// Adds what a message calls for to a list of events.
pub fn push_message_events(events: &mut Vec<StreamEvent>, message: PtyMessage)
    ensures
        event_views(final(events)@) == event_views(old(events)@) + started_events(message.pid)
            + output_events(
            match message.data {
                Some(d) => Some(d@),
                None => None,
            },
        ),
{
    let ghost before = event_views(events@);
    if let Some(pid) = message.pid {
        events.push(StreamEvent::Started((pid % 0x1_0000_0000) as u32));
    }
    assert(event_views(events@) =~= before + started_events(message.pid));
    let ghost between = event_views(events@);
    if let Some(data) = message.data {
        if let Some(bytes) = decode_base64(data.as_str()) {
            if let Some(text) = utf8_text(bytes) {
                events.push(StreamEvent::Output(text));
                assert(event_views(events@) =~= between.push(events@.last()@));
            }
        }
    }
    assert(event_views(events@) =~= between + output_events(
        match message.data {
            Some(d) => Some(d@),
            None => None,
        },
    ));
}

/// The stream of one terminal, between two chunks.
pub struct EnvdStream {
    buffer: Vec<u8>,
    ended: bool,
}

impl EnvdStream {
    /// The bytes that are not part of a whole message yet.
    pub closed spec fn pending(&self) -> Seq<u8> {
        self.buffer@
    }

    /// The stream has ended: nothing that still comes is read.
    pub closed spec fn has_ended(&self) -> bool {
        self.ended
    }

    /// A stream of which nothing has come yet.
    pub fn new() -> (stream: EnvdStream)
        ensures
            stream.pending() == Seq::<u8>::empty(),
            !stream.has_ended(),
    {
        EnvdStream { buffer: Vec::new(), ended: false }
    }

    /// Whether the stream has ended.
    pub fn is_ended(&self) -> (ended: bool)
        ensures
            ended == self.has_ended(),
    {
        self.ended
    }

    /// Takes the next chunk of the stream and gives what its messages call for.
    pub fn handle_envd_stream(&mut self, chunk: &[u8]) -> (events: Vec<StreamEvent>)
        ensures
            old(self).has_ended() ==> event_views(events@) == Seq::<StreamEventView>::empty()
                && final(self).has_ended() && final(self).pending() == old(self).pending(),
            !old(self).has_ended() ==> ({
                let all = drained(old(self).pending() + chunk@);
                &&& event_views(events@) == all.events
                &&& final(self).pending() == all.rest
                &&& final(self).has_ended() == all.ended
            }),
    {
        let mut events: Vec<StreamEvent> = Vec::new();
        assert(event_views(events@) =~= Seq::empty());
        if self.ended {
            return events;
        }
        let ghost buffer = self.buffer@ + chunk@;
        self.buffer.extend_from_slice(chunk);
        assert(self.buffer@ =~= buffer);
        let mut more = true;
        assert(event_views(events@) + drained(buffer).events =~= drained(buffer).events);
        while more
            invariant
                more ==> !self.ended,
                more ==> drained(buffer).events == event_views(events@) + drained(
                    self.buffer@,
                ).events,
                more ==> drained(buffer).rest == drained(self.buffer@).rest,
                more ==> drained(buffer).ended == drained(self.buffer@).ended,
                !more ==> drained(buffer) == (Drained {
                    events: event_views(events@),
                    rest: self.buffer@,
                    ended: self.ended,
                }),
            decreases (if more { 1int } else { 0int }), self.buffer@.len(),
        {
            let ghost shown = event_views(events@);
            let ghost current = self.buffer@;
            match take_frame(&self.buffer) {
                None => {
                    more = false;
                    assert(shown + Seq::empty() =~= shown);
                },
                Some(frame) => {
                    let flags = frame.flags;
                    let ghost payload = frame.payload@;
                    self.buffer = frame.rest;
                    if (flags & 0x01) != 0 {
                        events.push(StreamEvent::Skipped);
                        assert(event_views(events@) =~= shown + frame_events(flags, payload));
                    } else if (flags & 0x02) != 0 {
                        let error = read_end_of_stream(frame.payload.as_slice());
                        events.push(StreamEvent::Ended(error));
                        self.ended = true;
                        more = false;
                        assert(event_views(events@) =~= shown + frame_events(flags, payload));
                    } else {
                        let message = read_pty_message(frame.payload.as_slice());
                        push_message_events(&mut events, message);
                        assert(event_views(events@) =~= shown + frame_events(flags, payload));
                    }
                    assert(event_views(events@) + drained(self.buffer@).events =~= shown + (
                    frame_events(flags, payload) + drained(self.buffer@).events));
                },
            }
        }
        events
    }
}

/// A message that is all there stays the same whatever comes after it.
proof fn lemma_first_frame_extends(buffer: Seq<u8>, more: Seq<u8>)
    requires
        first_frame(buffer) is Some,
    ensures
        first_frame(buffer + more) == Some(
            FrameView {
                flags: first_frame(buffer)->Some_0.flags,
                payload: first_frame(buffer)->Some_0.payload,
                rest: first_frame(buffer)->Some_0.rest + more,
            },
        ),
{
    let whole = buffer + more;
    assert(crate::envelope::size_in(whole) == crate::envelope::size_in(buffer));
    let end = 5 + crate::envelope::size_in(buffer);
    assert(whole.subrange(5, end) =~= buffer.subrange(5, end));
    assert(whole.skip(end) =~= buffer.skip(end) + more);
}

/// How the stream is cut into chunks does not matter: what two chunks call for one after the
/// other is what they call for in one piece. Once the stream has ended, nothing more is read.
pub proof fn law_chunking_is_irrelevant(first: Seq<u8>, second: Seq<u8>)
    ensures
        drained(first).ended ==> drained(first + second).ended && drained(first + second).events
            == drained(first).events,
        !drained(first).ended ==> ({
            let then = drained(drained(first).rest + second);
            let whole = drained(first + second);
            &&& whole.events == drained(first).events + then.events
            &&& whole.rest == then.rest
            &&& whole.ended == then.ended
        }),
    decreases first.len(),
{
    match first_frame(first) {
        None => {
            let then = drained(first + second);
            assert(Seq::<StreamEventView>::empty() + then.events =~= then.events);
        },
        Some(frame) => {
            lemma_first_frame_extends(first, second);
            if !ends_stream(frame.flags) {
                law_chunking_is_irrelevant(frame.rest, second);
                let here = frame_events(frame.flags, frame.payload);
                let later = drained(frame.rest);
                let then = drained(later.rest + second);
                assert(here + (later.events + then.events) =~= here + later.events + then.events);
            }
        },
    }
}

/// Messages are taken in the order in which they come: what a message in an envelope calls for,
/// then what the bytes after it call for.
pub proof fn law_messages_in_order(payload: Seq<u8>, following: Seq<u8>)
    requires
        payload.len() <= u32::MAX,
    ensures
        drained(envelope(payload) + following).events == frame_events(0, payload) + drained(
            following,
        ).events,
        drained(envelope(payload) + following).rest == drained(following).rest,
        drained(envelope(payload) + following).ended == drained(following).ended,
{
    law_envelope_round_trip(payload, following);
    assert((0u8 & 0x01u8) == 0 && (0u8 & 0x02u8) == 0) by (bit_vector);
}

/// Terminal output arrives: a message in an envelope that carries the base64 of a text shows
/// that text, and nothing of it stays behind.
pub proof fn law_output_arrives(payload: Seq<u8>, text: Seq<char>)
    requires
        payload.len() <= u32::MAX,
        pty_data_in(json_parsed(payload)) is Some,
        base64_bytes(pty_data_in(json_parsed(payload))->Some_0) == Some(encode_utf8(text)),
    ensures
        drained(envelope(payload)).events == started_events(pid_in(json_parsed(payload))).push(
            StreamEventView::Output(text),
        ),
        drained(envelope(payload)).rest == Seq::<u8>::empty(),
        !drained(envelope(payload)).ended,
{
    let none = Seq::<u8>::empty();
    law_messages_in_order(payload, none);
    assert(envelope(payload) + none =~= envelope(payload));
    encode_utf8_valid_utf8(text);
    encode_utf8_decode_utf8(text);
    assert((0u8 & 0x01u8) == 0 && (0u8 & 0x02u8) == 0) by (bit_vector);
    assert(drained(none) == (Drained { events: Seq::empty(), rest: none, ended: false }));
    let pid = started_events(pid_in(json_parsed(payload)));
    assert(pid + seq![StreamEventView::Output(text)] + Seq::empty() =~= pid.push(
        StreamEventView::Output(text),
    ));
}

} // verus!
