use base64::Engine;
use web_terminal::envelope::take_frame;
use web_terminal::sessions::TerminalService;
use web_terminal::stream::{EnvdStream, StreamEvent};

fn message(flags: u8, payload: &[u8]) -> Vec<u8> {
    let mut bytes = vec![flags];
    bytes.extend_from_slice(&(payload.len() as u32).to_be_bytes());
    bytes.extend_from_slice(payload);
    bytes
}

fn encoded(bytes: &[u8]) -> String {
    base64::engine::general_purpose::STANDARD.encode(bytes)
}

fn output(bytes: &[u8]) -> Vec<u8> {
    message(
        0,
        format!(r#"{{"event":{{"data":{{"pty":"{}"}}}}}}"#, encoded(bytes)).as_bytes(),
    )
}

fn shown(events: &[StreamEvent]) -> String {
    format!("{:?}", events)
}

#[test]
fn envelopes_have_a_flag_byte_and_a_size() {
    assert_eq!(
        TerminalService::encode_connect_envelope(b"abc"),
        vec![0, 0, 0, 0, 3, b'a', b'b', b'c']
    );
    assert_eq!(TerminalService::encode_connect_envelope(b""), vec![0, 0, 0, 0, 0]);
    let long = vec![7u8; 70_000];
    let wrapped = TerminalService::encode_connect_envelope(&long);
    assert_eq!(&wrapped[..5], &[0, 0, 1, 0x11, 0x70]);
    assert_eq!(wrapped.len(), 70_005);
}

#[test]
fn what_goes_into_an_envelope_comes_out() {
    let mut buffer = TerminalService::encode_connect_envelope(b"payload");
    buffer.extend_from_slice(b"more");
    let frame = take_frame(&buffer).expect("a whole message");
    assert_eq!(frame.flags, 0);
    assert_eq!(frame.payload, b"payload");
    assert_eq!(frame.rest, b"more");
    assert!(take_frame(&buffer[..11].to_vec()).is_none());
    assert!(take_frame(&buffer[..4].to_vec()).is_none());
}

#[test]
fn start_and_output_come_from_one_message() {
    let payload = format!(
        r#"{{"event":{{"start":{{"pid":4242}},"data":{{"pty":"{}"}}}}}}"#,
        encoded(b"hello from pty\n")
    );
    let mut stream = EnvdStream::new();
    let events = stream.handle_envd_stream(&message(0, payload.as_bytes()));
    assert_eq!(shown(&events), r#"[Started(4242), Output("hello from pty\n")]"#);
    assert!(!stream.is_ended());
}

#[test]
fn chunks_do_not_matter() {
    let mut all = output(b"one");
    all.extend(output("zw\u{f6}i".as_bytes()));
    all.extend(message(1, b"compressed"));
    all.extend(message(2, b"{}"));
    let whole = shown(&EnvdStream::new().handle_envd_stream(&all));
    assert_eq!(
        whole,
        "[Output(\"one\"), Output(\"zw\u{f6}i\"), Skipped, Ended(None)]"
    );
    for cut in 0..all.len() {
        let mut stream = EnvdStream::new();
        let mut events = stream.handle_envd_stream(&all[..cut]);
        events.extend(stream.handle_envd_stream(&all[cut..]));
        assert_eq!(shown(&events), whole);
    }
}

#[test]
fn nothing_is_read_after_the_end() {
    let mut stream = EnvdStream::new();
    let mut all = message(2, br#"{"error":{"code":"internal"}}"#);
    all.extend(output(b"late"));
    match stream.handle_envd_stream(&all).as_slice() {
        [StreamEvent::Ended(Some(error))] => assert_eq!(error, br#"{"code":"internal"}"#),
        other => panic!("unexpected {:?}", other),
    }
    assert!(stream.is_ended());
    assert!(stream.handle_envd_stream(&output(b"later")).is_empty());
}

#[test]
fn ends_without_an_error() {
    for payload in [&b"{}"[..], b"not json", b"[]"] {
        let mut stream = EnvdStream::new();
        let events = stream.handle_envd_stream(&message(2, payload));
        assert_eq!(shown(&events), "[Ended(None)]");
    }
}

#[test]
fn compressed_ends_are_passed_over() {
    let mut stream = EnvdStream::new();
    assert_eq!(shown(&stream.handle_envd_stream(&message(3, b"{}"))), "[Skipped]");
    assert!(!stream.is_ended());
}

#[test]
fn messages_without_output_show_nothing() {
    for payload in [
        &b"not json"[..],
        b"{}",
        br#"{"event":{}}"#,
        br#"{"event":{"data":{"pty":5}}}"#,
        br#"{"event":{"data":{"pty":"!"}}}"#,
        br#"{"event":{"data":{"pty":"/w=="}}}"#,
        br#"{"event":{"start":{"pid":-1}}}"#,
    ] {
        let events = EnvdStream::new().handle_envd_stream(&message(0, payload));
        assert!(events.is_empty());
    }
}

#[test]
fn process_ids_keep_their_low_bits() {
    let events = EnvdStream::new()
        .handle_envd_stream(&message(0, br#"{"event":{"start":{"pid":4294967297}}}"#));
    assert_eq!(shown(&events), "[Started(1)]");
}
