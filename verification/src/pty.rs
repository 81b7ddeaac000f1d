//! The requests that start, feed, resize and end the process behind a terminal, and what their
//! replies mean.

use vstd::prelude::*;
use vstd::string::*;
use vstd::utf8::*;

use crate::codec::{base64_bytes, base64_text, encode_base64, fits_base64};
use crate::envelope::{envelope, first_frame, law_envelope_round_trip, wrap, FrameView};
use crate::json::{
    is_plain, json_bytes, json_list, json_number, json_object, json_parsed, json_set, json_text,
    json_to_vec, json_tree, raw_value_key, Json,
};
use crate::laws::pty::law_typed_text_arrives_whole;
use crate::sessions::TerminalService;
use crate::text::{
    decimal, lemma_found_is, occurs_at, optional_chars, optional_str, replace,
    replaced, trim, trim_end_of, trimmed, trimmed_end_of,
};

verus! {

/// A header of a request, as characters.
pub type HeaderView = (Seq<char>, Seq<char>);

/// A `POST` request.
#[derive(Debug)]
pub struct HttpRequest {
    pub url: String,
    pub headers: Vec<(&'static str, String)>,
    pub body: Vec<u8>,
}

/// An `HttpRequest`, its strings as characters.
pub struct HttpRequestView {
    pub url: Seq<char>,
    pub headers: Seq<HeaderView>,
    pub body: Seq<u8>,
}

/// Headers as characters.
pub open spec fn header_views(headers: Seq<(&'static str, String)>) -> Seq<HeaderView> {
    Seq::new(headers.len(), |i: int| (headers[i].0@, headers[i].1@))
}

impl View for HttpRequest {
    type V = HttpRequestView;

    open spec fn view(&self) -> HttpRequestView {
        HttpRequestView { url: self.url@, headers: header_views(self.headers@), body: self.body@ }
    }
}

/// A header that is sent where it has a value.
pub open spec fn optional_header(name: Seq<char>, value: Option<Seq<char>>) -> Seq<HeaderView> {
    match value {
        Some(v) => seq![(name, v)],
        None => Seq::empty(),
    }
}

/// A token that is not empty.
pub open spec fn token_of(access_token: Seq<char>) -> Option<Seq<char>> {
    if access_token.len() > 0 {
        Some(access_token)
    } else {
        None
    }
}

/// The headers of the request that starts the process.
pub open spec fn start_headers(access_token: Seq<char>, envd_auth: Option<Seq<char>>) -> Seq<
    HeaderView,
> {
    seq![
        ("Content-Type"@, "application/connect+json"@),
        ("Connect-Protocol-Version"@, "1"@),
        ("Connect-Content-Encoding"@, "identity"@),
    ] + optional_header("X-Access-Token"@, token_of(access_token)) + optional_header(
        "Authorization"@,
        envd_auth,
    )
}

/// The headers of a request to a process that was started.
pub open spec fn process_headers(access_token: Seq<char>, envd_auth: Option<Seq<char>>) -> Seq<
    HeaderView,
> {
    seq![
        ("Content-Type"@, "application/json"@),
        ("Connect-Protocol-Version"@, "1"@),
    ] + optional_header("Authorization"@, envd_auth) + optional_header(
        "X-Access-Token"@,
        token_of(access_token),
    )
}

/// The size of a terminal, as JSON.
pub open spec fn size_tree(rows: u32, cols: u32) -> Json {
    Json::Object(
        map![
            "size"@ => Json::Object(map![
                "rows"@ => Json::Unsigned(rows as u64),
                "cols"@ => Json::Unsigned(cols as u64),
            ]),
        ],
    )
}

/// The environment of the process, as JSON.
pub open spec fn environment_tree() -> Json {
    Json::Object(
        map![
            "TERM"@ => Json::Text("xterm-256color"@),
            "LANG"@ => Json::Text("C.UTF-8"@),
            "LC_ALL"@ => Json::Text("C.UTF-8"@),
        ],
    )
}

/// The process that a terminal runs, an interactive login shell, as JSON.
pub open spec fn shell_tree(container_id: Option<Seq<char>>) -> Json {
    let shell = map![
        "cmd"@ => Json::Text("/bin/bash"@),
        "args"@ => Json::List(seq![Json::Text("-i"@), Json::Text("-l"@)]),
        "envs"@ => environment_tree(),
    ];
    match container_id {
        Some(id) => Json::Object(shell.insert("container_id"@, Json::Text(id))),
        None => Json::Object(shell),
    }
}

/// What starts the process, as JSON: the shell, in a terminal of 24 rows and 80 columns.
pub open spec fn start_tree(container_id: Option<Seq<char>>) -> Json {
    Json::Object(map!["process"@ => shell_tree(container_id), "pty"@ => size_tree(24, 80)])
}

/// The process with an id, as JSON.
pub open spec fn process_tree(pid: u32) -> Json {
    Json::Object(map!["pid"@ => Json::Unsigned(pid as u64)])
}

/// Input for a process, as JSON.
pub open spec fn input_tree(pid: u32, pty: Seq<char>) -> Json {
    Json::Object(
        map![
            "process"@ => process_tree(pid),
            "input"@ => Json::Object(map!["pty"@ => Json::Text(pty)]),
        ],
    )
}

/// A new size for the terminal of a process, as JSON.
pub open spec fn resize_tree(pid: u32, rows: u32, cols: u32) -> Json {
    Json::Object(map!["process"@ => process_tree(pid), "pty"@ => size_tree(rows, cols)])
}

/// The end of a process, as JSON.
pub open spec fn kill_tree(pid: u32) -> Json {
    Json::Object(
        map!["process"@ => process_tree(pid), "signal"@ => Json::Text("SIGNAL_SIGKILL"@)],
    )
}

/// Adds a header, where it has a value.
fn push_header(headers: &mut Vec<(&'static str, String)>, name: &'static str, value: Option<&str>)
    ensures
        header_views(final(headers)@) == header_views(old(headers)@) + optional_header(
            name@,
            optional_str(value),
        ),
{
    let ghost before = header_views(headers@);
    if let Some(v) = value {
        headers.push((name, v.to_string()));
    }
    assert(header_views(headers@) =~= before + optional_header(name@, optional_str(value)));
}

fn as_token(access_token: &str) -> (token: Option<&str>)
    ensures
        optional_str(token) == token_of(access_token@),
{
    if access_token.is_empty() {
        None
    } else {
        Some(access_token)
    }
}

fn as_text(text: &Option<String>) -> (r: Option<&str>)
    ensures
        optional_str(r) == optional_chars(*text),
{
    match text {
        Some(t) => Some(t.as_str()),
        None => None,
    }
}

/// The size of a terminal.
fn size_value(rows: u32, cols: u32) -> (value: serde_json::Value)
    ensures
        json_tree(value) == size_tree(rows, cols),
{
    let mut size = json_object();
    json_set(&mut size, "rows", json_number(rows));
    json_set(&mut size, "cols", json_number(cols));
    let mut pty = json_object();
    json_set(&mut pty, "size", size);
    pty
}

/// The process that a terminal runs.
fn shell_value(container_id: Option<&str>) -> (value: serde_json::Value)
    ensures
        json_tree(value) == shell_tree(optional_str(container_id)),
{
    let mut envs = json_object();
    json_set(&mut envs, "TERM", json_text("xterm-256color"));
    json_set(&mut envs, "LANG", json_text("C.UTF-8"));
    json_set(&mut envs, "LC_ALL", json_text("C.UTF-8"));
    let mut items: Vec<serde_json::Value> = Vec::new();
    items.push(json_text("-i"));
    items.push(json_text("-l"));
    let args = json_list(items);
    assert(json_tree(args) == Json::List(seq![Json::Text("-i"@), Json::Text("-l"@)])) by {
        assert(Seq::new(items@.len(), |i: int| json_tree(items@[i])) =~= seq![
            Json::Text("-i"@),
            Json::Text("-l"@),
        ]);
    }
    let mut shell = json_object();
    json_set(&mut shell, "cmd", json_text("/bin/bash"));
    json_set(&mut shell, "args", args);
    json_set(&mut shell, "envs", envs);
    if let Some(id) = container_id {
        json_set(&mut shell, "container_id", json_text(id));
    }
    shell
}

/// The process with an id.
fn process_value(pid: u32) -> (value: serde_json::Value)
    ensures
        json_tree(value) == process_tree(pid),
{
    let mut process = json_object();
    json_set(&mut process, "pid", json_number(pid));
    process
}

/// None of the keys that are written here is the one that `serde_json` keeps for itself.
proof fn lemma_keys_are_ordinary()
    ensures
        "process"@ != raw_value_key(),
        "pty"@ != raw_value_key(),
        "size"@ != raw_value_key(),
        "rows"@ != raw_value_key(),
        "cols"@ != raw_value_key(),
        "cmd"@ != raw_value_key(),
        "args"@ != raw_value_key(),
        "envs"@ != raw_value_key(),
        "container_id"@ != raw_value_key(),
        "TERM"@ != raw_value_key(),
        "LANG"@ != raw_value_key(),
        "LC_ALL"@ != raw_value_key(),
        "pid"@ != raw_value_key(),
        "input"@ != raw_value_key(),
        "signal"@ != raw_value_key(),
{
    reveal_strlit("$serde_json::private::RawValue");
    reveal_strlit("process");
    reveal_strlit("pty");
    reveal_strlit("size");
    reveal_strlit("rows");
    reveal_strlit("cols");
    reveal_strlit("cmd");
    reveal_strlit("args");
    reveal_strlit("envs");
    reveal_strlit("container_id");
    reveal_strlit("TERM");
    reveal_strlit("LANG");
    reveal_strlit("LC_ALL");
    reveal_strlit("pid");
    reveal_strlit("input");
    reveal_strlit("signal");
    assert(raw_value_key().len() == 30);
}

/// What starts the process is plain.
proof fn lemma_start_tree_is_plain(container_id: Option<Seq<char>>)
    ensures
        is_plain(start_tree(container_id), 16),
{
    reveal_with_fuel(is_plain, 6);
    lemma_keys_are_ordinary();
}

proof fn lemma_input_tree_is_plain(pid: u32, pty: Seq<char>)
    ensures
        is_plain(input_tree(pid, pty), 16),
{
    reveal_with_fuel(is_plain, 6);
    lemma_keys_are_ordinary();
}

proof fn lemma_resize_tree_is_plain(pid: u32, rows: u32, cols: u32)
    ensures
        is_plain(resize_tree(pid, rows, cols), 16),
{
    reveal_with_fuel(is_plain, 6);
    lemma_keys_are_ordinary();
}

proof fn lemma_kill_tree_is_plain(pid: u32)
    ensures
        is_plain(kill_tree(pid), 16),
{
    reveal_with_fuel(is_plain, 6);
    lemma_keys_are_ordinary();
}

/// Where the process of a sandbox is started: behind the proxy, on the port of the sandbox agent.
pub open spec fn start_url(proxy_base: Option<Seq<char>>, sandbox_id: Seq<char>) -> Seq<char> {
    let base = match proxy_base {
        Some(b) => b,
        None => "http://127.0.0.1"@,
    };
    trimmed_end_of(base, '/') + "/sandbox/"@ + sandbox_id + "/49983/process.Process/Start"@
}

/// Where the process of a sandbox is started.
pub fn start_url_of(proxy_base: Option<&str>, sandbox_id: &str) -> (url: String)
    ensures
        url@ == start_url(optional_str(proxy_base), sandbox_id@),
{
    let base: &str = match proxy_base {
        Some(b) => b,
        None => "http://127.0.0.1",
    };
    trim_end_of(base, '/').to_string().concat("/sandbox/").concat(sandbox_id).concat(
        "/49983/process.Process/Start",
    )
}

/// The `Authorization` header that a setting asks for: without white space around it, and none
/// where nothing is left.
pub open spec fn auth_header_in(setting: Option<Seq<char>>) -> Option<Seq<char>> {
    match setting {
        Some(s) => if trimmed(s).len() > 0 {
            Some(trimmed(s))
        } else {
            None
        },
        None => None,
    }
}

/// The request that starts the process, with a body that was written as JSON.
pub open spec fn start_request(
    url: Seq<char>,
    access_token: Seq<char>,
    envd_auth: Option<Seq<char>>,
    raw_body: Seq<u8>,
) -> HttpRequestView {
    HttpRequestView {
        url,
        headers: start_headers(access_token, envd_auth),
        body: envelope(raw_body),
    }
}

/// Makes the request that starts the process of a body that was written as JSON.
pub fn start_request_of(
    url: &str,
    access_token: &str,
    envd_auth: Option<&str>,
    raw_body: &[u8],
) -> (request: HttpRequest)
    ensures
        request@ == start_request(url@, access_token@, optional_str(envd_auth), raw_body@),
{
    let mut headers: Vec<(&'static str, String)> = Vec::new();
    headers.push(("Content-Type", "application/connect+json".to_string()));
    headers.push(("Connect-Protocol-Version", "1".to_string()));
    headers.push(("Connect-Content-Encoding", "identity".to_string()));
    assert(header_views(headers@) =~= seq![
        ("Content-Type"@, "application/connect+json"@),
        ("Connect-Protocol-Version"@, "1"@),
        ("Connect-Content-Encoding"@, "identity"@),
    ]);
    push_header(&mut headers, "X-Access-Token", as_token(access_token));
    push_header(&mut headers, "Authorization", envd_auth);
    HttpRequest { url: url.to_string(), headers, body: wrap(raw_body) }
}

impl TerminalService {
    /// The `Authorization` header that a setting asks for.
    pub fn terminal_auth_header(setting: Option<&str>) -> (header: Option<String>)
        ensures
            optional_chars(header) == auth_header_in(optional_str(setting)),
    {
        match setting {
            Some(s) => {
                let value = trim(s);
                if value.is_empty() {
                    None
                } else {
                    Some(value.to_string())
                }
            },
            None => None,
        }
    }

    /// Puts a message into an envelope without flags.
    pub fn encode_connect_envelope(data: &[u8]) -> (result: Vec<u8>)
        ensures
            result@ == envelope(data@),
    {
        wrap(data)
    }

    /// The request that starts the process behind a terminal. Its body is one message, and that
    /// message reads as what starts the process.
    pub fn connect_envd_pty(
        url: &str,
        access_token: &str,
        envd_auth: Option<&str>,
        container_id: Option<&str>,
    ) -> (request: HttpRequest)
        ensures
            request@ == start_request(
                url@,
                access_token@,
                optional_str(envd_auth),
                json_bytes(start_tree(optional_str(container_id))),
            ),
            json_parsed(json_bytes(start_tree(optional_str(container_id)))) == Some(
                start_tree(optional_str(container_id)),
            ),
            ({
                let payload = json_bytes(start_tree(optional_str(container_id)));
                payload.len() <= u32::MAX ==> first_frame(request@.body) == Some(
                    FrameView { flags: 0, payload, rest: Seq::empty() },
                )
            }),
    {
        let mut payload = json_object();
        json_set(&mut payload, "process", shell_value(container_id));
        json_set(&mut payload, "pty", size_value(24, 80));
        let ghost tree = start_tree(optional_str(container_id));
        proof {
            lemma_start_tree_is_plain(optional_str(container_id));
        }
        let raw_body = json_body(&payload);
        proof {
            if json_bytes(tree).len() <= u32::MAX {
                law_envelope_round_trip(json_bytes(tree), Seq::empty());
                assert(envelope(json_bytes(tree)) + Seq::<u8>::empty() =~= envelope(
                    json_bytes(tree),
                ));
            }
        }
        start_request_of(url, access_token, envd_auth, raw_body.as_slice())
    }
}

/// Writes a value as JSON.
fn json_body(value: &serde_json::Value) -> (bytes: Vec<u8>)
    ensures
        bytes@ == json_bytes(json_tree(*value)),
        is_plain(json_tree(*value), 16) ==> json_parsed(bytes@) == Some(json_tree(*value)),
{
    match json_to_vec(value) {
        Ok(bytes) => bytes,
        Err(_) => Vec::new(),
    }
}

/// How a status code is written: the number, a space, and the reason phrase or, for a code
/// without one, a note that it is unknown.
pub uninterp spec fn status_text(code: u16) -> Seq<char>;

/// `http::StatusCode` is written as its number, a space and its reason phrase. Which phrase
/// belongs to which number is left to `status_text`.
#[verifier::external_body]
pub(crate) fn status_text_of(code: u16) -> (text: String)
    requires
        100 <= code <= 999,
    ensures
        text@ == status_text(code),
        text@.take(4) == decimal(code as nat).push(' '),
{
    reqwest::StatusCode::from_u16(code).unwrap().to_string()
}

/// What came of a request.
pub enum HttpReply {
    /// It could not be sent, or no answer came.
    Failed(String),
    /// An answer with this status came.
    Status(u16),
}

/// An `HttpReply`, its error as characters.
pub enum HttpReplyView {
    Failed(Seq<char>),
    Status(u16),
}

impl View for HttpReply {
    type V = HttpReplyView;

    open spec fn view(&self) -> HttpReplyView {
        match self {
            HttpReply::Failed(e) => HttpReplyView::Failed(e@),
            HttpReply::Status(code) => HttpReplyView::Status(*code),
        }
    }
}

impl HttpReplyView {
    /// A status is a number of three digits.
    pub open spec fn wf(self) -> bool {
        self matches HttpReplyView::Status(code) ==> 100 <= code <= 999
    }
}

/// What a request was for.
#[derive(Debug, Clone, Copy, PartialEq, Eq, Structural)]
pub enum RequestKind {
    Start,
    SendInput,
    Resize,
    SendSignal,
}

/// How the failure of a request is reported, by what it was for.
pub open spec fn failure_prefix(kind: RequestKind) -> Seq<char> {
    match kind {
        RequestKind::Start => "HTTP request failed: "@,
        RequestKind::SendInput => "SendInput failed: "@,
        RequestKind::Resize => "Resize failed: "@,
        RequestKind::SendSignal => "SendSignal failed: "@,
    }
}

/// How a refused request is reported, by what it was for.
pub open spec fn refusal_prefix(kind: RequestKind) -> Seq<char> {
    match kind {
        RequestKind::Start => "HTTP error: "@,
        RequestKind::SendInput => "SendInput error: "@,
        RequestKind::Resize => "Resize error: "@,
        RequestKind::SendSignal => "SendSignal error: "@,
    }
}

/// What a reply means: success for a status from 200 to 299, an error for everything else.
pub open spec fn reply_outcome(kind: RequestKind, reply: HttpReplyView) -> Result<(), Seq<char>> {
    match reply {
        HttpReplyView::Failed(e) => Err(failure_prefix(kind) + e),
        HttpReplyView::Status(code) => if 200 <= code < 300 {
            Ok(())
        } else {
            Err(refusal_prefix(kind) + status_text(code))
        },
    }
}

/// A result, its error as characters.
pub open spec fn outcome_view(outcome: Result<(), String>) -> Result<(), Seq<char>> {
    match outcome {
        Ok(()) => Ok(()),
        Err(e) => Err(e@),
    }
}

/// What a reply means.
pub fn outcome_of(kind: RequestKind, reply: &HttpReply) -> (outcome: Result<(), String>)
    requires
        reply@.wf(),
    ensures
        outcome_view(outcome) == reply_outcome(kind, reply@),
{
    match reply {
        HttpReply::Failed(e) => {
            let prefix: &str = match kind {
                RequestKind::Start => "HTTP request failed: ",
                RequestKind::SendInput => "SendInput failed: ",
                RequestKind::Resize => "Resize failed: ",
                RequestKind::SendSignal => "SendSignal failed: ",
            };
            Err(prefix.to_string().concat(e.as_str()))
        },
        HttpReply::Status(code) => if 200 <= *code && *code < 300 {
            Ok(())
        } else {
            let prefix: &str = match kind {
                RequestKind::Start => "HTTP error: ",
                RequestKind::SendInput => "SendInput error: ",
                RequestKind::Resize => "Resize error: ",
                RequestKind::SendSignal => "SendSignal error: ",
            };
            Err(prefix.to_string().concat(status_text_of(*code).as_str()))
        },
    }
}

/// A process that was started: where it is reached, and with which credentials.
#[derive(Debug)]
pub struct PtyHandle {
    pub send_input_url: String,
    pub update_url: String,
    pub send_signal_url: String,
    pub access_token: String,
    pub envd_auth: Option<String>,
}

/// A `PtyHandle`, its strings as characters.
pub struct PtyHandleView {
    pub send_input_url: Seq<char>,
    pub update_url: Seq<char>,
    pub send_signal_url: Seq<char>,
    pub access_token: Seq<char>,
    pub envd_auth: Option<Seq<char>>,
}

impl View for PtyHandle {
    type V = PtyHandleView;

    open spec fn view(&self) -> PtyHandleView {
        PtyHandleView {
            send_input_url: self.send_input_url@,
            update_url: self.update_url@,
            send_signal_url: self.send_signal_url@,
            access_token: self.access_token@,
            envd_auth: optional_chars(self.envd_auth),
        }
    }
}

/// The process that was started at a URL: its other methods have URLs of the same form.
pub open spec fn handle_at(
    url: Seq<char>,
    access_token: Seq<char>,
    envd_auth: Option<Seq<char>>,
) -> PtyHandleView {
    PtyHandleView {
        send_input_url: replaced(url, "/process.Process/Start"@, "/process.Process/SendInput"@),
        update_url: replaced(url, "/process.Process/Start"@, "/process.Process/Update"@),
        send_signal_url: replaced(url, "/process.Process/Start"@, "/process.Process/SendSignal"@),
        access_token,
        envd_auth,
    }
}

impl PtyHandleView {
    /// The request to a process with a body that was written as JSON.
    pub open spec fn request(self, url: Seq<char>, body: Seq<u8>) -> HttpRequestView {
        HttpRequestView { url, headers: process_headers(self.access_token, self.envd_auth), body }
    }

    /// The request that types a text into the terminal.
    pub open spec fn input_request(self, pid: u32, text: Seq<char>) -> HttpRequestView {
        self.request(
            self.send_input_url,
            json_bytes(input_tree(pid, base64_text(encode_utf8(text)))),
        )
    }

    /// The request that gives the terminal a new size.
    pub open spec fn resize_request(self, pid: u32, rows: u32, cols: u32) -> HttpRequestView {
        self.request(self.update_url, json_bytes(resize_tree(pid, rows, cols)))
    }

    /// The request that ends the process, where one was started.
    pub open spec fn kill_request(self, seen: u32) -> Option<HttpRequestView> {
        if seen != 0 {
            Some(self.request(self.send_signal_url, json_bytes(kill_tree(seen))))
        } else {
            None
        }
    }
}

/// How the wait for a process goes on.
#[derive(Debug)]
pub enum PidWait {
    /// The process runs under this id.
    Ready(u32),
    /// The process did not start in time.
    Failed(String),
    /// The id is looked for again after this time.
    Sleep { millis: u64 },
}

/// A `PidWait`, its error as characters.
pub enum PidWaitView {
    Ready(u32),
    Failed(Seq<char>),
    Sleep { millis: u64 },
}

impl View for PidWait {
    type V = PidWaitView;

    open spec fn view(&self) -> PidWaitView {
        match self {
            PidWait::Ready(pid) => PidWaitView::Ready(*pid),
            PidWait::Failed(e) => PidWaitView::Failed(e@),
            PidWait::Sleep { millis } => PidWaitView::Sleep { millis: *millis },
        }
    }
}

/// How long a request waits for the process to start, in milliseconds.
pub const PTY_STARTUP_WAIT: u64 = 10_000;

/// How the wait for a process goes on. `seen` is the id that was reported, zero for none yet.
pub open spec fn pid_wait(seen: u32, elapsed_millis: u64, timeout_millis: u64) -> PidWaitView {
    if seen != 0 {
        PidWaitView::Ready(seen)
    } else if elapsed_millis >= timeout_millis {
        PidWaitView::Failed("PTY process did not start in time"@)
    } else {
        PidWaitView::Sleep { millis: 20 }
    }
}

impl PtyHandle {
    /// The process that was started at a URL.
    pub fn new(url: &str, access_token: String, envd_auth: Option<String>) -> (handle: PtyHandle)
        ensures
            handle@ == handle_at(url@, access_token@, optional_chars(envd_auth)),
    {
        proof {
            reveal_strlit("/process.Process/Start");
        }
        let send_input_url = replace(url, "/process.Process/Start", "/process.Process/SendInput");
        let update_url = replace(url, "/process.Process/Start", "/process.Process/Update");
        let send_signal_url = replace(url, "/process.Process/Start", "/process.Process/SendSignal");
        PtyHandle { send_input_url, update_url, send_signal_url, access_token, envd_auth }
    }

    /// The headers of a request to the process.
    pub fn unary_headers(&self) -> (headers: Vec<(&'static str, String)>)
        ensures
            header_views(headers@) == process_headers(self@.access_token, self@.envd_auth),
    {
        let mut headers: Vec<(&'static str, String)> = Vec::new();
        headers.push(("Content-Type", "application/json".to_string()));
        headers.push(("Connect-Protocol-Version", "1".to_string()));
        assert(header_views(headers@) =~= seq![
            ("Content-Type"@, "application/json"@),
            ("Connect-Protocol-Version"@, "1"@),
        ]);
        push_header(&mut headers, "Authorization", as_text(&self.envd_auth));
        push_header(&mut headers, "X-Access-Token", as_token(self.access_token.as_str()));
        headers
    }

    /// The request to the process with a body that was written as JSON.
    pub fn unary_request(&self, url: &str, body: Vec<u8>) -> (request: HttpRequest)
        ensures
            request@ == self@.request(url@, body@),
    {
        HttpRequest { url: url.to_string(), headers: self.unary_headers(), body }
    }

    /// The request that types text into the terminal. Its body reads as the input of the process,
    /// and the base64 in it stands for the text.
    pub fn send_stdin(&self, pid: u32, data: &str) -> (request: HttpRequest)
        requires
            fits_base64(encode_utf8(data@).len()),
        ensures
            request@ == self@.input_request(pid, data@),
            ({
                let pty = base64_text(encode_utf8(data@));
                &&& request@ == self@.request(
                    self@.send_input_url,
                    json_bytes(input_tree(pid, pty)),
                )
                &&& json_parsed(request@.body) == Some(input_tree(pid, pty))
                &&& base64_bytes(pty) == Some(encode_utf8(data@))
            }),
            ({
                &&& json_parsed(request@.body) matches Some(Json::Object(members))
                &&& members.contains_key("input"@)
                &&& members["input"@] matches Json::Object(input)
                &&& input.contains_key("pty"@)
                &&& input["pty"@] matches Json::Text(pty)
                &&& base64_bytes(pty) == Some(encode_utf8(data@))
                &&& members.contains_key("process"@)
                &&& members["process"@] matches Json::Object(process)
                &&& process.contains_key("pid"@)
                &&& process["pid"@] == Json::Unsigned(pid as u64)
            }),
    {
        let text = encode_base64(data.as_bytes());
        let mut input = json_object();
        json_set(&mut input, "pty", json_text(text.as_str()));
        let mut payload = json_object();
        json_set(&mut payload, "process", process_value(pid));
        json_set(&mut payload, "input", input);
        proof {
            lemma_input_tree_is_plain(pid, text@);
        }
        let body = json_body(&payload);
        proof {
            law_typed_text_arrives_whole(pid, data@, body@);
        }
        self.unary_request(self.send_input_url.as_str(), body)
    }

    /// The request that gives the terminal a new size. Its body reads as that size.
    pub fn resize(&self, pid: u32, rows: u32, cols: u32) -> (request: HttpRequest)
        ensures
            request@ == self@.resize_request(pid, rows, cols),
            request@ == self@.request(
                self@.update_url,
                json_bytes(resize_tree(pid, rows, cols)),
            ),
            json_parsed(request@.body) == Some(resize_tree(pid, rows, cols)),
    {
        let mut payload = json_object();
        json_set(&mut payload, "process", process_value(pid));
        json_set(&mut payload, "pty", size_value(rows, cols));
        proof {
            lemma_resize_tree_is_plain(pid, rows, cols);
        }
        self.unary_request(self.update_url.as_str(), json_body(&payload))
    }

    /// How the wait for the process goes on. `seen` is the id that was reported, zero for none
    /// yet.
    pub fn wait_for_pid(seen: u32, elapsed_millis: u64, timeout_millis: u64) -> (wait: PidWait)
        ensures
            wait@ == pid_wait(seen, elapsed_millis, timeout_millis),
    {
        if seen != 0 {
            PidWait::Ready(seen)
        } else if elapsed_millis >= timeout_millis {
            PidWait::Failed("PTY process did not start in time".to_string())
        } else {
            PidWait::Sleep { millis: 20 }
        }
    }

    /// The request that ends the process, where one was started. Its body reads as the signal.
    pub fn kill(&self, seen: u32) -> (request: Option<HttpRequest>)
        ensures
            match request {
                Some(r) => self@.kill_request(seen) == Some(r@),
                None => self@.kill_request(seen) is None,
            },
            match request {
                Some(r) => seen != 0 && r@ == self@.request(
                    self@.send_signal_url,
                    json_bytes(kill_tree(seen)),
                ) && json_parsed(r@.body) == Some(kill_tree(seen)),
                None => seen == 0,
            },
    {
        let pid = match Self::pid(seen) {
            Ok(pid) => pid,
            Err(_) => {
                return None;
            },
        };
        let mut payload = json_object();
        json_set(&mut payload, "process", process_value(pid));
        json_set(&mut payload, "signal", json_text("SIGNAL_SIGKILL"));
        proof {
            lemma_kill_tree_is_plain(pid);
        }
        Some(self.unary_request(self.send_signal_url.as_str(), json_body(&payload)))
    }

    /// The id of the process, where one was reported.
    pub fn pid(seen: u32) -> (pid: Result<u32, String>)
        ensures
            match pid {
                Ok(p) => seen != 0 && p == seen,
                Err(e) => seen == 0 && e@ == "PTY process has not started yet"@,
            },
    {
        if seen == 0 {
            Err("PTY process has not started yet".to_string())
        } else {
            Ok(seen)
        }
    }
}

/// The methods of a process stand beside the one that started it: where a URL ends in the start
/// method, and that does not stand earlier in it, each other method has the same URL up to its
/// own name.
pub proof fn law_methods_stand_beside_start(
    prefix: Seq<char>,
    access_token: Seq<char>,
    envd_auth: Option<Seq<char>>,
)
    requires
        forall|i: int|
            0 <= i < prefix.len() ==> !occurs_at(
                prefix + "/process.Process/Start"@,
                "/process.Process/Start"@,
                i,
            ),
    ensures
        ({
            let handle = handle_at(prefix + "/process.Process/Start"@, access_token, envd_auth);
            &&& handle.send_input_url == prefix + "/process.Process/SendInput"@
            &&& handle.update_url == prefix + "/process.Process/Update"@
            &&& handle.send_signal_url == prefix + "/process.Process/SendSignal"@
        }),
{
    lemma_replaced_at_end(prefix, "/process.Process/SendInput"@);
    lemma_replaced_at_end(prefix, "/process.Process/Update"@);
    lemma_replaced_at_end(prefix, "/process.Process/SendSignal"@);
}

proof fn lemma_replaced_at_end(prefix: Seq<char>, to: Seq<char>)
    requires
        forall|i: int|
            0 <= i < prefix.len() ==> !occurs_at(
                prefix + "/process.Process/Start"@,
                "/process.Process/Start"@,
                i,
            ),
    ensures
        replaced(prefix + "/process.Process/Start"@, "/process.Process/Start"@, to) == prefix + to,
{
    let from = "/process.Process/Start"@;
    let url = prefix + from;
    reveal_strlit("/process.Process/Start");
    assert(url.subrange(prefix.len() as int, url.len() as int) =~= from);
    assert(occurs_at(url, from, prefix.len() as int));
    lemma_found_is(url, from, prefix.len() as int);
    assert(url.take(prefix.len() as int) =~= prefix);
    assert(url.skip(url.len() as int) =~= Seq::empty());
    assert(replaced(Seq::empty(), from, to) =~= Seq::empty());
    assert(prefix + to + Seq::empty() =~= prefix + to);
}

/// A request waits at most as long as it may: once the time is up, the wait is over.
pub proof fn law_wait_for_process_ends(seen: u32, elapsed_millis: u64, timeout_millis: u64)
    requires
        elapsed_millis >= timeout_millis,
    ensures
        !(pid_wait(seen, elapsed_millis, timeout_millis) is Sleep),
{
}

} // verus!
