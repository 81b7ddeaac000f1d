//! Laws of the requests to the sandbox agent, member by member and header by header, and of what
//! their replies mean.

use vstd::prelude::*;
use vstd::utf8::*;

use crate::codec::{base64_bytes, base64_text};
use crate::json::{json_bytes, json_parsed, Json};
use crate::laws::stream::law_envelope_layout;
use crate::laws::text::{
    is_blank, is_tight, law_trimmed_end_of_takes_off_the_run, law_trimmed_takes_off_blanks,
};
use crate::pty::{
    auth_header_in, handle_at, input_tree, kill_tree, law_methods_stand_beside_start, pid_wait,
    process_headers, reply_outcome, resize_tree, start_headers, start_request, start_tree,
    start_url, status_text, HttpReplyView, PidWaitView, RequestKind, PTY_STARTUP_WAIT,
};
use crate::text::occurs_at;

verus! {

/// A tree is an object with these two members and no other.
pub open spec fn has_two(tree: Json, a: Seq<char>, x: Json, b: Seq<char>, y: Json) -> bool {
    &&& tree matches Json::Object(members)
    &&& forall|key: Seq<char>| #[trigger] members.contains_key(key) <==> key == a || key == b
    &&& members[a] == x
    &&& members[b] == y
}

/// A tree is an object with this member and no other.
pub open spec fn has_one(tree: Json, a: Seq<char>, x: Json) -> bool {
    &&& tree matches Json::Object(members)
    &&& forall|key: Seq<char>| #[trigger] members.contains_key(key) <==> key == a
    &&& members[a] == x
}

/// Input is for the process with its id, and holds the base64 as it is.
pub proof fn law_input_is_for_its_process(pid: u32, pty: Seq<char>)
    ensures
        exists|process: Json, input: Json| #[trigger]
            has_two(input_tree(pid, pty), "process"@, process, "input"@, input) && has_one(
                process,
                "pid"@,
                Json::Unsigned(pid as u64),
            ) && has_one(input, "pty"@, Json::Text(pty)),
{
    reveal_strlit("process");
    reveal_strlit("input");
    assert("process"@.len() == 7 && "input"@.len() == 5);
    let members = input_tree(pid, pty)->Object_0;
    let process = members["process"@];
    let input = members["input"@];
    assert(has_one(process, "pid"@, Json::Unsigned(pid as u64)));
    assert(has_one(input, "pty"@, Json::Text(pty)));
    assert(has_two(input_tree(pid, pty), "process"@, process, "input"@, input));
}

/// A text that is typed arrives: where a body reads as the input of a process with the base64 of
/// the text, and base64 gives back what went in, the member `input.pty` of that body stands for
/// exactly the bytes of the text, and the member `process.pid` is the id.
pub proof fn law_typed_text_arrives_whole(pid: u32, text: Seq<char>, body: Seq<u8>)
    requires
        json_parsed(body) == Some(input_tree(pid, base64_text(encode_utf8(text)))),
        base64_bytes(base64_text(encode_utf8(text))) == Some(encode_utf8(text)),
    ensures
        ({
            &&& json_parsed(body) matches Some(Json::Object(members))
            &&& members.contains_key("input"@)
            &&& members["input"@] matches Json::Object(input)
            &&& input.contains_key("pty"@)
            &&& input["pty"@] matches Json::Text(pty)
            &&& base64_bytes(pty) == Some(encode_utf8(text))
            &&& members.contains_key("process"@)
            &&& members["process"@] matches Json::Object(process)
            &&& process.contains_key("pid"@)
            &&& process["pid"@] == Json::Unsigned(pid as u64)
        }),
{
    reveal_strlit("process");
    reveal_strlit("input");
    assert("process"@.len() == 7 && "input"@.len() == 5);
}

/// A new size is for the process with its id, and is that many rows and columns.
pub proof fn law_size_is_for_its_process(pid: u32, rows: u32, cols: u32)
    ensures
        exists|process: Json, pty: Json, size: Json| #[trigger]
            has_two(resize_tree(pid, rows, cols), "process"@, process, "pty"@, pty) && has_one(
                process,
                "pid"@,
                Json::Unsigned(pid as u64),
            ) && #[trigger] has_one(pty, "size"@, size) && has_two(
                size,
                "rows"@,
                Json::Unsigned(rows as u64),
                "cols"@,
                Json::Unsigned(cols as u64),
            ),
{
    reveal_strlit("process");
    reveal_strlit("pty");
    reveal_strlit("rows");
    reveal_strlit("cols");
    assert("process"@.len() == 7 && "pty"@.len() == 3);
    assert("rows"@[0] == 'r' && "cols"@[0] == 'c');
    let members = resize_tree(pid, rows, cols)->Object_0;
    let process = members["process"@];
    let pty = members["pty"@];
    let size = pty->Object_0["size"@];
    assert(has_one(process, "pid"@, Json::Unsigned(pid as u64)));
    assert(has_two(
        size,
        "rows"@,
        Json::Unsigned(rows as u64),
        "cols"@,
        Json::Unsigned(cols as u64),
    ));
    assert(has_one(pty, "size"@, size));
    assert(has_two(resize_tree(pid, rows, cols), "process"@, process, "pty"@, pty));
}

/// The end is for the process with its id, by the signal that cannot be ignored.
pub proof fn law_kill_is_for_its_process(pid: u32)
    ensures
        exists|process: Json| #[trigger]
            has_two(
                kill_tree(pid),
                "process"@,
                process,
                "signal"@,
                Json::Text("SIGNAL_SIGKILL"@),
            ) && has_one(process, "pid"@, Json::Unsigned(pid as u64)),
{
    reveal_strlit("process");
    reveal_strlit("signal");
    assert("process"@.len() == 7 && "signal"@.len() == 6);
    let process = kill_tree(pid)->Object_0["process"@];
    assert(has_one(process, "pid"@, Json::Unsigned(pid as u64)));
    assert(has_two(kill_tree(pid), "process"@, process, "signal"@, Json::Text("SIGNAL_SIGKILL"@)));
}

/// What is started is an interactive login shell with a terminal environment, in the container that
/// is named, if one is, and in a terminal of 24 rows and 80 columns.
pub proof fn law_a_login_shell_is_started(container_id: Option<Seq<char>>)
    ensures
        ({
            &&& start_tree(container_id) matches Json::Object(members)
            &&& forall|key: Seq<char>| #[trigger]
                members.contains_key(key) <==> key == "process"@ || key == "pty"@
            &&& members["process"@] matches Json::Object(process)
            &&& forall|key: Seq<char>| #[trigger]
                process.contains_key(key) <==> key == "cmd"@ || key == "args"@ || key == "envs"@
                    || (container_id is Some && key == "container_id"@)
            &&& process["cmd"@] == Json::Text("/bin/bash"@)
            &&& process["args"@] == Json::List(seq![Json::Text("-i"@), Json::Text("-l"@)])
            &&& container_id matches Some(id) ==> process["container_id"@] == Json::Text(id)
            &&& process["envs"@] matches Json::Object(envs)
            &&& forall|key: Seq<char>| #[trigger]
                envs.contains_key(key) <==> key == "TERM"@ || key == "LANG"@ || key == "LC_ALL"@
            &&& envs["TERM"@] == Json::Text("xterm-256color"@)
            &&& envs["LANG"@] == Json::Text("C.UTF-8"@)
            &&& envs["LC_ALL"@] == Json::Text("C.UTF-8"@)
            &&& members["pty"@] matches Json::Object(pty)
            &&& forall|key: Seq<char>| #[trigger] pty.contains_key(key) <==> key == "size"@
            &&& has_two(
                pty["size"@],
                "rows"@,
                Json::Unsigned(24),
                "cols"@,
                Json::Unsigned(80),
            )
        }),
{
    reveal_strlit("process");
    reveal_strlit("pty");
    reveal_strlit("cmd");
    reveal_strlit("args");
    reveal_strlit("envs");
    reveal_strlit("container_id");
    reveal_strlit("TERM");
    reveal_strlit("LANG");
    reveal_strlit("LC_ALL");
    reveal_strlit("rows");
    reveal_strlit("cols");
    assert("process"@.len() == 7 && "pty"@.len() == 3);
    assert("cmd"@.len() == 3 && "args"@.len() == 4 && "envs"@.len() == 4 && "container_id"@.len()
        == 12);
    assert("args"@[0] == 'a' && "envs"@[0] == 'e');
    assert("TERM"@[0] == 'T' && "LANG"@[0] == 'L' && "LANG"@.len() == 4 && "LC_ALL"@.len() == 6);
    assert("rows"@[0] == 'r' && "cols"@[0] == 'c');
}

/// The request that starts the process carries its own content type, and then the token, unless it
/// is empty, and the authorization, where there is one.
pub proof fn law_start_headers(token: Seq<char>, auth: Seq<char>)
    ensures
        ({
            let first = seq![
                ("Content-Type"@, "application/connect+json"@),
                ("Connect-Protocol-Version"@, "1"@),
                ("Connect-Content-Encoding"@, "identity"@),
            ];
            &&& start_headers(Seq::empty(), None) == first
            &&& start_headers(Seq::empty(), Some(auth)) == first.push(("Authorization"@, auth))
            &&& token.len() > 0 ==> start_headers(token, None) == first.push(
                ("X-Access-Token"@, token),
            )
            &&& token.len() > 0 ==> start_headers(token, Some(auth)) == first.push(
                ("X-Access-Token"@, token),
            ).push(("Authorization"@, auth))
        }),
{
    let first = seq![
        ("Content-Type"@, "application/connect+json"@),
        ("Connect-Protocol-Version"@, "1"@),
        ("Connect-Content-Encoding"@, "identity"@),
    ];
    assert(start_headers(Seq::empty(), None) =~= first);
    assert(start_headers(Seq::empty(), Some(auth)) =~= first.push(("Authorization"@, auth)));
    if token.len() > 0 {
        assert(start_headers(token, None) =~= first.push(("X-Access-Token"@, token)));
        assert(start_headers(token, Some(auth)) =~= first.push(("X-Access-Token"@, token)).push(
            ("Authorization"@, auth),
        ));
    }
}

/// A request to the process carries its content type, and then the authorization, where there is
/// one, and the token, unless it is empty.
pub proof fn law_process_headers(token: Seq<char>, auth: Seq<char>)
    ensures
        ({
            let first = seq![
                ("Content-Type"@, "application/json"@),
                ("Connect-Protocol-Version"@, "1"@),
            ];
            &&& process_headers(Seq::empty(), None) == first
            &&& process_headers(Seq::empty(), Some(auth)) == first.push(("Authorization"@, auth))
            &&& token.len() > 0 ==> process_headers(token, None) == first.push(
                ("X-Access-Token"@, token),
            )
            &&& token.len() > 0 ==> process_headers(token, Some(auth)) == first.push(
                ("Authorization"@, auth),
            ).push(("X-Access-Token"@, token))
        }),
{
    let first = seq![
        ("Content-Type"@, "application/json"@),
        ("Connect-Protocol-Version"@, "1"@),
    ];
    assert(process_headers(Seq::empty(), None) =~= first);
    assert(process_headers(Seq::empty(), Some(auth)) =~= first.push(("Authorization"@, auth)));
    if token.len() > 0 {
        assert(process_headers(token, None) =~= first.push(("X-Access-Token"@, token)));
        assert(process_headers(token, Some(auth)) =~= first.push(("Authorization"@, auth)).push(
            ("X-Access-Token"@, token),
        ));
    }
}

/// Credentials go along: whatever else is sent, a token that is not empty and an authorization are
/// among the headers, of the request that starts the process and of those that follow.
pub proof fn law_credentials_go_along(token: Seq<char>, auth: Option<Seq<char>>)
    ensures
        token.len() > 0 ==> start_headers(token, auth).contains(("X-Access-Token"@, token))
            && process_headers(token, auth).contains(("X-Access-Token"@, token)),
        auth matches Some(a) ==> start_headers(token, auth).contains(("Authorization"@, a))
            && process_headers(token, auth).contains(("Authorization"@, a)),
{
    let start = start_headers(token, auth);
    let later = process_headers(token, auth);
    if token.len() > 0 {
        assert(start[3] == ("X-Access-Token"@, token));
        assert(later.last() == ("X-Access-Token"@, token));
        assert(later[later.len() - 1] == ("X-Access-Token"@, token));
    }
    if let Some(a) = auth {
        assert(start[start.len() - 1] == ("Authorization"@, a));
        assert(later[2] == ("Authorization"@, a));
    }
}

/// The process of a sandbox is started behind the proxy, whose slashes at the end do not count, and
/// behind the local one where none is set.
pub proof fn law_start_url(base: Seq<char>, slashes: nat, sandbox_id: Seq<char>)
    requires
        base.len() > 0 ==> base.last() != '/',
    ensures
        start_url(Some(base + Seq::new(slashes, |i: int| '/')), sandbox_id) == base
            + "/sandbox/"@ + sandbox_id + "/49983/process.Process/Start"@,
        start_url(None, sandbox_id) == "http://127.0.0.1/sandbox/"@ + sandbox_id
            + "/49983/process.Process/Start"@,
{
    law_trimmed_end_of_takes_off_the_run(base, '/', slashes);
    reveal_strlit("http://127.0.0.1");
    reveal_strlit("/sandbox/");
    reveal_strlit("http://127.0.0.1/sandbox/");
    let local = "http://127.0.0.1"@;
    law_trimmed_end_of_takes_off_the_run(local, '/', 0);
    assert(local + Seq::new(0, |i: int| '/') =~= local);
    assert(local + "/sandbox/"@ =~= "http://127.0.0.1/sandbox/"@);
}

/// The setting for the authorization counts without the white space around it; a blank or missing
/// one is none.
pub proof fn law_auth_setting(before: Seq<char>, value: Seq<char>, after: Seq<char>)
    requires
        is_blank(before),
        is_blank(after),
        is_tight(value),
    ensures
        auth_header_in(None) is None,
        auth_header_in(Some(before + value + after)) == if value.len() > 0 {
            Some(value)
        } else {
            None
        },
{
    law_trimmed_takes_off_blanks(before, value, after);
}

/// The request that starts the process goes to its URL, with its headers, and with the body in one
/// envelope.
pub proof fn law_start_request(
    url: Seq<char>,
    token: Seq<char>,
    auth: Option<Seq<char>>,
    body: Seq<u8>,
)
    requires
        body.len() <= u32::MAX,
    ensures
        ({
            let request = start_request(url, token, auth, body);
            &&& request.url == url
            &&& request.headers == start_headers(token, auth)
            &&& request.body.len() == 5 + body.len()
            &&& request.body[0] == 0
            &&& request.body[1] * 16777216 + request.body[2] * 65536 + request.body[3] * 256
                + request.body[4] == body.len()
            &&& request.body.skip(5) == body
        }),
{
    law_envelope_layout(body);
}

/// A process keeps the credentials that it was started with, and each request to it carries them,
/// to the URL and with the body that are given.
pub proof fn law_handles_keep_credentials(
    start: Seq<char>,
    token: Seq<char>,
    auth: Option<Seq<char>>,
    url: Seq<char>,
    body: Seq<u8>,
)
    ensures
        ({
            let handle = handle_at(start, token, auth);
            let request = handle.request(url, body);
            &&& handle.access_token == token
            &&& handle.envd_auth == auth
            &&& request.url == url
            &&& request.body == body
            &&& request.headers == process_headers(token, auth)
            &&& token.len() > 0 ==> request.headers.contains(("X-Access-Token"@, token))
            &&& auth matches Some(a) ==> request.headers.contains(("Authorization"@, a))
        }),
{
    law_credentials_go_along(token, auth);
}

/// Each request of a process started at a URL goes beside that URL, to the method that it is for,
/// with the credentials of the start; the end goes out exactly where a process was started.
pub proof fn law_requests_go_where_they_belong(
    prefix: Seq<char>,
    token: Seq<char>,
    auth: Option<Seq<char>>,
    pid: u32,
    text: Seq<char>,
    rows: u32,
    cols: u32,
)
    requires
        forall|i: int|
            0 <= i < prefix.len() ==> !occurs_at(
                prefix + "/process.Process/Start"@,
                "/process.Process/Start"@,
                i,
            ),
    ensures
        ({
            let handle = handle_at(prefix + "/process.Process/Start"@, token, auth);
            let input = handle.input_request(pid, text);
            let resize = handle.resize_request(pid, rows, cols);
            &&& input.url == prefix + "/process.Process/SendInput"@
            &&& input.headers == process_headers(token, auth)
            &&& input.body == json_bytes(input_tree(pid, base64_text(encode_utf8(text))))
            &&& resize.url == prefix + "/process.Process/Update"@
            &&& resize.headers == process_headers(token, auth)
            &&& resize.body == json_bytes(resize_tree(pid, rows, cols))
            &&& handle.kill_request(pid) is Some <==> pid != 0
            &&& handle.kill_request(pid) matches Some(kill) ==> kill.url == prefix
                + "/process.Process/SendSignal"@ && kill.headers == process_headers(token, auth)
                && kill.body == json_bytes(kill_tree(pid))
        }),
{
    law_methods_stand_beside_start(prefix, token, auth);
}

/// A reply with a status from 200 to 299 is a success, whatever the request was for; any other
/// status, and a failure to get one, is an error that says what the request was for.
pub proof fn law_replies_mean_what_they_say(code: u16, error: Seq<char>)
    ensures
        forall|kind: RequestKind|
            #[trigger] reply_outcome(kind, HttpReplyView::Status(code)) is Ok <==> 200 <= code
                <= 299,
        !(200 <= code <= 299) ==> {
            let reply = HttpReplyView::Status(code);
            &&& reply_outcome(RequestKind::Start, reply) == Err::<(), Seq<char>>(
                "HTTP error: "@ + status_text(code),
            )
            &&& reply_outcome(RequestKind::SendInput, reply) == Err::<(), Seq<char>>(
                "SendInput error: "@ + status_text(code),
            )
            &&& reply_outcome(RequestKind::Resize, reply) == Err::<(), Seq<char>>(
                "Resize error: "@ + status_text(code),
            )
            &&& reply_outcome(RequestKind::SendSignal, reply) == Err::<(), Seq<char>>(
                "SendSignal error: "@ + status_text(code),
            )
        },
        ({
            let reply = HttpReplyView::Failed(error);
            &&& reply_outcome(RequestKind::Start, reply) == Err::<(), Seq<char>>(
                "HTTP request failed: "@ + error,
            )
            &&& reply_outcome(RequestKind::SendInput, reply) == Err::<(), Seq<char>>(
                "SendInput failed: "@ + error,
            )
            &&& reply_outcome(RequestKind::Resize, reply) == Err::<(), Seq<char>>(
                "Resize failed: "@ + error,
            )
            &&& reply_outcome(RequestKind::SendSignal, reply) == Err::<(), Seq<char>>(
                "SendSignal failed: "@ + error,
            )
        }),
        HttpReplyView::Status(code).wf() <==> 100 <= code <= 999,
        HttpReplyView::Failed(error).wf(),
{
}

/// A process that reported its id is ready, however long that took. One that has not is looked for
/// again every fiftieth of a second, until the time is up: ten seconds.
pub proof fn law_waiting_for_a_process(seen: u32, elapsed: u64, timeout: u64)
    ensures
        seen != 0 ==> pid_wait(seen, elapsed, timeout) == PidWaitView::Ready(seen),
        elapsed < timeout ==> pid_wait(0, elapsed, timeout) == (PidWaitView::Sleep { millis: 20 }),
        elapsed >= timeout ==> pid_wait(0, elapsed, timeout) == PidWaitView::Failed(
            "PTY process did not start in time"@,
        ),
        PTY_STARTUP_WAIT == 10 * 1000,
{
}

} // verus!
