//! Laws of admission: which request for a terminal is let in, and what the others are told.

use vstd::prelude::*;

use crate::admission::{header_chars, header_value, origin_verdict, terminal_verdict};
use crate::error::AppErrorView;
use crate::laws::origin::law_same_origin_is_same_place;
use crate::laws::text::{is_blank, is_tight, law_trimmed_takes_off_blanks};
use crate::origin::{origin_is_of_host, same_origin, url_read};
use crate::text::lowered;

verus! {

/// A header is read where all its bytes are visible ASCII, space or tab, and then byte by byte.
pub proof fn law_headers_are_ascii(bytes: Seq<u8>)
    ensures
        header_chars(bytes) is Some <==> forall|i: int|
            0 <= i < bytes.len() ==> 32 <= #[trigger] bytes[i] <= 126 || bytes[i] == 9,
        header_chars(bytes) matches Some(text) ==> text.len() == bytes.len() && forall|i: int|
            0 <= i < bytes.len() ==> #[trigger] text[i] as u32 == bytes[i] as u32,
{
}

/// What a header says is its text, without the white space around it; a header that is missing,
/// cannot be read or says nothing is none.
pub proof fn law_headers_say_their_text(
    bytes: Seq<u8>,
    before: Seq<char>,
    value: Seq<char>,
    after: Seq<char>,
)
    ensures
        header_value(None) is None,
        header_chars(bytes) is None ==> header_value(Some(bytes)) is None,
        header_chars(bytes) == Some(before + value + after) && is_blank(before) && is_blank(after)
            && is_tight(value) ==> header_value(Some(bytes)) == if value.len() > 0 {
            Some(value)
        } else {
            None
        },
{
    if is_blank(before) && is_blank(after) && is_tight(value) {
        law_trimmed_takes_off_blanks(before, value, after);
    }
}

/// Without an `Origin` that says anything nobody is let in, whatever else the request holds.
pub proof fn law_no_origin_no_terminal(
    origin: Option<Seq<u8>>,
    host: Option<Seq<u8>>,
    allowed_origins: Seq<String>,
    operator: Option<Seq<char>>,
    auth_enabled: bool,
)
    requires
        header_value(origin) is None,
    ensures
        origin_verdict(origin, host, allowed_origins) == Err::<(), AppErrorView>(
            AppErrorView::Unauthorized("missing WebSocket Origin"@),
        ),
        terminal_verdict(origin, host, allowed_origins, operator, auth_enabled) == Err::<
            Seq<char>,
            AppErrorView,
        >(AppErrorView::Unauthorized("missing WebSocket Origin"@)),
{
}

/// With a list, whoever is let in stands on it: some entry is a URL with the scheme, host and port
/// of the origin. Whoever is not let in is told so by name.
pub proof fn law_allowlist_lets_in_its_entries_alone(
    origin: Option<Seq<u8>>,
    host: Option<Seq<u8>>,
    allowed_origins: Seq<String>,
    value: Seq<char>,
)
    requires
        allowed_origins.len() > 0,
        header_value(origin) == Some(value),
    ensures
        origin_verdict(origin, host, allowed_origins) is Ok ==> exists|i: int|
            0 <= i < allowed_origins.len() && {
                &&& url_read(value) matches Some(l)
                &&& url_read((#[trigger] allowed_origins[i])@) matches Some(r)
                &&& lowered(l.scheme) == lowered(r.scheme)
                &&& l.port == r.port
                &&& l.host matches Some(a)
                &&& r.host matches Some(b)
                &&& lowered(a) == lowered(b)
            },
        (exists|i: int|
            0 <= i < allowed_origins.len() && same_origin(value, (#[trigger] allowed_origins[i])@))
            ==> origin_verdict(origin, host, allowed_origins) is Ok,
        origin_verdict(origin, host, allowed_origins) is Err ==> origin_verdict(
            origin,
            host,
            allowed_origins,
        ) == Err::<(), AppErrorView>(
            AppErrorView::Unauthorized("WebSocket Origin "@ + value + " is not allowed"@),
        ),
{
    if origin_verdict(origin, host, allowed_origins) is Ok {
        let i = choose|i: int|
            0 <= i < allowed_origins.len() && same_origin(value, (#[trigger] allowed_origins[i])@);
        law_same_origin_is_same_place(value, allowed_origins[i]@);
    }
}

/// Without a list, the origin must be of the host: whoever is let in matches it, whoever matches it
/// is let in, and the others are told what was missing or did not match.
pub proof fn law_without_a_list_the_host_decides(
    origin: Option<Seq<u8>>,
    host: Option<Seq<u8>>,
    value: Seq<char>,
)
    requires
        header_value(origin) == Some(value),
    ensures
        header_value(host) is None ==> origin_verdict(origin, host, Seq::empty()) == Err::<
            (),
            AppErrorView,
        >(AppErrorView::Unauthorized("missing Host header"@)),
        header_value(host) matches Some(h) ==> (origin_verdict(origin, host, Seq::empty()) is Ok
            <==> origin_is_of_host(value, h)),
        header_value(host) matches Some(h) ==> !origin_is_of_host(value, h) ==> origin_verdict(
            origin,
            host,
            Seq::empty(),
        ) == Err::<(), AppErrorView>(
            AppErrorView::Unauthorized(
                "WebSocket Origin "@ + value + " does not match Host "@ + h,
            ),
        ),
{
}

/// A terminal opens exactly where the origin passes and authentication is configured. It runs for
/// the operator that the request was authenticated for, and for `unknown` where it names none.
pub proof fn law_terminals_run_for_their_operator(
    origin: Option<Seq<u8>>,
    host: Option<Seq<u8>>,
    allowed_origins: Seq<String>,
    operator: Seq<char>,
    auth_enabled: bool,
)
    ensures
        ({
            let named = terminal_verdict(
                origin,
                host,
                allowed_origins,
                Some(operator),
                auth_enabled,
            );
            let unnamed = terminal_verdict(origin, host, allowed_origins, None, auth_enabled);
            let passes = origin_verdict(origin, host, allowed_origins);
            &&& passes is Ok && auth_enabled ==> named == Ok::<Seq<char>, AppErrorView>(operator)
                && unnamed == Ok::<Seq<char>, AppErrorView>("unknown"@)
            &&& passes is Ok && !auth_enabled ==> named == unnamed && named == Err::<
                Seq<char>,
                AppErrorView,
            >(AppErrorView::Unauthorized("terminal requires authenticated access"@))
            &&& passes matches Err(e) ==> named == Err::<Seq<char>, AppErrorView>(e) && unnamed
                == Err::<Seq<char>, AppErrorView>(e)
        }),
{
}

} // verus!
