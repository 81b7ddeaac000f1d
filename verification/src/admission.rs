//! Who may open a terminal: the decision on a WebSocket request before it is upgraded.

use vstd::prelude::*;
use vstd::string::*;

use crate::error::{AppError, AppErrorView};
use crate::origin::{
    origin_is_of_host, origin_matches_host, origins_are_equivalent, same_origin,
};
use crate::text::{optional_chars, trim, trimmed};

verus! {

/// The headers of a WebSocket request that the decision reads, as the bytes that were sent: of
/// each header the first value, if there is one.
pub struct UpgradeHeaders {
    pub origin: Option<Vec<u8>>,
    pub host: Option<Vec<u8>>,
}

/// The bytes of a header that may be missing.
pub open spec fn optional_bytes(bytes: Option<Vec<u8>>) -> Option<Seq<u8>> {
    match bytes {
        Some(b) => Some(b@),
        None => None,
    }
}

/// The bytes that a header value can hold and still be read as text: visible ASCII, space and tab.
pub open spec fn is_header_char(b: u8) -> bool {
    (32 <= b && b < 127) || b == 9
}

/// The text of a header value, where all of its bytes are ASCII text.
pub open spec fn header_chars(bytes: Seq<u8>) -> Option<Seq<char>> {
    if forall|i: int| 0 <= i < bytes.len() ==> is_header_char(#[trigger] bytes[i]) {
        Some(Seq::new(bytes.len(), |i: int| bytes[i] as char))
    } else {
        None
    }
}

/// What a header says: its text without white space around it, where it is there, can be read and
/// says anything.
pub open spec fn header_value(bytes: Option<Seq<u8>>) -> Option<Seq<char>> {
    match bytes {
        Some(b) => match header_chars(b) {
            Some(text) => if trimmed(text).len() > 0 {
                Some(trimmed(text))
            } else {
                None
            },
            None => None,
        },
        None => None,
    }
}

/// The text of a header value, where all of its bytes are ASCII text.
pub fn header_text(bytes: &[u8]) -> (text: Option<String>)
    ensures
        match text {
            Some(t) => header_chars(bytes@) == Some(t@),
            None => header_chars(bytes@) is None,
        },
{
    let mut text = String::new();
    for i in 0..bytes.len()
        invariant
            forall|j: int| 0 <= j < i ==> is_header_char(#[trigger] bytes@[j]),
            text@ == Seq::new(i as nat, |j: int| bytes@[j] as char),
    {
        let b = bytes[i];
        if !((32 <= b && b < 127) || b == 9) {
            assert(!is_header_char(bytes@[i as int]));
            return None;
        }
        text.push(b as char);
        assert(text@ =~= Seq::new((i + 1) as nat, |j: int| bytes@[j] as char));
    }
    Some(text)
}

/// What a header says.
fn read_header(bytes: &Option<Vec<u8>>) -> (value: Option<String>)
    ensures
        match value {
            Some(v) => header_value(optional_bytes(*bytes)) == Some(v@),
            None => header_value(optional_bytes(*bytes)) is None,
        },
{
    match bytes {
        Some(b) => match header_text(b.as_slice()) {
            Some(text) => {
                let value = trim(text.as_str());
                if value.is_empty() {
                    None
                } else {
                    Some(value.to_string())
                }
            },
            None => None,
        },
        None => None,
    }
}

/// Some entry of the list names the origin.
pub open spec fn listed(origin: Seq<char>, allowed_origins: Seq<String>) -> bool {
    exists|i: int|
        0 <= i < allowed_origins.len() && same_origin(origin, (#[trigger] allowed_origins[i])@)
}

/// The verdict on the `Origin` header. A list of allowed origins decides alone; without one the
/// origin must be that of the `Host` header.
pub open spec fn origin_verdict(
    origin: Option<Seq<u8>>,
    host: Option<Seq<u8>>,
    allowed_origins: Seq<String>,
) -> Result<(), AppErrorView> {
    match header_value(origin) {
        None => Err(AppErrorView::Unauthorized("missing WebSocket Origin"@)),
        Some(o) => if allowed_origins.len() > 0 {
            if listed(o, allowed_origins) {
                Ok(())
            } else {
                Err(
                    AppErrorView::Unauthorized(
                        "WebSocket Origin "@ + o + " is not allowed"@,
                    ),
                )
            }
        } else {
            match header_value(host) {
                None => Err(AppErrorView::Unauthorized("missing Host header"@)),
                Some(h) => if origin_is_of_host(o, h) {
                    Ok(())
                } else {
                    Err(
                        AppErrorView::Unauthorized(
                            "WebSocket Origin "@ + o + " does not match Host "@ + h,
                        ),
                    )
                },
            }
        },
    }
}

/// A result, its error as characters.
pub open spec fn verdict_view(verdict: Result<(), AppError>) -> Result<(), AppErrorView> {
    match verdict {
        Ok(()) => Ok(()),
        Err(e) => Err(e@),
    }
}

/// Checks the `Origin` header of a WebSocket request.
pub fn validate_terminal_origin(headers: &UpgradeHeaders, allowed_origins: &[String]) -> (verdict:
    Result<(), AppError>)
    ensures
        verdict_view(verdict) == origin_verdict(
            optional_bytes(headers.origin),
            optional_bytes(headers.host),
            allowed_origins@,
        ),
{
    let origin = match read_header(&headers.origin) {
        Some(value) => value,
        None => return Err(AppError::Unauthorized("missing WebSocket Origin".to_string())),
    };
    if allowed_origins.len() > 0 {
        for i in 0..allowed_origins.len()
            invariant
                forall|j: int|
                    0 <= j < i ==> !same_origin(origin@, (#[trigger] allowed_origins@[j])@),
                header_value(optional_bytes(headers.origin)) == Some(origin@),
                allowed_origins@.len() > 0,
        {
            if origins_are_equivalent(origin.as_str(), allowed_origins[i].as_str()) {
                assert(same_origin(origin@, allowed_origins@[i as int]@));
                return Ok(());
            }
        }
        let message = "WebSocket Origin ".to_string().concat(origin.as_str()).concat(
            " is not allowed",
        );
        return Err(AppError::Unauthorized(message));
    }
    let host = match read_header(&headers.host) {
        Some(value) => value,
        None => return Err(AppError::Unauthorized("missing Host header".to_string())),
    };
    if origin_matches_host(origin.as_str(), host.as_str()) {
        return Ok(());
    }
    let message = "WebSocket Origin ".to_string().concat(origin.as_str()).concat(
        " does not match Host ",
    ).concat(host.as_str());
    Err(AppError::Unauthorized(message))
}

/// The verdict on a WebSocket request for a terminal: the operator that it runs for, or why it is
/// refused. The origin is checked first; without a mode of authentication no terminal opens.
pub open spec fn terminal_verdict(
    origin: Option<Seq<u8>>,
    host: Option<Seq<u8>>,
    allowed_origins: Seq<String>,
    operator: Option<Seq<char>>,
    auth_enabled: bool,
) -> Result<Seq<char>, AppErrorView> {
    match origin_verdict(origin, host, allowed_origins) {
        Err(e) => Err(e),
        Ok(()) => if !auth_enabled {
            Err(AppErrorView::Unauthorized("terminal requires authenticated access"@))
        } else {
            match operator {
                Some(id) => Ok(id),
                None => Ok("unknown"@),
            }
        },
    }
}

/// Decides on a WebSocket request for a terminal. `operator_id` is the operator that the request
/// was authenticated for, if it names one; `auth_enabled` says whether any mode of authentication
/// is configured.
pub fn terminal_ws(
    headers: &UpgradeHeaders,
    allowed_origins: &[String],
    operator_id: Option<String>,
    auth_enabled: bool,
) -> (verdict: Result<String, AppError>)
    ensures
        match verdict {
            Ok(operator) => terminal_verdict(
                optional_bytes(headers.origin),
                optional_bytes(headers.host),
                allowed_origins@,
                optional_chars(operator_id),
                auth_enabled,
            ) == Ok::<Seq<char>, AppErrorView>(operator@),
            Err(e) => terminal_verdict(
                optional_bytes(headers.origin),
                optional_bytes(headers.host),
                allowed_origins@,
                optional_chars(operator_id),
                auth_enabled,
            ) == Err::<Seq<char>, AppErrorView>(e@),
        },
{
    match validate_terminal_origin(headers, allowed_origins) {
        Ok(()) => {},
        Err(e) => return Err(e),
    }
    if !auth_enabled {
        return Err(AppError::Unauthorized("terminal requires authenticated access".to_string()));
    }
    match operator_id {
        Some(id) => Ok(id),
        None => Ok("unknown".to_string()),
    }
}

/// Whether a request is refused for want of a mode of authentication alone: its origin passes.
pub fn auth_unavailable(
    headers: &UpgradeHeaders,
    allowed_origins: &[String],
    auth_enabled: bool,
) -> (yes: bool)
    ensures
        yes == (!auth_enabled && origin_verdict(
            optional_bytes(headers.origin),
            optional_bytes(headers.host),
            allowed_origins@,
        ) is Ok),
{
    !auth_enabled && validate_terminal_origin(headers, allowed_origins).is_ok()
}

/// Where a list of allowed origins is configured, the `Host` header has no say.
pub proof fn law_allowlist_ignores_host(
    origin: Option<Seq<u8>>,
    host: Option<Seq<u8>>,
    other_host: Option<Seq<u8>>,
    allowed_origins: Seq<String>,
)
    requires
        allowed_origins.len() > 0,
    ensures
        origin_verdict(origin, host, allowed_origins) == origin_verdict(
            origin,
            other_host,
            allowed_origins,
        ),
{
}

/// Where a list of allowed origins is configured, an origin passes if and only if the list names
/// it.
pub proof fn law_allowlist_decides(
    origin: Option<Seq<u8>>,
    host: Option<Seq<u8>>,
    allowed_origins: Seq<String>,
)
    requires
        allowed_origins.len() > 0,
    ensures
        origin_verdict(origin, host, allowed_origins) is Ok <==> (header_value(origin) is Some
            && listed(header_value(origin)->Some_0, allowed_origins)),
{
}

/// Without a list, an origin passes if and only if it is that of the `Host` header.
pub proof fn law_host_decides_without_allowlist(origin: Option<Seq<u8>>, host: Option<Seq<u8>>)
    ensures
        origin_verdict(origin, host, Seq::empty()) is Ok <==> (header_value(origin) is Some
            && header_value(host) is Some && origin_is_of_host(
            header_value(origin)->Some_0,
            header_value(host)->Some_0,
        )),
{
}

/// Without a mode of authentication no terminal opens, whatever the request says.
pub proof fn law_no_terminal_without_authentication(
    origin: Option<Seq<u8>>,
    host: Option<Seq<u8>>,
    allowed_origins: Seq<String>,
    operator: Option<Seq<char>>,
)
    ensures
        terminal_verdict(origin, host, allowed_origins, operator, false) matches Err(
            AppErrorView::Unauthorized(_),
        ),
{
}

/// Every refusal before the upgrade is `Unauthorized`.
pub proof fn law_refusals_are_unauthorized(
    origin: Option<Seq<u8>>,
    host: Option<Seq<u8>>,
    allowed_origins: Seq<String>,
    operator: Option<Seq<char>>,
    auth_enabled: bool,
)
    ensures
        terminal_verdict(origin, host, allowed_origins, operator, auth_enabled) matches Err(e)
            ==> e is Unauthorized,
{
}

} // verus!
