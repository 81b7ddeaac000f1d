//! Which web page may open a terminal: the checks on the `Origin` and `Host` headers of the
//! WebSocket request.

use vstd::prelude::*;
use vstd::string::*;

use crate::text::{
    all_digits, ascii_lower, count_of, decimal, found, is_digit, is_white_space, lemma_found_from,
    lemma_found_is, lower, lowered, number_up_to, occurrences, occurs_at, optional_chars,
    parse_up_to, same_text, split_once, split_once_at, trim, trimmed, trimmed_end, trimmed_start,
};

verus! {

/// The parts of a URL that an origin is read from.
pub struct UrlParts {
    pub scheme: String,
    pub username: String,
    pub password: Option<String>,
    pub host: Option<String>,
    /// The port that is written, or else the one that the scheme stands for.
    pub port: Option<u16>,
    pub path: String,
    pub query: Option<String>,
    pub fragment: Option<String>,
}

/// `UrlParts`, its strings as characters.
pub struct UrlPartsView {
    pub scheme: Seq<char>,
    pub username: Seq<char>,
    pub password: Option<Seq<char>>,
    pub host: Option<Seq<char>>,
    pub port: Option<u16>,
    pub path: Seq<char>,
    pub query: Option<Seq<char>>,
    pub fragment: Option<Seq<char>>,
}

impl View for UrlParts {
    type V = UrlPartsView;

    open spec fn view(&self) -> UrlPartsView {
        UrlPartsView {
            scheme: self.scheme@,
            username: self.username@,
            password: optional_chars(self.password),
            host: optional_chars(self.host),
            port: self.port,
            path: self.path@,
            query: optional_chars(self.query),
            fragment: optional_chars(self.fragment),
        }
    }
}

/// The parts that `reqwest::Url::parse` finds in a text, or `None` where it finds no URL.
pub uninterp spec fn url_read(text: Seq<char>) -> Option<UrlPartsView>;

/// `reqwest::Url::parse` reads a URL as the WHATWG standard says, and its accessors give the
/// parts. What the parts of a given text are is left to `url_read`. An origin that it has read,
/// written out with its port, it reads as the same origin: an address is written in its one
/// canonical form, and a name has been put in lower case and holds none of the characters that end
/// a host. A label that was written in punycode has been decoded and checked, and would be again
/// with the same outcome. Nothing is said of a label that was put into punycode from other
/// characters, written as they are or with `%`: whether it passes the check depends on the Unicode
/// tables, and one that is too long to be decoded does not.
#[verifier::external_body]
pub(crate) fn parse_url(text: &str) -> (url: Option<UrlParts>)
    ensures
        match url {
            Some(u) => url_read(text@) == Some(u@),
            None => url_read(text@) is None,
        },
        forall|earlier: Seq<char>|
            #![trigger writes_origin_of(text@, earlier)]
            #![trigger strict_origin_in(earlier)]
            writes_origin_of(text@, earlier) ==> url is Some && bare_origin(url->Some_0@)
                == strict_origin_in(earlier),
{
    let url = reqwest::Url::parse(text).ok()?;
    Some(UrlParts {
        scheme: url.scheme().to_string(),
        username: url.username().to_string(),
        password: url.password().map(str::to_string),
        host: url.host_str().map(str::to_string),
        port: url.port_or_known_default(),
        path: url.path().to_string(),
        query: url.query().map(str::to_string),
        fragment: url.fragment().map(str::to_string),
    })
}

/// The schemes that a web page can have here.
pub open spec fn is_web_scheme(scheme: Seq<char>) -> bool {
    scheme == "http"@ || scheme == "https"@ || scheme == "ws"@ || scheme == "wss"@
}

fn web_scheme(scheme: &str) -> (yes: bool)
    ensures
        yes == is_web_scheme(scheme@),
{
    same_text(scheme, "http") || same_text(scheme, "https") || same_text(scheme, "ws")
        || same_text(scheme, "wss")
}

/// The origin of a URL that is nothing but an origin: no user, password, query, fragment or
/// path, a web scheme, a host and a port.
pub open spec fn bare_origin(url: UrlPartsView) -> Option<(Seq<char>, Seq<char>, u16)> {
    if url.username.len() == 0 && url.password is None && url.query is None && url.fragment is None
        && url.path == "/"@ && is_web_scheme(lowered(url.scheme)) && url.host is Some
        && url.port is Some {
        Some((lowered(url.scheme), lowered(url.host->Some_0), url.port->Some_0))
    } else {
        None
    }
}

/// The scheme, host and port of a text that is a URL and nothing but an origin.
pub open spec fn strict_origin_in(text: Seq<char>) -> Option<(Seq<char>, Seq<char>, u16)> {
    match url_read(text) {
        Some(url) => bare_origin(url),
        None => None,
    }
}

/// A label of a host name stands for other characters, in punycode.
pub open spec fn has_punycode_label(host: Seq<char>) -> bool {
    exists|i: int| #[trigger] occurs_at(host, "xn--"@, i) && (i == 0 || host[i - 1] == '.')
}

/// An origin written out: its scheme, its host and its port.
pub open spec fn written_origin(origin: (Seq<char>, Seq<char>, u16)) -> Seq<char> {
    origin.0 + "://"@ + origin.1 + ":"@ + decimal(origin.2 as nat)
}

/// A text is written in ASCII, without escapes of other characters.
pub open spec fn is_unescaped_ascii(text: Seq<char>) -> bool {
    forall|i: int| 0 <= i < text.len() ==> (#[trigger] text[i] as u32) < 128 && text[i] != '%'
}

/// A text is what another one's origin is written as. No label of the host was put into punycode
/// in the reading of that other text.
pub open spec fn writes_origin_of(text: Seq<char>, earlier: Seq<char>) -> bool {
    match strict_origin_in(earlier) {
        Some(origin) => text == written_origin(origin) && (is_unescaped_ascii(earlier)
            || !has_punycode_label(origin.1)),
        None => false,
    }
}

/// An origin as characters and a port.
pub open spec fn origin_view(origin: Option<(String, String, u16)>) -> Option<
    (Seq<char>, Seq<char>, u16),
> {
    match origin {
        Some(o) => Some((o.0@, o.1@, o.2)),
        None => None,
    }
}

/// The origin of a URL that is nothing but an origin.
pub fn strict_origin_of(url: &UrlParts) -> (origin: Option<(String, String, u16)>)
    ensures
        origin_view(origin) == bare_origin(url@),
{
    if !url.username.as_str().is_empty() || url.password.is_some() || url.query.is_some()
        || url.fragment.is_some() || !same_text(url.path.as_str(), "/") {
        return None;
    }
    let scheme = lower(url.scheme.as_str());
    if !web_scheme(scheme.as_str()) {
        return None;
    }
    match (&url.host, url.port) {
        (Some(host), Some(port)) => Some((scheme, lower(host.as_str()), port)),
        _ => None,
    }
}

/// The scheme, host and port of a text that is a URL and nothing but an origin. They are a
/// canonical form: written out, they are read back as they are, where the host was not put into
/// punycode.
pub fn strict_origin(origin: &str) -> (parts: Option<(String, String, u16)>)
    ensures
        origin_view(parts) == strict_origin_in(origin@),
        forall|earlier: Seq<char>|
            #![trigger writes_origin_of(origin@, earlier)]
            #![trigger strict_origin_in(earlier)]
            writes_origin_of(origin@, earlier) ==> origin_view(parts) == strict_origin_in(earlier),
{
    match parse_url(origin) {
        Some(url) => strict_origin_of(&url),
        None => None,
    }
}

/// Two texts name the same origin.
pub open spec fn same_origin(left: Seq<char>, right: Seq<char>) -> bool {
    strict_origin_in(left) is Some && strict_origin_in(left) == strict_origin_in(right)
}

/// Whether two texts name the same origin.
pub fn origins_are_equivalent(left: &str, right: &str) -> (same: bool)
    ensures
        same == same_origin(left@, right@),
{
    match (strict_origin(left), strict_origin(right)) {
        (Some(l), Some(r)) => same_text(l.0.as_str(), r.0.as_str()) && same_text(
            l.1.as_str(),
            r.1.as_str(),
        ) && l.2 == r.2,
        _ => false,
    }
}

/// The port that a text writes in decimal.
pub open spec fn port_in(text: Seq<char>) -> Option<u16> {
    match number_up_to(text, 65535) {
        Some(n) => Some(n as u16),
        None => None,
    }
}

fn parse_port(text: &str) -> (port: Option<u16>)
    ensures
        port == port_in(text@),
{
    match parse_up_to(text, 65535) {
        Some(n) => Some(n as u16),
        None => None,
    }
}

/// The host and port in a text of the form `host`, `host:port`, `[address]` or `[address]:port`.
/// A port that cannot be read counts as missing, and more than one colon outside brackets belongs
/// to the host.
pub open spec fn host_in(value: Seq<char>) -> Option<(Seq<char>, Option<u16>)> {
    let text = trimmed(value);
    if text.len() == 0 {
        None
    } else if text[0] == '[' {
        match split_once_at(text.skip(1), "]"@) {
            Some((address, rest)) => Some(
                (
                    lowered(address),
                    if rest.len() > 0 && rest[0] == ':' {
                        port_in(rest.skip(1))
                    } else {
                        None
                    },
                ),
            ),
            None => None,
        }
    } else if occurrences(text, ':') == 1 {
        match split_once_at(text, ":"@) {
            Some((host, port)) => Some((lowered(host), port_in(port))),
            None => None,
        }
    } else {
        Some((lowered(text), None))
    }
}

/// A host and port as characters.
pub open spec fn host_view(host: Option<(String, Option<u16>)>) -> Option<
    (Seq<char>, Option<u16>),
> {
    match host {
        Some(h) => Some((h.0@, h.1)),
        None => None,
    }
}

/// The host and port in a `Host` header or in the authority of an origin.
pub fn parse_host_like(value: &str) -> (host: Option<(String, Option<u16>)>)
    ensures
        host_view(host) == host_in(value@),
{
    let text = trim(value);
    let total = text.unicode_len();
    if total == 0 {
        return None;
    }
    if text.get_char(0) == '[' {
        let inner = text.substring_char(1, total);
        assert(inner@ =~= text@.skip(1));
        return match split_once(inner, "]") {
            Some((address, rest)) => {
                let length = rest.unicode_len();
                let port = if length > 0 && rest.get_char(0) == ':' {
                    let digits = rest.substring_char(1, length);
                    assert(digits@ =~= rest@.skip(1));
                    parse_port(digits)
                } else {
                    None
                };
                Some((lower(address), port))
            },
            None => None,
        };
    }
    if count_of(text, ':') == 1 {
        return match split_once(text, ":") {
            Some((host, port)) => Some((lower(host), parse_port(port))),
            None => None,
        };
    }
    Some((lower(text), None))
}

/// The scheme, host and port of a text of the form `scheme://host[:port][/...]` with a web scheme.
pub open spec fn origin_in(text: Seq<char>) -> Option<(Seq<char>, Seq<char>, Option<u16>)> {
    match split_once_at(text, "://"@) {
        Some((scheme, rest)) => if is_web_scheme(lowered(scheme)) {
            let authority = match split_once_at(rest, "/"@) {
                Some((host, _)) => host,
                None => rest,
            };
            match host_in(authority) {
                Some((host, port)) => Some((lowered(scheme), host, port)),
                None => None,
            }
        } else {
            None
        },
        None => None,
    }
}

/// A parsed origin as characters.
pub open spec fn parsed_origin_view(origin: Option<(String, String, Option<u16>)>) -> Option<
    (Seq<char>, Seq<char>, Option<u16>),
> {
    match origin {
        Some(o) => Some((o.0@, o.1@, o.2)),
        None => None,
    }
}

/// The scheme, host and port of an `Origin` header.
pub fn parse_origin(origin: &str) -> (parts: Option<(String, String, Option<u16>)>)
    ensures
        parsed_origin_view(parts) == origin_in(origin@),
{
    let (scheme, rest) = match split_once(origin, "://") {
        Some(parts) => parts,
        None => return None,
    };
    let scheme = lower(scheme);
    if !web_scheme(scheme.as_str()) {
        return None;
    }
    let authority = match split_once(rest, "/") {
        Some((host, _)) => host,
        None => rest,
    };
    match parse_host_like(authority) {
        Some((host, port)) => Some((scheme, host, port)),
        None => None,
    }
}

/// The port of an origin goes with the port of a host: both written and equal, or the missing one
/// stands for a default. An origin that writes 80 or 443 goes with a host that writes none; a
/// host that writes a port goes with an origin without one if it is the default of its scheme.
pub open spec fn ports_agree(
    scheme: Seq<char>,
    origin_port: Option<u16>,
    host_port: Option<u16>,
) -> bool {
    match (origin_port, host_port) {
        (Some(a), Some(b)) => a == b,
        (Some(a), None) => a == 80 || a == 443,
        (None, Some(b)) => ((scheme == "http"@ || scheme == "ws"@) && b == 80) || ((scheme
            == "https"@ || scheme == "wss"@) && b == 443),
        (None, None) => true,
    }
}

/// An `Origin` header names the same host and port as a `Host` header.
pub open spec fn origin_is_of_host(origin: Seq<char>, host: Seq<char>) -> bool {
    match (origin_in(origin), host_in(host)) {
        (Some(o), Some(h)) => o.1 == h.0 && ports_agree(o.0, o.2, h.1),
        _ => false,
    }
}

/// Whether an `Origin` header names the same host and port as a `Host` header.
pub fn origin_matches_host(origin: &str, host: &str) -> (matching: bool)
    ensures
        matching == origin_is_of_host(origin@, host@),
{
    let (origin_scheme, origin_host, origin_port) = match parse_origin(origin) {
        Some(value) => value,
        None => return false,
    };
    let (host_name, host_port) = match parse_host_like(host) {
        Some(value) => value,
        None => return false,
    };
    if !same_text(origin_host.as_str(), host_name.as_str()) {
        return false;
    }
    let scheme = origin_scheme.as_str();
    match (origin_port, host_port) {
        (Some(a), Some(b)) => a == b,
        (Some(port), None) => port == 80 || port == 443,
        (None, Some(port)) => ((same_text(scheme, "http") || same_text(scheme, "ws")) && port
            == 80) || ((same_text(scheme, "https") || same_text(scheme, "wss")) && port == 443),
        (None, None) => true,
    }
}

/// To name the same origin goes both ways, and from one text to the next.
pub proof fn law_same_origin_is_an_equivalence(a: Seq<char>, b: Seq<char>, c: Seq<char>)
    ensures
        same_origin(a, b) == same_origin(b, a),
        same_origin(a, b) && same_origin(b, c) ==> same_origin(a, c),
{
}

/// An origin that is compared with a list or a host has a web scheme.
pub proof fn law_origins_have_a_web_scheme(text: Seq<char>)
    ensures
        origin_in(text) matches Some(o) ==> is_web_scheme(o.0),
        strict_origin_in(text) matches Some(o) ==> is_web_scheme(o.0),
{
}

/// A page that a host serves itself may open a terminal there: its origin, a web scheme and the
/// host as it stands in the `Host` header, is of that host.
pub proof fn law_pages_of_the_host_match(scheme: Seq<char>, host: Seq<char>)
    requires
        is_web_scheme(scheme),
        host_in(host) is Some,
        forall|i: int| 0 <= i < host.len() ==> host[i] != '/',
    ensures
        origin_is_of_host(scheme + "://"@ + host, host),
{
    reveal_strlit("http");
    reveal_strlit("https");
    reveal_strlit("ws");
    reveal_strlit("wss");
    reveal_strlit("://");
    reveal_strlit("/");
    let origin = scheme + "://"@ + host;
    let at = scheme.len() as int;
    assert(origin.subrange(at, at + 3) =~= "://"@);
    assert forall|j: int| 0 <= j < at implies !occurs_at(origin, "://"@, j) by {
        if occurs_at(origin, "://"@, j) {
            assert(origin.subrange(j, j + 3)[0] == ':');
            assert(origin[j] == scheme[j]);
        }
    }
    lemma_found_is(origin, "://"@, at);
    assert(origin.take(at) =~= scheme);
    assert(origin.skip(at + 3) =~= host);
    assert(lowered(scheme) =~= scheme);
    lemma_found_from(host, "/"@, 0);
    assert(found(host, "/"@) is None) by {
        if let Some(i) = found(host, "/"@) {
            assert(host.subrange(i, i + 1)[0] == '/');
        }
    }
}

/// The case of the letters in a host does not matter.
pub proof fn law_case_of_the_host_is_irrelevant(origin: Seq<char>, host: Seq<char>)
    ensures
        host_in(lowered(host)) == host_in(host),
        origin_is_of_host(origin, lowered(host)) == origin_is_of_host(origin, host),
{
    reveal_strlit("]");
    reveal_strlit(":");
    lemma_trimmed_of_lowered(host);
    let text = trimmed(host);
    let low = lowered(text);
    if text.len() > 0 {
        lemma_lowered_twice(text);
        if text[0] == '[' {
            assert(low.skip(1) =~= lowered(text.skip(1)));
            lemma_split_of_lowered(text.skip(1), "]"@);
            if let Some((address, rest)) = split_once_at(text.skip(1), "]"@) {
                lemma_lowered_twice(address);
                if rest.len() > 0 && rest[0] == ':' {
                    assert(lowered(rest).skip(1) =~= lowered(rest.skip(1)));
                    lemma_number_of_lowered(rest.skip(1));
                }
            }
        } else {
            lemma_occurrences_of_lowered(text, ':');
            lemma_split_of_lowered(text, ":"@);
            if let Some((name, port)) = split_once_at(text, ":"@) {
                lemma_lowered_twice(name);
                lemma_number_of_lowered(port);
            }
        }
    }
}

/// The case of the letters in an origin does not matter.
pub proof fn law_case_of_the_origin_is_irrelevant(origin: Seq<char>, host: Seq<char>)
    ensures
        origin_in(lowered(origin)) == origin_in(origin),
        origin_is_of_host(lowered(origin), host) == origin_is_of_host(origin, host),
{
    reveal_strlit("://");
    reveal_strlit("/");
    lemma_split_of_lowered(origin, "://"@);
    if let Some((scheme, rest)) = split_once_at(origin, "://"@) {
        lemma_lowered_twice(scheme);
        lemma_split_of_lowered(rest, "/"@);
        let authority = match split_once_at(rest, "/"@) {
            Some((name, _)) => name,
            None => rest,
        };
        law_case_of_the_host_is_irrelevant(origin, authority);
    }
}

proof fn lemma_lowered_twice(s: Seq<char>)
    ensures
        lowered(lowered(s)) == lowered(s),
{
    assert(lowered(lowered(s)) =~= lowered(s));
}

proof fn lemma_trimmed_start_of_lowered(s: Seq<char>)
    ensures
        trimmed_start(lowered(s)) == lowered(trimmed_start(s)),
    decreases s.len(),
{
    if s.len() > 0 && is_white_space(s[0]) {
        lemma_trimmed_start_of_lowered(s.skip(1));
        assert(lowered(s).skip(1) =~= lowered(s.skip(1)));
    }
}

proof fn lemma_trimmed_end_of_lowered(s: Seq<char>)
    ensures
        trimmed_end(lowered(s)) == lowered(trimmed_end(s)),
    decreases s.len(),
{
    if s.len() > 0 && is_white_space(s.last()) {
        lemma_trimmed_end_of_lowered(s.drop_last());
        assert(lowered(s).drop_last() =~= lowered(s.drop_last()));
    }
}

proof fn lemma_trimmed_of_lowered(s: Seq<char>)
    ensures
        trimmed(lowered(s)) == lowered(trimmed(s)),
{
    lemma_trimmed_start_of_lowered(s);
    lemma_trimmed_end_of_lowered(trimmed_start(s));
}

proof fn lemma_occurrences_of_lowered(s: Seq<char>, c: char)
    requires
        c == ':',
    ensures
        occurrences(lowered(s), c) == occurrences(s, c),
    decreases s.len(),
{
    if s.len() > 0 {
        lemma_occurrences_of_lowered(s.drop_last(), c);
        assert(lowered(s).drop_last() =~= lowered(s.drop_last()));
    }
}

/// A text is split at a pattern without letters in the same place in any case.
proof fn lemma_split_of_lowered(s: Seq<char>, pattern: Seq<char>)
    requires
        forall|k: int, c: char|
            0 <= k < pattern.len() ==> (#[trigger] ascii_lower(c) == #[trigger] pattern[k] <==> c
                == pattern[k]),
    ensures
        split_once_at(lowered(s), pattern) == match split_once_at(s, pattern) {
            Some((head, tail)) => Some((lowered(head), lowered(tail))),
            None => None,
        },
{
    let low = lowered(s);
    let n = pattern.len() as int;
    assert forall|i: int| occurs_at(low, pattern, i) == occurs_at(s, pattern, i) by {
        if 0 <= i && i + n <= s.len() {
            let there = low.subrange(i, i + n);
            let here = s.subrange(i, i + n);
            if there == pattern {
                assert forall|k: int| 0 <= k < n implies here[k] == pattern[k] by {
                    assert(there[k] == ascii_lower(here[k]));
                }
                assert(here =~= pattern);
            }
            if here == pattern {
                assert forall|k: int| 0 <= k < n implies there[k] == pattern[k] by {
                    assert(there[k] == ascii_lower(here[k]));
                }
                assert(there =~= pattern);
            }
        }
    }
    lemma_found_from(s, pattern, 0);
    lemma_found_from(low, pattern, 0);
    match found(s, pattern) {
        Some(i) => {
            assert(occurs_at(low, pattern, i));
            lemma_found_is(low, pattern, i);
            assert(low.take(i) =~= lowered(s.take(i)));
            assert(low.skip(i + n) =~= lowered(s.skip(i + n)));
        },
        None => {
            if let Some(i) = found(low, pattern) {
                assert(occurs_at(s, pattern, i));
            }
        },
    }
}

proof fn lemma_number_of_lowered(s: Seq<char>)
    ensures
        port_in(lowered(s)) == port_in(s),
{
    let low = lowered(s);
    let digits = if s.len() > 0 && s[0] == '+' {
        s.skip(1)
    } else {
        s
    };
    let low_digits = if low.len() > 0 && low[0] == '+' {
        low.skip(1)
    } else {
        low
    };
    assert(low_digits =~= lowered(digits));
    if all_digits(digits) {
        assert(low_digits =~= digits);
    } else {
        let i = choose|i: int| 0 <= i < digits.len() && !is_digit(#[trigger] digits[i]);
        assert(!is_digit(low_digits[i]));
    }
}

} // verus!
