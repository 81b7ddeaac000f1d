//! Laws of origins and hosts: which page is of which host.

use vstd::prelude::*;

use crate::laws::text::{
    is_blank, is_tight, law_blanks_around_do_not_matter, law_decimal_is_read_back,
    law_no_occurrences, law_occurrences, law_split_at_the_first, law_split_once,
    law_trimmed_takes_off_blanks,
};
use crate::origin::{
    bare_origin, host_in, is_web_scheme, origin_in, origin_is_of_host, port_in, ports_agree,
    same_origin, strict_origin_in, url_read, UrlPartsView,
};
use crate::text::{decimal, holds_text, lowered, number_in, occurrences, occurs_at, split_once_at};

verus! {

/// A name that is written without brackets: something that does not begin or end in white space,
/// has no colon and does not begin with a bracket.
pub open spec fn is_plain_name(name: Seq<char>) -> bool {
    name.len() > 0 && is_tight(name) && name[0] != '[' && forall|i: int|
        0 <= i < name.len() ==> #[trigger] name[i] != ':'
}

/// An address that is written in brackets: it does not close them itself.
pub open spec fn is_address(name: Seq<char>) -> bool {
    forall|i: int| 0 <= i < name.len() ==> #[trigger] name[i] != ']'
}

/// A host name, for writing with or without brackets.
pub open spec fn is_host_name(name: Seq<char>, in_brackets: bool) -> bool {
    if in_brackets {
        is_address(name)
    } else {
        is_plain_name(name)
    }
}

/// No slash stands in a text.
pub open spec fn has_no_slash(s: Seq<char>) -> bool {
    forall|i: int| 0 <= i < s.len() ==> #[trigger] s[i] != '/'
}

/// A host as it is written: the name, in brackets where it is an address with colons, and the port
/// where there is one.
pub open spec fn written_host(name: Seq<char>, in_brackets: bool, port: Option<u16>) -> Seq<char> {
    let host = if in_brackets {
        "["@ + name + "]"@
    } else {
        name
    };
    match port {
        Some(p) => host + ":"@ + decimal(p as nat),
        None => host,
    }
}

/// A written host is taken apart into its name, in lower case, and its port.
pub proof fn law_written_hosts_are_taken_apart(
    name: Seq<char>,
    in_brackets: bool,
    port: Option<u16>,
)
    requires
        is_host_name(name, in_brackets),
    ensures
        host_in(written_host(name, in_brackets, port)) == Some((lowered(name), port)),
{
    reveal_strlit("[");
    reveal_strlit("]");
    reveal_strlit(":");
    let text = written_host(name, in_brackets, port);
    if let Some(p) = port {
        lemma_port_is_read_back(p);
        law_decimal_is_read_back(p as nat);
    }
    assert(is_tight(text)) by {
        if in_brackets {
            assert(text[0] == '[');
        } else {
            assert(text[0] == name[0]);
        }
        match port {
            Some(p) => {
                assert(text.last() == decimal(p as nat).last());
            },
            None => {
                if in_brackets {
                    assert(text.last() == ']');
                } else {
                    assert(text.last() == name.last());
                }
            },
        }
    }
    law_trimmed_takes_off_blanks(Seq::empty(), text, Seq::empty());
    assert(Seq::empty() + text + Seq::empty() =~= text);
    let tail = match port {
        Some(p) => ":"@ + decimal(p as nat),
        None => Seq::empty(),
    };
    if in_brackets {
        assert(text[0] == '[');
        let inner = text.skip(1);
        assert(inner =~= name + "]"@ + tail);
        assert forall|i: int| 0 <= i < name.len() implies !occurs_at(
            name + "]"@ + tail,
            "]"@,
            i,
        ) by {
            if occurs_at(name + "]"@ + tail, "]"@, i) {
                assert((name + "]"@ + tail).subrange(i, i + 1)[0] == name[i]);
            }
        }
        law_split_at_the_first(name, "]"@, tail);
        if let Some(p) = port {
            assert(tail[0] == ':');
            assert(tail.skip(1) =~= decimal(p as nat));
        }
    } else {
        assert(text[0] == name[0]);
        law_no_occurrences(name, ':');
        if let Some(p) = port {
            let digits = decimal(p as nat);
            assert(text =~= name + ":"@ + digits);
            law_no_occurrences(digits, ':');
            law_occurrences(name, ":"@, ':', ':');
            law_occurrences(name + ":"@, digits, ':', ':');
            assert(":"@ =~= seq![':']);
            assert forall|i: int| 0 <= i < name.len() implies !occurs_at(
                name + ":"@ + digits,
                ":"@,
                i,
            ) by {
                if occurs_at(name + ":"@ + digits, ":"@, i) {
                    assert((name + ":"@ + digits).subrange(i, i + 1)[0] == name[i]);
                }
            }
            law_split_at_the_first(name, ":"@, digits);
        }
    }
}

proof fn lemma_port_is_read_back(port: u16)
    ensures
        port_in(decimal(port as nat)) == Some(port),
{
    law_decimal_is_read_back(port as nat);
}

/// A port is a number from 0 to 65535 in decimal; anything else is none.
pub proof fn law_ports_are_numbers(text: Seq<char>, port: u16)
    ensures
        port_in(decimal(port as nat)) == Some(port),
        match port_in(text) {
            Some(p) => number_in(text) == Some(p as nat),
            None => number_in(text) is None || number_in(text)->Some_0 > 65535,
        },
{
    lemma_port_is_read_back(port);
}

/// White space around a host does not matter.
pub proof fn law_blanks_around_a_host(before: Seq<char>, host: Seq<char>, after: Seq<char>)
    requires
        is_blank(before),
        is_blank(after),
    ensures
        host_in(before + host + after) == host_in(host),
        is_blank(host) ==> host_in(host) is None,
{
    law_blanks_around_do_not_matter(before, host, after);
    if is_blank(host) {
        law_trimmed_takes_off_blanks(host, Seq::empty(), Seq::empty());
        assert(host + Seq::empty() + Seq::empty() =~= host);
    }
}

/// A host with more than one colon outside brackets is a name as a whole, without a port; a port
/// that cannot be read is none; an open bracket that is not closed is no host.
pub proof fn law_odd_hosts(name: Seq<char>, rest: Seq<char>)
    requires
        is_plain_name(name),
        is_address(name),
        is_tight(name + ":"@ + rest),
    ensures
        occurrences(rest, ':') > 0 ==> host_in(name + ":"@ + rest) == Some(
            (lowered(name + ":"@ + rest), None::<u16>),
        ),
        occurrences(rest, ':') == 0 && number_in(rest) is None ==> host_in(name + ":"@ + rest)
            == Some((lowered(name), None::<u16>)),
        host_in("["@ + name) is None,
{
    reveal_strlit("[");
    reveal_strlit("]");
    reveal_strlit(":");
    let text = name + ":"@ + rest;
    law_trimmed_takes_off_blanks(Seq::empty(), text, Seq::empty());
    assert(Seq::empty() + text + Seq::empty() =~= text);
    assert(text[0] == name[0]);
    law_no_occurrences(name, ':');
    assert(":"@ =~= seq![':']);
    law_occurrences(name, ":"@, ':', ':');
    law_occurrences(name + ":"@, rest, ':', ':');
    assert forall|i: int| 0 <= i < name.len() implies !occurs_at(text, ":"@, i) by {
        if occurs_at(text, ":"@, i) {
            assert(text.subrange(i, i + 1)[0] == name[i]);
        }
    }
    law_split_at_the_first(name, ":"@, rest);
    let open = "["@ + name;
    assert(open.last() == name.last());
    law_trimmed_takes_off_blanks(Seq::empty(), open, Seq::empty());
    assert(Seq::empty() + open + Seq::empty() =~= open);
    assert(open.skip(1) =~= name);
    law_split_once(name, "]"@);
    if let Some((head, tail)) = split_once_at(name, "]"@) {
        assert(name[head.len() as int] == ']');
    }
}

/// A scheme is one of the four of the web, in any case of its letters.
pub open spec fn is_of_the_web(scheme: Seq<char>) -> bool {
    let low = lowered(scheme);
    low == "http"@ || low == "https"@ || low == "ws"@ || low == "wss"@
}

/// An origin with a path, or nothing, after its host.
pub open spec fn written_page(
    scheme: Seq<char>,
    name: Seq<char>,
    in_brackets: bool,
    port: Option<u16>,
    path: Seq<char>,
) -> Seq<char> {
    scheme + "://"@ + written_host(name, in_brackets, port) + path
}

/// A written origin is taken apart into its scheme and name, in lower case, and its port; a scheme
/// that is not of the web makes it none.
pub proof fn law_written_origins_are_taken_apart(
    scheme: Seq<char>,
    name: Seq<char>,
    in_brackets: bool,
    port: Option<u16>,
    path: Seq<char>,
)
    requires
        forall|i: int| 0 <= i < scheme.len() ==> scheme[i] != ':',
        is_host_name(name, in_brackets),
        has_no_slash(name),
        path.len() > 0 ==> path[0] == '/',
    ensures
        is_of_the_web(scheme) ==> origin_in(written_page(scheme, name, in_brackets, port, path))
            == Some((lowered(scheme), lowered(name), port)),
        !is_of_the_web(scheme) ==> origin_in(
            written_page(scheme, name, in_brackets, port, path),
        ) is None,
{
    reveal_strlit("://");
    reveal_strlit("/");
    reveal_strlit("[");
    reveal_strlit("]");
    reveal_strlit(":");
    let host = written_host(name, in_brackets, port);
    let text = written_page(scheme, name, in_brackets, port, path);
    let rest = host + path;
    assert(text =~= scheme + "://"@ + rest);
    assert forall|i: int| 0 <= i < scheme.len() implies !occurs_at(
        scheme + "://"@ + rest,
        "://"@,
        i,
    ) by {
        if occurs_at(scheme + "://"@ + rest, "://"@, i) {
            assert((scheme + "://"@ + rest).subrange(i, i + 3)[0] == scheme[i]);
        }
    }
    law_split_at_the_first(scheme, "://"@, rest);
    if let Some(p) = port {
        law_decimal_is_read_back(p as nat);
    }
    assert forall|i: int| 0 <= i < host.len() implies host[i] != '/' by {
        let bare = if in_brackets {
            "["@ + name + "]"@
        } else {
            name
        };
        if i < bare.len() {
            assert(host[i] == bare[i]);
            if in_brackets && 0 < i < bare.len() - 1 {
                assert(bare[i] == name[i - 1]);
            }
        } else if let Some(p) = port {
            if i > bare.len() {
                assert(host[i] == decimal(p as nat)[i - bare.len() - 1]);
            }
        }
    }
    if path.len() == 0 {
        assert(rest =~= host);
        law_split_once(rest, "/"@);
        if let Some((head, tail)) = split_once_at(rest, "/"@) {
            assert(rest[head.len() as int] == '/');
        }
    } else {
        let after = path.skip(1);
        assert(rest =~= host + "/"@ + after);
        assert forall|i: int| 0 <= i < host.len() implies !occurs_at(
            host + "/"@ + after,
            "/"@,
            i,
        ) by {
            if occurs_at(host + "/"@ + after, "/"@, i) {
                assert((host + "/"@ + after).subrange(i, i + 1)[0] == host[i]);
            }
        }
        law_split_at_the_first(host, "/"@, after);
    }
    law_written_hosts_are_taken_apart(name, in_brackets, port);
}

/// Outside brackets a host goes by its colons: with one, it stands before it, and the port after;
/// with none or with more, the whole is the host, without a port.
pub proof fn law_hosts_go_by_their_colons(text: Seq<char>, name: Seq<char>, port: Seq<char>)
    requires
        text.len() > 0,
        is_tight(text),
        text[0] != '[',
    ensures
        occurrences(text, ':') != 1 ==> host_in(text) == Some((lowered(text), None::<u16>)),
        occurrences(text, ':') == 1 && text == name + ":"@ + port ==> host_in(text) == Some(
            (lowered(name), port_in(port)),
        ),
{
    reveal_strlit(":");
    law_trimmed_takes_off_blanks(Seq::empty(), text, Seq::empty());
    assert(Seq::empty() + text + Seq::empty() =~= text);
    if occurrences(text, ':') == 1 && text == name + ":"@ + port {
        assert(":"@ =~= seq![':']);
        law_occurrences(name, ":"@, ':', ':');
        law_occurrences(name + ":"@, port, ':', ':');
        assert forall|i: int| 0 <= i < name.len() implies !occurs_at(text, ":"@, i) by {
            if occurs_at(text, ":"@, i) {
                assert(text.subrange(i, i + 1)[0] == name[i]);
                let head = name.take(i);
                let tail = name.skip(i + 1);
                law_occurrences(head, seq![':'], ':', ':');
                law_occurrences(head + seq![':'], tail, ':', ':');
                assert(name =~= head + seq![':'] + tail);
            }
        }
        law_split_at_the_first(name, ":"@, port);
    }
}

/// What follows the brackets counts only as a port after a colon: anything else is no port, and
/// does not change the host.
pub proof fn law_what_follows_brackets(address: Seq<char>, rest: Seq<char>)
    requires
        is_address(address),
        is_tight("["@ + address + "]"@ + rest),
        rest.len() > 0 ==> rest[0] != ':' || number_in(rest.skip(1)) is None,
    ensures
        host_in("["@ + address + "]"@ + rest) == Some((lowered(address), None::<u16>)),
{
    reveal_strlit("[");
    reveal_strlit("]");
    let text = "["@ + address + "]"@ + rest;
    law_trimmed_takes_off_blanks(Seq::empty(), text, Seq::empty());
    assert(Seq::empty() + text + Seq::empty() =~= text);
    assert(text[0] == '[');
    assert(text.skip(1) =~= address + "]"@ + rest);
    assert forall|i: int| 0 <= i < address.len() implies !occurs_at(
        address + "]"@ + rest,
        "]"@,
        i,
    ) by {
        if occurs_at(address + "]"@ + rest, "]"@, i) {
            assert((address + "]"@ + rest).subrange(i, i + 1)[0] == address[i]);
        }
    }
    law_split_at_the_first(address, "]"@, rest);
}

/// Whatever is read as an origin begins with a scheme of the web and `://`.
pub proof fn law_origins_begin_with_a_web_scheme(text: Seq<char>)
    ensures
        origin_in(text) matches Some(o) ==> exists|scheme: Seq<char>, rest: Seq<char>|
            text == #[trigger] (scheme + "://"@ + rest) && is_of_the_web(scheme) && o.0 == lowered(
                scheme,
            ),
{
    law_split_once(text, "://"@);
    if let Some((scheme, rest)) = split_once_at(text, "://"@) {
        assert(text == scheme + "://"@ + rest);
    }
}

/// A text without `://` is no origin, and of no host.
pub proof fn law_texts_without_a_scheme_are_no_origin(text: Seq<char>, host: Seq<char>)
    requires
        !holds_text(text, "://"@),
    ensures
        origin_in(text) is None,
        !origin_is_of_host(text, host),
{
    law_split_once(text, "://"@);
    if let Some((head, tail)) = split_once_at(text, "://"@) {
        let at = head.len() as int;
        assert(text.subrange(at, at + "://"@.len()) =~= "://"@);
        assert(occurs_at(text, "://"@, at));
    }
}

/// An origin is of a host exactly where the two names are the same in any case of their letters,
/// the scheme is of the web, and the ports go together: both are written and equal, none is
/// written, the origin alone writes 80 or 443, or the host alone writes the port of the scheme.
pub proof fn law_origins_match_their_host_alone(
    scheme: Seq<char>,
    name: Seq<char>,
    in_brackets: bool,
    port: Option<u16>,
    path: Seq<char>,
    host_name: Seq<char>,
    host_in_brackets: bool,
    host_port: Option<u16>,
)
    requires
        forall|i: int| 0 <= i < scheme.len() ==> scheme[i] != ':',
        is_host_name(name, in_brackets),
        has_no_slash(name),
        path.len() > 0 ==> path[0] == '/',
        is_host_name(host_name, host_in_brackets),
    ensures
        origin_is_of_host(
            written_page(scheme, name, in_brackets, port, path),
            written_host(host_name, host_in_brackets, host_port),
        ) <==> {
            &&& is_of_the_web(scheme)
            &&& lowered(name) == lowered(host_name)
            &&& match (port, host_port) {
                (Some(p), Some(q)) => p == q,
                (None, None) => true,
                (Some(p), None) => p == 80 || p == 443,
                (None, Some(q)) => if lowered(scheme) == "https"@ || lowered(scheme) == "wss"@ {
                    q == 443
                } else {
                    q == 80
                },
            }
        },
{
    reveal_strlit("http");
    reveal_strlit("https");
    reveal_strlit("ws");
    reveal_strlit("wss");
    assert("http"@.len() == 4 && "https"@.len() == 5 && "ws"@.len() == 2 && "wss"@.len() == 3);
    law_written_origins_are_taken_apart(scheme, name, in_brackets, port, path);
    law_written_hosts_are_taken_apart(host_name, host_in_brackets, host_port);
    let page = written_page(scheme, name, in_brackets, port, path);
    let host = written_host(host_name, host_in_brackets, host_port);
    if is_of_the_web(scheme) {
        assert(origin_in(page) == Some((lowered(scheme), lowered(name), port)));
        assert(host_in(host) == Some((lowered(host_name), host_port)));
        assert(origin_is_of_host(page, host) == (lowered(name) == lowered(host_name)
            && ports_agree(lowered(scheme), port, host_port)));
    } else {
        assert(origin_in(page) is None);
    }
}

/// Two different host names never match, whatever the scheme, the ports and the path.
pub proof fn law_different_hosts_never_match(
    scheme: Seq<char>,
    name: Seq<char>,
    port: Option<u16>,
    path: Seq<char>,
    host_name: Seq<char>,
    host_port: Option<u16>,
)
    requires
        forall|i: int| 0 <= i < scheme.len() ==> scheme[i] != ':',
        is_plain_name(name),
        has_no_slash(name),
        is_plain_name(host_name),
        path.len() > 0 ==> path[0] == '/',
        origin_is_of_host(
            written_page(scheme, name, false, port, path),
            written_host(host_name, false, host_port),
        ),
    ensures
        name.len() == host_name.len(),
        forall|i: int|
            0 <= i < name.len() ==> #[trigger] name[i] == host_name[i] || (name[i] as u32
                == host_name[i] as u32 + 32 && 'A' <= host_name[i] && host_name[i] <= 'Z') || (
            host_name[i] as u32 == name[i] as u32 + 32 && 'A' <= name[i] && name[i] <= 'Z'),
{
    law_origins_match_their_host_alone(
        scheme,
        name,
        false,
        port,
        path,
        host_name,
        false,
        host_port,
    );
    assert(lowered(name).len() == lowered(host_name).len());
    assert forall|i: int| 0 <= i < name.len() implies #[trigger] name[i] == host_name[i] || (
    name[i] as u32 == host_name[i] as u32 + 32 && 'A' <= host_name[i] && host_name[i] <= 'Z') || (
    host_name[i] as u32 == name[i] as u32 + 32 && 'A' <= name[i] && name[i] <= 'Z') by {
        assert(lowered(name)[i] == lowered(host_name)[i]);
    }
}

/// Whatever the texts are: an origin that is of a host is taken apart into the same name as that
/// host.
pub proof fn law_matching_is_by_the_same_name(origin: Seq<char>, host: Seq<char>)
    ensures
        origin_is_of_host(origin, host) ==> origin_in(origin) is Some && host_in(host) is Some
            && origin_in(origin)->Some_0.1 == host_in(host)->Some_0.0 && (origin_in(
            origin,
        )->Some_0.2 is Some && host_in(host)->Some_0.1 is Some ==> origin_in(origin)->Some_0.2
            == host_in(host)->Some_0.1),
{
}

/// A URL is an origin exactly where it has a web scheme, a host and a port and nothing else: no
/// user, password, path, query or fragment. The origin is its scheme and host in lower case and its
/// port.
pub proof fn law_urls_that_are_origins(url: UrlPartsView)
    ensures
        bare_origin(url) is Some <==> {
            &&& is_of_the_web(url.scheme)
            &&& url.host is Some
            &&& url.port is Some
            &&& url.username == Seq::<char>::empty()
            &&& url.password is None
            &&& url.path == "/"@
            &&& url.query is None
            &&& url.fragment is None
        },
        bare_origin(url) matches Some((scheme, host, port)) ==> scheme == lowered(url.scheme)
            && Some(port) == url.port && (url.host matches Some(h) && host == lowered(h)),
{
    if url.username.len() == 0 {
        assert(url.username =~= Seq::<char>::empty());
    }
}

/// Two texts name the same origin exactly where both are URLs that are origins, with the same
/// scheme and host in any case of their letters and the same port.
pub proof fn law_same_origin_is_same_place(left: Seq<char>, right: Seq<char>)
    ensures
        same_origin(left, right) <==> {
            &&& url_read(left) matches Some(l)
            &&& url_read(right) matches Some(r)
            &&& is_of_the_web(l.scheme)
            &&& lowered(l.scheme) == lowered(r.scheme)
            &&& l.port is Some
            &&& l.port == r.port
            &&& l.host matches Some(a)
            &&& r.host matches Some(b)
            &&& lowered(a) == lowered(b)
            &&& l.path == "/"@ && r.path == "/"@
            &&& l.query is None && r.query is None
            &&& l.fragment is None && r.fragment is None
            &&& l.password is None && r.password is None
            &&& l.username.len() == 0 && r.username.len() == 0
        },
{
}

/// A text that is no URL names no origin, not even its own.
pub proof fn law_no_url_no_origin(left: Seq<char>, right: Seq<char>)
    requires
        url_read(left) is None,
    ensures
        strict_origin_in(left) is None,
        !same_origin(left, right),
        !same_origin(right, left),
{
}

/// The schemes of the web are these four.
pub proof fn law_web_schemes(scheme: Seq<char>)
    ensures
        is_web_scheme(scheme) <==> scheme == "http"@ || scheme == "https"@ || scheme == "ws"@
            || scheme == "wss"@,
{
}

} // verus!
