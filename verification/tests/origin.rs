use web_terminal::admission::{
    auth_unavailable, terminal_ws, validate_terminal_origin, UpgradeHeaders,
};
use web_terminal::error::AppError;
use web_terminal::origin::{
    origin_matches_host, origins_are_equivalent, parse_host_like, parse_origin, strict_origin,
    strict_origin_of, UrlParts,
};

fn headers(origin: &str, host: &str) -> UpgradeHeaders {
    UpgradeHeaders {
        origin: Some(origin.as_bytes().to_vec()),
        host: Some(host.as_bytes().to_vec()),
    }
}

fn unauthorized(verdict: Result<(), AppError>) -> String {
    match verdict {
        Err(AppError::Unauthorized(message)) => message,
        other => panic!("expected Unauthorized, got {:?}", other),
    }
}

#[test]
fn accepts_same_origin_without_explicit_port() {
    assert!(origin_matches_host("https://example.com", "example.com"));
}

#[test]
fn accepts_same_origin_with_explicit_port() {
    assert!(origin_matches_host(
        "https://example.com:8443",
        "example.com:8443"
    ));
}

#[test]
fn rejects_cross_origin_host() {
    assert!(!origin_matches_host(
        "https://example.com",
        "malicious.example"
    ));
}

#[test]
fn rejects_non_web_origin_scheme() {
    assert!(!origin_matches_host("ftp://example.com", "example.com"));
}

#[test]
fn configured_origin_allowlist_takes_priority_over_host() {
    let headers = headers("https://console.example.com", "untrusted-proxy-host.example");
    assert!(
        validate_terminal_origin(&headers, &["https://console.example.com".to_string()]).is_ok()
    );
}

#[test]
fn configured_origin_allowlist_rejects_unlisted_origin_even_when_host_matches() {
    let headers = headers("https://other.example.com", "other.example.com");
    assert!(
        validate_terminal_origin(&headers, &["https://console.example.com".to_string()]).is_err()
    );
}

#[test]
fn default_ports_stand_for_missing_ones() {
    assert!(origin_matches_host("http://example.com", "example.com:80"));
    assert!(origin_matches_host("ws://example.com", "example.com:80"));
    assert!(origin_matches_host("https://example.com", "example.com:443"));
    assert!(origin_matches_host("wss://example.com", "example.com:443"));
    assert!(!origin_matches_host("http://example.com", "example.com:443"));
    assert!(!origin_matches_host("https://example.com", "example.com:80"));
    assert!(origin_matches_host("http://example.com:443", "example.com"));
    assert!(origin_matches_host("http://example.com:80", "example.com"));
    assert!(!origin_matches_host("http://example.com:8080", "example.com"));
    assert!(!origin_matches_host("http://example.com:8080", "example.com:8081"));
}

#[test]
fn hosts_match_in_any_case() {
    assert!(origin_matches_host("HTTPS://Example.COM", "eXAMPLE.com"));
    assert_eq!(
        parse_host_like("EXAMPLE.com:81"),
        parse_host_like("example.COM:81")
    );
}

#[test]
fn origins_match_in_any_case() {
    assert_eq!(parse_origin("WSS://Example.COM:81/X"), parse_origin("wss://example.com:81/x"));
    assert!(origin_matches_host("Https://EXAMPLE.com:8443", "example.com:8443"));
}

#[test]
fn strict_origins_are_read_back_as_they_are() {
    for origin in [
        "HTTPS://Example.com",
        "http://a_b.example..:0/",
        "ws://0x7f.1",
        "wss://[2001:DB8:0:0:0:0:0:1]",
        "http://[::ffff:1.2.3.4]:443",
        "https://ex%61mple.com:00080",
        "https://-a-.example",
        "https://XN--Bcher-KVA.Example:1",
        "https://b\u{fc}cher.example",
    ] {
        let (scheme, host, port) = strict_origin(origin).expect("an origin");
        let written = format!("{scheme}://{host}:{port}");
        assert_eq!(strict_origin(&written), Some((scheme, host, port)));
        assert!(origins_are_equivalent(origin, &written));
    }
    assert_eq!(
        strict_origin("ws://0x7f.1"),
        Some(("ws".to_string(), "127.0.0.1".to_string(), 80))
    );
    assert_eq!(
        strict_origin("wss://[2001:DB8:0:0:0:0:0:1]"),
        Some(("wss".to_string(), "[2001:db8::1]".to_string(), 443))
    );
}

#[test]
fn punycode_that_is_too_long_is_not_read_back() {
    let label: String = (0..1000u32)
        .map(|i| char::from_u32(0x20000 + (i * 7 % 1000) * 40).expect("an ideograph"))
        .collect();
    let (scheme, host, port) = strict_origin(&format!("https://{label}")).expect("an origin");
    assert!(host.starts_with("xn--"));
    assert_eq!(strict_origin(&format!("{scheme}://{host}:{port}")), None);
}

#[test]
fn pages_of_the_host_match() {
    for host in ["example.com", "example.com:3000", "[::1]:3000", "[::1]", "127.0.0.1:1"] {
        for scheme in ["http", "https", "ws", "wss"] {
            assert!(origin_matches_host(&format!("{scheme}://{host}"), host));
        }
    }
    assert!(!origin_matches_host("http://a/b", "a/b"));
}

#[test]
fn host_like_texts_are_taken_apart() {
    assert_eq!(parse_host_like(""), None);
    assert_eq!(parse_host_like(" \t"), None);
    assert_eq!(
        parse_host_like(" Example.com:8443 "),
        Some(("example.com".to_string(), Some(8443)))
    );
    assert_eq!(
        parse_host_like("example.com:99999"),
        Some(("example.com".to_string(), None))
    );
    assert_eq!(
        parse_host_like("example.com:+81"),
        Some(("example.com".to_string(), Some(81)))
    );
    assert_eq!(
        parse_host_like("example.com:"),
        Some(("example.com".to_string(), None))
    );
    assert_eq!(
        parse_host_like("[FE80::1]:8443"),
        Some(("fe80::1".to_string(), Some(8443)))
    );
    assert_eq!(
        parse_host_like("[::1]8443"),
        Some(("::1".to_string(), None))
    );
    assert_eq!(parse_host_like("[::1"), None);
    assert_eq!(parse_host_like("::1"), Some(("::1".to_string(), None)));
}

#[test]
fn origins_are_taken_apart() {
    assert_eq!(
        parse_origin("HTTPS://Example.com:8443/path"),
        Some(("https".to_string(), "example.com".to_string(), Some(8443)))
    );
    assert_eq!(
        parse_origin("ws://example.com"),
        Some(("ws".to_string(), "example.com".to_string(), None))
    );
    assert_eq!(parse_origin("example.com"), None);
    assert_eq!(parse_origin("null"), None);
    assert_eq!(parse_origin("http:///x"), None);
}

#[test]
fn strict_origins_are_read_as_urls() {
    assert_eq!(
        strict_origin("HTTPS://Example.com"),
        Some(("https".to_string(), "example.com".to_string(), 443))
    );
    assert_eq!(
        strict_origin("ws://example.com:81/"),
        Some(("ws".to_string(), "example.com".to_string(), 81))
    );
    assert_eq!(strict_origin("https://user@example.com"), None);
    assert_eq!(strict_origin("https://:pw@example.com"), None);
    assert_eq!(strict_origin("https://example.com/path"), None);
    assert_eq!(strict_origin("https://example.com/?q"), None);
    assert_eq!(strict_origin("https://example.com/#f"), None);
    assert_eq!(strict_origin("ftp://example.com"), None);
    assert_eq!(strict_origin("example.com"), None);
}

#[test]
fn strict_origins_come_from_the_parts_of_a_url() {
    let url = UrlParts {
        scheme: "WSS".to_string(),
        username: String::new(),
        password: None,
        host: Some("Example.com".to_string()),
        port: Some(8443),
        path: "/".to_string(),
        query: None,
        fragment: None,
    };
    assert_eq!(
        strict_origin_of(&url),
        Some(("wss".to_string(), "example.com".to_string(), 8443))
    );
    let without_host = UrlParts { host: None, ..url };
    assert_eq!(strict_origin_of(&without_host), None);
}

#[test]
fn equivalent_origins_name_the_same_place() {
    assert!(origins_are_equivalent("https://a.example", "https://A.example:443/"));
    assert!(origins_are_equivalent("https://A.example:443/", "https://a.example"));
    assert!(!origins_are_equivalent("https://a.example", "http://a.example"));
    assert!(!origins_are_equivalent("https://a.example", "https://a.example:8443"));
    assert!(!origins_are_equivalent("https://a.example", "https://b.example"));
    assert!(!origins_are_equivalent("nonsense", "nonsense"));
}

#[test]
fn missing_headers_are_refused() {
    let none = UpgradeHeaders { origin: None, host: None };
    assert_eq!(
        unauthorized(validate_terminal_origin(&none, &[])),
        "missing WebSocket Origin"
    );
    assert_eq!(
        unauthorized(validate_terminal_origin(&headers("  ", "example.com"), &[])),
        "missing WebSocket Origin"
    );
    let no_host = UpgradeHeaders {
        origin: Some(b"https://example.com".to_vec()),
        host: None,
    };
    assert_eq!(
        unauthorized(validate_terminal_origin(&no_host, &[])),
        "missing Host header"
    );
    let not_ascii = UpgradeHeaders {
        origin: Some("https://ex\u{e4}mple.com".as_bytes().to_vec()),
        host: Some(b"example.com".to_vec()),
    };
    assert_eq!(
        unauthorized(validate_terminal_origin(&not_ascii, &[])),
        "missing WebSocket Origin"
    );
}

#[test]
fn refused_origins_are_told_why() {
    assert_eq!(
        unauthorized(validate_terminal_origin(
            &headers(" https://example.com ", "other.example"),
            &[]
        )),
        "WebSocket Origin https://example.com does not match Host other.example"
    );
    assert_eq!(
        unauthorized(validate_terminal_origin(
            &headers("https://example.com", "example.com"),
            &["https://a.example".to_string(), "https://b.example".to_string()]
        )),
        "WebSocket Origin https://example.com is not allowed"
    );
    assert!(validate_terminal_origin(&headers("\thttps://example.com", "example.com"), &[]).is_ok());
}

#[test]
fn terminals_need_authentication() {
    let good = headers("https://example.com", "example.com");
    match terminal_ws(&good, &[], Some("operator".to_string()), false) {
        Err(AppError::Unauthorized(message)) => {
            assert_eq!(message, "terminal requires authenticated access");
        }
        other => panic!("unexpected {:?}", other),
    }
    assert_eq!(
        terminal_ws(&good, &[], Some("operator".to_string()), true).unwrap(),
        "operator"
    );
    assert_eq!(terminal_ws(&good, &[], None, true).unwrap(), "unknown");
}

#[test]
fn missing_authentication_shows_where_the_origin_passes() {
    let good = headers("https://example.com", "example.com");
    let bad = headers("https://example.com", "other.example");
    assert!(auth_unavailable(&good, &[], false));
    assert!(!auth_unavailable(&good, &[], true));
    assert!(!auth_unavailable(&bad, &[], false));
    assert!(auth_unavailable(&bad, &["https://example.com".to_string()], false));
}

#[test]
fn origin_is_checked_before_authentication() {
    let bad = headers("https://example.com", "other.example");
    match terminal_ws(&bad, &[], None, false) {
        Err(AppError::Unauthorized(message)) => assert_eq!(
            message,
            "WebSocket Origin https://example.com does not match Host other.example"
        ),
        other => panic!("unexpected {:?}", other),
    }
}
