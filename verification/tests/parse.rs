use http_next_links::Error;
use http_next_links::ErrorKind;
use http_next_links::NextLinks;
use http_next_links::Url;

fn links_of(input: &str) -> Vec<Url> {
    NextLinks::from_str(input).unwrap().into()
}

fn urls(texts: &[&str]) -> Vec<Url> {
    texts.iter().copied().map(|t| Url::parse(t).unwrap()).collect()
}

#[test]
fn it_works() {}

#[test]
fn test_simple_cases() {
    let cases_success: &[(&str, &[&str])] = &[
        (
            r#"<https://one.example.com>; rel="preconnect", <https://two.example.com>; rel="preconnect", <https://three.example.com>; rel="preconnect""#,
            &[],
        ),
        (
            r#"<https://one.example.com>; rel="preconnect", <https://two.example.com>; rel="preconnect", <https://three.example.com>; rel="preconnect",    <https://link.example.com>; rel="next preconnect"; rel=preconnect a;    a=b"#,
            &["https://link.example.com"],
        ),
        (
            r#"<https://one.example.com>; rel="preconnect", <https://two.example.com>; rel="preconnect", <https://three.example.com>; rel="preconnect",    <https://link.example.com>; rel="next preconnect"; rel=preconnect a;    a=b, <https://link2.example.com>; rel=next  a wecx; rel="a    ed s"; a=v"#,
            &["https://link.example.com", "https://link2.example.com"],
        ),
        // An unmatched link-value's URI is never handed to the URI parser,
        // so a nonsense target under rel="preconnect" is no failure.
        (
            r#"<;,>; rel="preconnect", <https://two.example.com>; rel="preconnect", <https://three.example.com>; rel="preconnect""#,
            &[],
        ),
    ];

    for (input, expected) in cases_success {
        assert_eq!(links_of(input), urls(expected));
    }

    let cases_failure: &[(&str, ErrorKind)] = &[
        (
            r#"https://one.example.com>; rel="preconnect", <https://two.example.com>; rel="preconnect", <https://three.example.com>; rel="preconnect""#,
            ErrorKind::ExpectedOpenAngle,
        ),
        (
            r#"<https://one.example.com>, rel="preconnect"; <https://two.example.com>; rel="preconnect", <https://three.example.com>; rel="preconnect""#,
            ErrorKind::ExpectedOpenAngle,
        ),
        (
            r#"<https://one.example.com, rel="preconnect"; <https://two.example.com; rel="preconnect", <https://three.example.com; rel="preconnect""#,
            ErrorKind::ExpectedCloseAngle,
        ),
        (r#"<https://one.example.com>; a"#, ErrorKind::MissingEquals),
        (
            r#"<https://one.example.com>; rel="preconnect, <https://two.example.com>; rel=preconnect, <https://three.example.com>"#,
            ErrorKind::UnclosedQuote,
        ),
        (
            r#"<https://one.example.com> bbbb"#,
            ErrorKind::ExpectedSeparatorOrTermination,
        ),
    ];

    for (input, kind) in cases_failure {
        let err = NextLinks::from_str(input).unwrap_err();
        assert_eq!(err, Error::syntax(*kind));
    }
}

#[test]
fn no_next_yields_empty() {
    let input = r#"<https://one.example.com>; rel="preconnect", <https://two.example.com>; rel="preconnect""#;
    assert_eq!(links_of(input), urls(&[]));
}

#[test]
fn second_rel_is_ignored() {
    let input = r#"<https://one.example.com>; rel="preconnect", <https://link.example.com>; rel="next preconnect"; rel=preconnect a; a=b"#;
    assert_eq!(links_of(input), urls(&["https://link.example.com"]));
}

#[test]
fn missing_open_angle_fails() {
    let err = NextLinks::from_str(r#"https://one.example.com>; rel="preconnect""#).unwrap_err();
    assert_eq!(err.kind, ErrorKind::ExpectedOpenAngle);
    assert_eq!(err.cause, None);
}

#[test]
fn missing_close_angle_fails() {
    let err = NextLinks::from_str(r#"<https://one.example.com; rel=next"#).unwrap_err();
    assert_eq!(err.kind, ErrorKind::ExpectedCloseAngle);
}

#[test]
fn param_without_equals_fails() {
    let err = NextLinks::from_str(r#"<https://one.example.com>; a"#).unwrap_err();
    assert_eq!(err.kind, ErrorKind::MissingEquals);
}

#[test]
fn unclosed_quote_fails() {
    let input = r#"<https://one.example.com>; rel="preconnect, <https://two.example.com>; rel=preconnect"#;
    let err = NextLinks::from_str(input).unwrap_err();
    assert_eq!(err.kind, ErrorKind::UnclosedQuote);
}

#[test]
fn garbage_after_uri_fails() {
    let err = NextLinks::from_str(r#"<https://one.example.com> bbbb"#).unwrap_err();
    assert_eq!(err.kind, ErrorKind::ExpectedSeparatorOrTermination);
}

#[test]
fn invalid_uri_chains_the_cause() {
    let err = NextLinks::from_str(r#"<;,>; rel=next"#).unwrap_err();
    let underlying = Url::parse(";,").unwrap_err();
    assert_eq!(err.kind, ErrorKind::InvalidUri);
    assert_eq!(err.cause, Some(underlying));
    assert_eq!(err, Error::url_parse_err(underlying));
}

#[test]
fn empty_header_yields_empty() {
    assert_eq!(links_of(""), urls(&[]));
}

#[test]
fn whitespace_only_header_fails() {
    let err = NextLinks::from_str("  \t ").unwrap_err();
    assert_eq!(err.kind, ErrorKind::ExpectedOpenAngle);
}

#[test]
fn matched_uri_is_really_parsed() {
    // The URL the collaborator returns is normalized, so the output is not
    // the raw header text handed to it.
    let out = links_of(r#"<https://a.example>; rel=next"#);
    assert_eq!(out.len(), 1);
    assert_eq!(out[0].as_str(), "https://a.example/");
}

#[test]
fn quoted_delimiters_are_opaque() {
    // A `,` or `;` inside a quoted value neither ends the link-value nor
    // starts a new parameter.
    let input = r#"<https://a.example/x>; title="a,b;c"; rel=next, <https://b.example>; rel="prev""#;
    assert_eq!(links_of(input), urls(&["https://a.example/x"]));
}

#[test]
fn parameters_may_follow_the_match() {
    let input = r#"<https://a.example>; rel=next; title=page"#;
    assert_eq!(links_of(input), urls(&["https://a.example"]));
}

#[test]
fn failure_after_match_still_fails() {
    // Fail-fast with no partial result: a malformed later link-value
    // discards the already-matched one.
    let input = r#"<https://a.example>; rel=next, <https://b.example> zz"#;
    let err = NextLinks::from_str(input).unwrap_err();
    assert_eq!(err.kind, ErrorKind::ExpectedSeparatorOrTermination);
}

#[test]
fn next_links_iterates_in_header_order() {
    let input = r#"<https://a.example>; rel=next, <https://b.example>; rel="next""#;
    let mut links = NextLinks::from_str(input).unwrap();
    assert_eq!(links.next(), Some(Url::parse("https://a.example").unwrap()));
    assert_eq!(links.next(), Some(Url::parse("https://b.example").unwrap()));
    assert_eq!(links.next(), None);
}
