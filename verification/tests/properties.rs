use http_next_links::next_link_texts;
use http_next_links::ErrorKind;
use http_next_links::NextLinks;
use http_next_links::Url;

fn links_of(input: &str) -> Vec<Url> {
    NextLinks::from_str(input).unwrap().into()
}

#[test]
fn reparsing_yields_the_same_sequence() {
    let input = r#"<https://a.example>; rel=next, <https://b.example>; rel="prev next""#;
    let first: Vec<Url> = links_of(input);
    let second: Vec<Url> = links_of(input);
    assert_eq!(first, second);
}

#[test]
fn first_rel_wins_regardless_of_content() {
    // First rel does not match: the matching second one must be ignored.
    let none = links_of(r#"<https://a.example>; rel="prev"; rel="next""#);
    assert_eq!(none, Vec::<Url>::new());
    // First rel matches: the non-matching second one must not undo it.
    let one = links_of(r#"<https://a.example>; rel="next"; rel="prev""#);
    assert_eq!(one, vec![Url::parse("https://a.example").unwrap()]);
}

#[test]
fn matching_is_ascii_case_insensitive() {
    let upper = links_of(r#"<https://a.example>; REL="NEXT""#);
    assert_eq!(upper, vec![Url::parse("https://a.example").unwrap()]);
    let mixed = links_of(r#"<https://a.example>; Rel=NeXt"#);
    assert_eq!(mixed, vec![Url::parse("https://a.example").unwrap()]);
}

#[test]
fn no_unicode_case_folding() {
    // U+00C9, an accented capital E, must not fold to `e`.
    let accented = links_of("<https://a.example>; rel=\u{00C9}ext");
    assert_eq!(accented, Vec::<Url>::new());
}

#[test]
fn relation_tokens_split_on_space_and_tab() {
    let spaced = links_of(r#"<https://a.example>; rel="prev next last""#);
    assert_eq!(spaced, vec![Url::parse("https://a.example").unwrap()]);
    let tabbed = links_of("<https://a.example>; rel=\"prev\tnext\"");
    assert_eq!(tabbed, vec![Url::parse("https://a.example").unwrap()]);
    // `next` as a mere substring of a token is no match.
    let glued = links_of(r#"<https://a.example>; rel="prevnext""#);
    assert_eq!(glued, Vec::<Url>::new());
}

#[test]
fn result_keeps_header_order() {
    let input = r#"<https://1.example>; rel=next, <https://skip.example>; rel=prev, <https://2.example>; rel="next", <https://3.example>; rel="a next""#;
    let expected = vec![
        Url::parse("https://1.example").unwrap(),
        Url::parse("https://2.example").unwrap(),
        Url::parse("https://3.example").unwrap(),
    ];
    assert_eq!(links_of(input), expected);
}

#[test]
fn texts_are_taken_verbatim() {
    // The grammar walk itself neither trims nor decodes the URI text.
    let texts = next_link_texts(r#"< https://a.example/%7E >; rel=next"#).unwrap();
    assert_eq!(texts, vec![" https://a.example/%7E ".to_string()]);
}

#[test]
fn empty_rel_value_matches_nothing() {
    let texts = next_link_texts(r#"<https://a.example>; rel="""#).unwrap();
    assert_eq!(texts, Vec::<String>::new());
}

#[test]
fn name_may_swallow_stray_segments() {
    // The parameter name is everything up to the first `=`, so a stray
    // `;`-separated word folds into the following parameter's name.
    let texts = next_link_texts(r#"<https://a.example>; a; b=c"#).unwrap();
    assert_eq!(texts, Vec::<String>::new());
}

#[test]
fn whitespace_around_name_and_value_is_trimmed() {
    let texts = next_link_texts("<https://a.example>; rel\t = \tnext").unwrap();
    assert_eq!(texts, vec!["https://a.example".to_string()]);
}

#[test]
fn grammar_failure_reports_no_cause() {
    let err = next_link_texts(r#"<https://a.example>; rel="x"#).unwrap_err();
    assert_eq!(err.kind, ErrorKind::UnclosedQuote);
    assert_eq!(err.cause, None);
}
