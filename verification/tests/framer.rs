use libguix::framer::Framer;

#[test]
fn frames_single_form() {
    let mut f = Framer::new();
    let mut out = Vec::new();
    f.feed("(foo bar)\n", &mut out);
    assert_eq!(out, vec!["(foo bar)".to_string()]);
    assert!(f.at_boundary());
}

#[test]
fn frames_across_chunks() {
    let mut f = Framer::new();
    let mut out = Vec::new();
    f.feed("(foo ", &mut out);
    assert!(out.is_empty());
    f.feed("(bar)) ", &mut out);
    assert_eq!(out, vec!["(foo (bar))".to_string()]);
}

#[test]
fn ignores_parens_in_strings() {
    let mut f = Framer::new();
    let mut out = Vec::new();
    f.feed("(values (value \"a ) b\"))\n", &mut out);
    assert_eq!(out, vec!["(values (value \"a ) b\"))".to_string()]);
}

#[test]
fn ignores_parens_in_char_literals() {
    let mut f = Framer::new();
    let mut out = Vec::new();
    f.feed("(foo #\\( bar)\n", &mut out);
    assert_eq!(out, vec!["(foo #\\( bar)".to_string()]);
}

#[test]
fn named_char_literal() {
    let mut f = Framer::new();
    let mut out = Vec::new();
    f.feed("(foo #\\newline bar)\n", &mut out);
    assert_eq!(out, vec!["(foo #\\newline bar)".to_string()]);
}

#[test]
fn ignores_string_escape_quote() {
    let mut f = Framer::new();
    let mut out = Vec::new();
    f.feed("(v \"x\\\"y\")\n", &mut out);
    assert_eq!(out, vec!["(v \"x\\\"y\")".to_string()]);
}

#[test]
fn pretty_printed_value_across_lines() {
    let mut f = Framer::new();
    let mut out = Vec::new();
    f.feed("(values\n  (value\n    (1 2 3)))\n", &mut out);
    assert_eq!(out.len(), 1);
    assert!(out[0].contains("(1 2 3)"));
}

#[test]
fn fragment_inside_string_with_escaped_quote() {
    let mut f = Framer::new();
    let mut out = Vec::new();
    f.feed("(v \"a\\", &mut out);
    assert!(out.is_empty());
    f.feed("\"b\")\n", &mut out);
    assert_eq!(out, vec!["(v \"a\\\"b\")".to_string()]);
}

#[test]
fn fragment_inside_char_literal_between_hash_and_backslash() {
    let mut f = Framer::new();
    let mut out = Vec::new();
    f.feed("(foo #", &mut out);
    f.feed("\\( bar)\n", &mut out);
    assert_eq!(out, vec!["(foo #\\( bar)".to_string()]);
}

// Feeding the REPL's reply in any two pieces frames the same forms.
#[test]
fn chunking_does_not_change_forms() {
    let s = "(repl-version 0 1 1)\n(values (non-self-quoting 1 \"#<x>\"))\n(values (value (\"a ) b\" #\\( 3)))\n";
    let mut whole = Framer::new();
    let mut expected = Vec::new();
    whole.feed(s, &mut expected);
    assert_eq!(expected.len(), 3);
    let chars: Vec<char> = s.chars().collect();
    for cut in 0..chars.len() {
        let a: String = chars[..cut].iter().collect();
        let b: String = chars[cut..].iter().collect();
        let mut f = Framer::new();
        let mut out = Vec::new();
        f.feed(&a, &mut out);
        f.feed(&b, &mut out);
        assert_eq!(out, expected, "cut at {cut}");
    }
}

#[test]
fn block_comment_hides_parens() {
    let mut f = Framer::new();
    let mut out = Vec::new();
    f.feed("#| ( |# (a)\n", &mut out);
    assert_eq!(out.len(), 1);
    assert!(out[0].ends_with("(a)"));
}

/// A `guix repl -t machine` session: the banner, the reply to a
/// definition, and a search reply spanning several lines.
const REPL_SEARCH: &str = "(repl-version 0 1 1)\n\
(values (non-self-quoting 2052 \"#<unspecified>\"))\n\
(values (value ((\"hello\" \"2.12.3\" \"Example GNU package\"\n\
  \"GNU Hello prints the message \\\"Hello, world!\\\" and then exits.\"\n\
  \"https://www.gnu.org/software/hello/\" \"GPL 3+\" (\"out\")))))\n";

#[test]
fn handles_multi_values_fixture() {
    let mut f = Framer::new();
    let mut out = Vec::new();
    f.feed(REPL_SEARCH, &mut out);
    assert_eq!(out.len(), 3);
    assert!(out[0].starts_with("(repl-version"));
    assert!(out[1].starts_with("(values (non-self-quoting"));
    assert!(out[2].starts_with("(values (value"));
}
