use libguix::recutils::{parse, parse_outputs, split_ws};

fn get<'a>(r: &'a libguix::recutils::Record, k: &str) -> Option<&'a str> {
    r.get(k).map(|s| s.as_str())
}

#[test]
fn rejects_orphan_continuation() {
    let s = "+ orphan\n";
    assert!(parse(s).is_err());
}

#[test]
fn handles_empty_value() {
    let s = "name: hello\ndependencies: \n";
    let recs = parse(s).unwrap();
    assert_eq!(get(&recs[0], "dependencies"), Some(""));
}

#[test]
fn parses_two_records_back_to_back() {
    let s = "\
name: alpha
version: 1.0
synopsis: first

name: beta
version: 2.0
synopsis: second
";
    let recs = parse(s).unwrap();
    assert_eq!(recs.len(), 2);
    assert_eq!(get(&recs[0], "name"), Some("alpha"));
    assert_eq!(get(&recs[0], "version"), Some("1.0"));
    assert_eq!(get(&recs[1], "name"), Some("beta"));
    assert_eq!(get(&recs[1], "synopsis"), Some("second"));
}

#[test]
fn parses_record_without_trailing_blank_line() {
    let s = "name: solo\nversion: 0.1";
    let recs = parse(s).unwrap();
    assert_eq!(recs.len(), 1);
    assert_eq!(get(&recs[0], "name"), Some("solo"));
    assert_eq!(get(&recs[0], "version"), Some("0.1"));
}

#[test]
fn continuation_lines_join_with_newlines() {
    let s = "name: hello\ndescription: GNU Hello prints\n+ a greeting.\n+ Twice.\noutputs: out: everything\n";
    let recs = parse(s).unwrap();
    let desc = get(&recs[0], "description").unwrap();
    assert!(desc.starts_with("GNU Hello prints"));
    assert_eq!(desc.lines().count(), 3);
    assert_eq!(parse_outputs(get(&recs[0], "outputs").unwrap()), vec!["out".to_string()]);
}

#[test]
fn orphan_continuation_error_names_the_line() {
    match parse("name: a\n\n+ orphan\n") {
        Err(libguix::error::GuixError::Parse(m)) => assert!(m.starts_with("recutils line 3: "), "{m}"),
        other => panic!("unexpected {other:?}"),
    }
}

#[test]
fn whitespace_split_and_outputs() {
    assert_eq!(split_ws("  x86_64-linux   i686-linux "), vec!["x86_64-linux", "i686-linux"]);
    assert_eq!(split_ws(""), Vec::<String>::new());
    assert_eq!(
        parse_outputs("out: everything\ndoc: documentation\n\n"),
        vec!["out".to_string(), "doc".to_string()]
    );
}

/// `guix package -s hello` output for the one matching package.
const SEARCH_HELLO: &str = "\
name: hello
version: 2.12.3
outputs:
+ out: everything
systems: x86_64-linux i686-linux
dependencies: 
location: gnu/packages/base.scm:95:2
homepage: https://www.gnu.org/software/hello/
license: GPL 3+
synopsis: Example GNU package
description: GNU Hello prints the message \"Hello, world!\" and then exits.  It
+ serves as an example of standard GNU coding practices.  As such, it supports
+ command-line arguments, multiple languages, and so on.
relevance: 30

";

/// `guix package --show=hello` output.
const SHOW_HELLO: &str = "\
name: hello
version: 2.12.3
outputs:
+ out: everything
systems: x86_64-linux i686-linux
dependencies: 
location: gnu/packages/base.scm:95:2
homepage: https://www.gnu.org/software/hello/
license: GPL 3+
synopsis: Example GNU package
description: GNU Hello prints the message \"Hello, world!\" and then exits.  It
+ serves as an example of standard GNU coding practices.  As such, it supports
+ command-line arguments, multiple languages, and so on.

";

#[test]
fn parses_search_hello_fixture() {
    let recs = parse(SEARCH_HELLO).unwrap();
    assert_eq!(recs.len(), 1);
    let r = &recs[0];
    assert_eq!(get(r, "name"), Some("hello"));
    assert_eq!(get(r, "version"), Some("2.12.3"));
    assert_eq!(get(r, "relevance"), Some("30"));
    let outs = get(r, "outputs").unwrap();
    assert_eq!(parse_outputs(outs), vec!["out".to_string()]);
    let desc = get(r, "description").unwrap();
    assert!(desc.starts_with("GNU Hello prints"));
    assert_eq!(desc.lines().count(), 3);
    assert_eq!(split_ws(get(r, "systems").unwrap()), vec!["x86_64-linux", "i686-linux"]);
}

#[test]
fn parses_show_hello_fixture() {
    let recs = parse(SHOW_HELLO).unwrap();
    assert_eq!(recs.len(), 1);
    assert_eq!(get(&recs[0], "name"), Some("hello"));
    assert!(get(&recs[0], "relevance").is_none());
}
