use libguix::package::{
    delete_generations_args, install_payload, package_flag_args, parse_records, record_to_detail, record_to_summary,
    remove_payload, scheme_str_escape, search_args, search_form, search_from_output, search_result, show_args,
    show_from_output, switch_generation_args, upgrade_payload, DEFAULT_SEARCH_LIMIT,
};
use libguix::recutils::Record;
use libguix::sexp::SExp;

fn s(x: &str) -> SExp {
    SExp::Str(x.to_string())
}

fn list(items: Vec<SExp>) -> SExp {
    SExp::List(items, None)
}

fn record(name: &str) -> SExp {
    list(vec![
        s(name),
        s("1.0"),
        s("synopsis"),
        s("description"),
        s("https://example.org"),
        s("GPL3+"),
        list(vec![s("out")]),
    ])
}

#[test]
fn drains_long_cons_list_without_overflow() {
    const N: usize = 10_000;
    let mut spine: Vec<SExp> = Vec::with_capacity(N);
    for i in (0..N).rev() {
        spine.push(record(&format!("pkg-{i}")));
    }
    let results = parse_records(&spine);
    assert_eq!(results.len(), N);
    assert_eq!(results[0].name, format!("pkg-{}", N - 1));
    assert_eq!(results[N - 1].name, "pkg-0");
    assert_eq!(results[0].synopsis, "synopsis");
    assert_eq!(results[0].description, "description");
    assert_eq!(results[0].homepage, "https://example.org");
    assert_eq!(results[0].license, "GPL3+");
    assert_eq!(results[0].outputs, vec!["out".to_owned()]);
}

#[test]
fn drains_long_non_record_cons_list_without_overflow() {
    const N: usize = 10_000;
    let spine: Vec<SExp> = (0..N).map(|i| SExp::Number(Some(i as u64), format!("PosInt({i})"))).collect();
    let results = parse_records(&spine);
    assert!(results.is_empty());
}

#[test]
fn outputs_falls_back_to_out_when_missing() {
    let rec = list(vec![
        s("hello"),
        s("2.12"),
        s("Greeter"),
        s("Long desc."),
        s("https://example.org"),
        s("GPL3+"),
        list(vec![]),
    ]);
    let results = parse_records(&[rec]);
    assert_eq!(results.len(), 1);
    assert_eq!(results[0].outputs, vec!["out".to_owned()]);
}

#[test]
fn default_search_limit_is_reasonable() {
    assert_eq!(DEFAULT_SEARCH_LIMIT, 200);
}

#[test]
fn scheme_str_escape_basic() {
    assert_eq!(scheme_str_escape("hello"), "\"hello\"");
    assert_eq!(scheme_str_escape("a\"b"), "\"a\\\"b\"");
    assert_eq!(scheme_str_escape("a\\b"), "\"a\\\\b\"");
}

#[test]
fn search_reply_reads_truncation_flag_and_records() {
    let reply = list(vec![SExp::Bool(true), record("emacs"), s("junk"), record("vim")]);
    let r = search_result(&reply, 0);
    assert!(r.truncated);
    assert_eq!(r.limit, 1);
    let names: Vec<_> = r.results.iter().map(|p| p.name.as_str()).collect();
    assert_eq!(names, vec!["emacs", "vim"]);
    let empty = search_result(&list(vec![]), 5);
    assert!(!empty.truncated && empty.results.is_empty() && empty.limit == 5);
}

#[test]
fn search_form_embeds_limit_and_escaped_query() {
    let f = search_form("a\"b", 0);
    assert!(f.starts_with("(let* ((limit 1) (count 0)"));
    assert!(f.contains("(string-contains (package-name p) \"a\\\"b\")"));
    assert!(f.ends_with("(cons truncated? acc))"));
}

fn rec(fields: &[(&str, &str)]) -> Record {
    Record { fields: fields.iter().map(|(k, v)| (k.to_string(), v.to_string())).collect() }
}

#[test]
fn records_map_to_summary_and_detail() {
    let r = rec(&[
        ("name", "hello"),
        ("version", "2.12.3"),
        ("synopsis", "  Hello, GNU world  "),
        ("homepage", ""),
        ("outputs", "out: everything\ndoc: docs"),
        ("systems", "x86_64-linux i686-linux"),
        ("location", "gnu/packages/base.scm:90:2"),
    ]);
    let sm = record_to_summary(&r);
    assert_eq!(sm.name, "hello");
    assert_eq!(sm.synopsis, "Hello, GNU world");
    assert_eq!(sm.homepage, "");
    assert_eq!(sm.outputs, vec!["out", "doc"]);
    let d = record_to_detail(&r);
    assert_eq!(d.homepage, None);
    assert_eq!(d.license, None);
    assert_eq!(d.location.as_deref(), Some("gnu/packages/base.scm:90:2"));
    assert_eq!(d.systems, vec!["x86_64-linux", "i686-linux"]);
    assert!(d.dependencies.is_empty());
}

#[test]
fn command_output_is_parsed() {
    let out = b"name: hello\nversion: 2.12.3\n\nname: hi\nversion: 1\n";
    let v = search_from_output(out).unwrap();
    assert_eq!(v.len(), 2);
    let d = show_from_output("hello", out).unwrap();
    assert_eq!(d.name, "hi");
    match show_from_output("nope", b"") {
        Err(libguix::error::GuixError::Parse(m)) => {
            assert_eq!(m, "no record returned for `guix package --show=nope`")
        }
        other => panic!("unexpected {other:?}"),
    }
    assert!(search_from_output(b"+ orphan\n").is_err());
}

#[test]
fn package_argument_vectors() {
    assert_eq!(search_args(None, "emacs"), vec!["package", "-s", "emacs"]);
    assert_eq!(search_args(Some("/p"), "emacs"), vec!["package", "-p", "/p", "-s", "emacs"]);
    assert_eq!(show_args(None, "hello"), vec!["package", "--show=hello"]);
    assert_eq!(package_flag_args(None, "-I"), vec!["package", "-I"]);
    assert_eq!(switch_generation_args(None, -1), vec!["package", "-S", "-1"]);
    assert_eq!(switch_generation_args(None, 42), vec!["package", "-S", "42"]);
    assert_eq!(switch_generation_args(None, i64::MIN), vec!["package".to_string(), "-S".to_string(), i64::MIN.to_string()]);
    assert_eq!(delete_generations_args(None, "1..3"), vec!["package", "-d", "1..3"]);
}

#[test]
fn package_payloads_validate_names() {
    let p = install_payload(Some("/tmp/p"), &["hello", "emacs"]).unwrap();
    assert!(p.contains("\"-p\" \"/tmp/p\" \"-i\" \"hello\" \"emacs\""), "{p}");
    assert!(remove_payload(None, &["bad\nname"]).is_err());
    let u = upgrade_payload(None, None).unwrap();
    assert!(u.contains("\"-u\""));
    let u2 = upgrade_payload(None, Some("^emacs")).unwrap();
    assert!(u2.contains("\"-u\" \"^emacs\""));
}
