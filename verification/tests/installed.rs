use libguix::installed::{bucket_entries, bucket_get, installed_form, interpret_response, parse_entries, UNKNOWN_BUCKET};
use libguix::sexp::read_sexp;
use libguix::error::GuixError;

#[test]
fn parses_and_buckets_typical_response() {
    let v = read_sexp(
        r#"(("hello" "2.12" "/path/to/foo.scm" ("guix"))
            ("panther-foo" "0.4" "/path/to/bar.scm" ("pantherx")))"#,
    )
    .unwrap();
    let entries = parse_entries(&v);
    assert_eq!(entries.len(), 2);
    let buckets = bucket_entries(&entries);
    assert_eq!(buckets.len(), 2);
    let guix = bucket_get(&buckets, "guix").expect("guix bucket present");
    assert_eq!(guix.len(), 1);
    assert_eq!(guix[0].name, "hello");
    assert_eq!(guix[0].version, "2.12");
    let px = bucket_get(&buckets, "pantherx").expect("pantherx bucket present");
    assert_eq!(px.len(), 1);
    assert_eq!(px[0].name, "panther-foo");
}

#[test]
fn empty_channel_list_buckets_to_unknown() {
    let v = read_sexp(r#"(("orphan" "1.0" "" ()))"#).unwrap();
    let entries = parse_entries(&v);
    assert_eq!(entries.len(), 1);
    assert!(entries[0].channels.is_empty());
    let buckets = bucket_entries(&entries);
    let unknown = bucket_get(&buckets, UNKNOWN_BUCKET).expect("unknown bucket present");
    assert_eq!(unknown.len(), 1);
    assert_eq!(unknown[0].name, "orphan");
}

#[test]
fn multi_channel_picks_first() {
    let v = read_sexp(r#"(("shared" "1.0" "/x.scm" ("nonguix" "guix")))"#).unwrap();
    let buckets = bucket_entries(&parse_entries(&v));
    assert!(bucket_get(&buckets, "nonguix").is_some());
    assert!(bucket_get(&buckets, "guix").is_none());
}

#[test]
fn accepts_symbol_channel_names() {
    let v = read_sexp(r#"(("hello" "2.12" "/x.scm" (guix)))"#).unwrap();
    let buckets = bucket_entries(&parse_entries(&v));
    assert!(bucket_get(&buckets, "guix").is_some());
}

#[test]
fn empty_response_yields_empty_map() {
    let v = read_sexp("()").unwrap();
    let buckets = bucket_entries(&parse_entries(&v));
    assert!(buckets.is_empty());
}

#[test]
fn same_channel_packages_share_a_bucket_in_order() {
    let v = read_sexp(r#"(("a" "1" "/a" ("guix")) ("" "1" "/x" ("guix")) ("b" "2" "/b" (nonguix)) ("c" "3" "/c" ("guix")))"#)
        .unwrap();
    let entries = parse_entries(&v);
    assert_eq!(entries.len(), 3, "nameless rows are dropped");
    let buckets = bucket_entries(&entries);
    assert_eq!(buckets.len(), 2);
    assert_eq!(buckets[0].0, "guix");
    let names: Vec<_> = buckets[0].1.iter().map(|p| p.name.as_str()).collect();
    assert_eq!(names, vec!["a", "c"]);
    assert_eq!(buckets[0].1[0].output, "out");
    assert_eq!(buckets[0].1[0].store_path, "/a");
}

#[test]
fn helper_reply_shapes() {
    let ok = read_sexp(r#"(ok (("hello" "2" "/x" ("guix"))))"#).unwrap();
    assert_eq!(interpret_response(&ok).unwrap().len(), 1);
    let err = read_sexp(r#"(error "boom")"#).unwrap();
    match interpret_response(&err) {
        Err(GuixError::Parse(m)) => assert_eq!(m, "installed-with-locations failed: boom"),
        other => panic!("unexpected {other:?}"),
    }
    let odd = read_sexp("(what 1)").unwrap();
    match interpret_response(&odd) {
        Err(GuixError::Parse(m)) => assert_eq!(m, "installed-with-locations: unexpected head `what`"),
        other => panic!("unexpected {other:?}"),
    }
    match interpret_response(&read_sexp("(ok)").unwrap()) {
        Err(GuixError::Parse(m)) => assert_eq!(m, "installed-with-locations: ok response missing payload"),
        other => panic!("unexpected {other:?}"),
    }
    match interpret_response(&read_sexp("42").unwrap()) {
        Err(GuixError::Parse(m)) => assert_eq!(m, "installed-with-locations: not a list"),
        other => panic!("unexpected {other:?}"),
    }
    assert_eq!(installed_form("/home/me/.guix-profile"), "(libguix-rs:installed-with-locations \"/home/me/.guix-profile\")");
}
