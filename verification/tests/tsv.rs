use libguix::tsv::{parse_generations, parse_installed};

#[test]
fn parses_installed_empty_input() {
    assert_eq!(parse_installed("").unwrap().len(), 0);
    assert_eq!(parse_installed("   \n\n").unwrap().len(), 0);
}

#[test]
fn parses_generations_without_current_marker() {
    let s = "\
Generation 1\tJan 01 2026 00:00:00
  hello\t1.0\tout\t/gnu/store/aaa-hello-1.0

Generation 2\tJan 02 2026 00:00:00
  hello\t2.0\tout\t/gnu/store/bbb-hello-2.0
";
    let g = parse_generations(s).unwrap();
    assert_eq!(g.len(), 2);
    assert!(!g[0].current);
    assert!(!g[1].current);
    assert_eq!(g[0].number, 1);
    assert_eq!(g[1].number, 2);
    assert_eq!(g[1].packages.len(), 1);
    assert_eq!(g[1].packages[0].version, "2.0");
}

#[test]
fn rejects_orphan_package_row() {
    let s = "  hello\t1.0\tout\t/gnu/store/x\n";
    assert!(parse_generations(s).is_err());
}

#[test]
fn parses_installed_rows() {
    let s = "wpa-supplicant\t2.10\tout\t/gnu/store/abc-wpa-supplicant-2.10\nhello\t2.12.3\tdoc\t/gnu/store/def-hello-2.12.3-doc\n";
    let v = parse_installed(s).unwrap();
    assert_eq!(v.len(), 2);
    assert_eq!(v[0].name, "wpa-supplicant");
    assert_eq!(v[0].version, "2.10");
    assert_eq!(v[0].output, "out");
    assert!(v[0].store_path.ends_with("wpa-supplicant-2.10"));
    assert_eq!(v[1].output, "doc");
}

#[test]
fn current_generation_is_marked() {
    let s = "Generation 28\tApr 09 2026 09:56:57\t(current)\n  hello\t2.12.3\tout\t/gnu/store/x-hello\n";
    let g = parse_generations(s).unwrap();
    assert_eq!(g.len(), 1);
    assert_eq!(g[0].number, 28);
    assert!(g[0].current);
    assert_eq!(g[0].date, "Apr 09 2026 09:56:57");
}

#[test]
fn bad_installed_row_is_an_error() {
    assert!(parse_installed("hello\t2.0\n").is_err());
}

/// `guix package -I` output.
const INSTALLED: &str = "\
wpa-supplicant\t2.10\tout\t/gnu/store/0k1bbmxm0zi6j7a7f5mbr2ldd5c0y1dq-wpa-supplicant-2.10
emacs\t29.4\tout\t/gnu/store/1m4jqj5j9i5i6jw6j5dkm0grhz0r1z5r-emacs-29.4
git\t2.46.0\tout\t/gnu/store/2a9y8r7m5j3k2l1p0n9b8v7c6x5z4a3s-git-2.46.0
wakatime-cli\t1.132.1\tout\t/gnu/store/3b8x7q6w5e4r3t2y1u0i9o8p7a6s5d4f-wakatime-cli-1.132.1
";

/// `guix package -l` output with one (current) generation.
const GENERATIONS: &str = "\
Generation 28\tApr 09 2026 09:56:57\t(current)
  wpa-supplicant\t2.10\tout\t/gnu/store/0k1bbmxm0zi6j7a7f5mbr2ldd5c0y1dq-wpa-supplicant-2.10
  emacs\t29.4\tout\t/gnu/store/1m4jqj5j9i5i6jw6j5dkm0grhz0r1z5r-emacs-29.4
  git\t2.46.0\tout\t/gnu/store/2a9y8r7m5j3k2l1p0n9b8v7c6x5z4a3s-git-2.46.0
  wakatime-cli\t1.132.1\tout\t/gnu/store/3b8x7q6w5e4r3t2y1u0i9o8p7a6s5d4f-wakatime-cli-1.132.1

";

#[test]
fn parses_installed_fixture() {
    let v = parse_installed(INSTALLED).unwrap();
    assert_eq!(v.len(), 4);
    assert_eq!(v[0].name, "wpa-supplicant");
    assert_eq!(v[0].version, "2.10");
    assert_eq!(v[0].output, "out");
    assert!(v[0].store_path.ends_with("wpa-supplicant-2.10"));
    assert_eq!(v[3].name, "wakatime-cli");
    assert_eq!(v[3].version, "1.132.1");
}

#[test]
fn parses_generations_fixture() {
    let g = parse_generations(GENERATIONS).unwrap();
    assert_eq!(g.len(), 1);
    assert_eq!(g[0].number, 28);
    assert!(g[0].current);
    assert_eq!(g[0].date, "Apr 09 2026 09:56:57");
    assert_eq!(g[0].packages.len(), 4);
    assert_eq!(g[0].packages[0].name, "wpa-supplicant");
    assert_eq!(g[0].packages[3].name, "wakatime-cli");
}
