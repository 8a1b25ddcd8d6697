//! Byte helpers, locations, errors, rules and the scanner's NUL handling.

use cargo_nbuild::bytes;
use cargo_nbuild::config::{default_system_location, find_format, search_locations, FormatKind};
use cargo_nbuild::log::{scroll_after_key, scroll_to_entry};
use cargo_nbuild::search_ui::Key;
use cargo_nbuild::error::ErrorKind;
use cargo_nbuild::location::Location;
use cargo_nbuild::rule::RuleStore;

fn b(s: &str) -> Vec<u8> {
    s.as_bytes().to_vec()
}

#[test]
fn scanner_nul_stripping() {
    assert_eq!(bytes::strip_nul(&b"hello\x00world".to_vec()), b("helloworld"));
    assert_eq!(bytes::strip_nul(&b("plain")), b("plain"));
    assert_eq!(bytes::strip_nul(&b"\x00\x00".to_vec()), b(""));
}

#[test]
fn trim_bytes() {
    assert_eq!(bytes::trim(&b("  hi \t")), b("hi"));
    assert_eq!(bytes::trim(&b("\r\n")), b(""));
    assert_eq!(bytes::trim(&b("x")), b("x"));
    assert_eq!(bytes::trim(&b("")), b(""));
}

#[test]
fn find_substring() {
    assert_eq!(bytes::find_sub(&b("hello world"), &b("o w")), Some(4));
    assert_eq!(bytes::find_sub(&b("hello"), &b("xyz")), None);
    assert_eq!(bytes::find_sub(&b("aaa"), &b("aa")), Some(0));
    assert_eq!(bytes::find_sub(&b("abc"), &b("")), Some(0));
}

#[test]
fn parse_decimal() {
    assert_eq!(bytes::parse_usize(&b("450")), Some(450));
    assert_eq!(bytes::parse_usize(&b("0")), Some(0));
    assert_eq!(bytes::parse_usize(&b("")), None);
    assert_eq!(bytes::parse_usize(&b("4x0")), None);
    assert_eq!(bytes::parse_usize(&b("99999999999999999999999999")), None);
}

#[test]
fn format_decimal() {
    assert_eq!(bytes::fmt_usize(0), b("0"));
    assert_eq!(bytes::fmt_usize(7), b("7"));
    assert_eq!(bytes::fmt_usize(450), b("450"));
    assert_eq!(bytes::fmt_usize(100200), b("100200"));
}

#[test]
fn case_insensitive_equality() {
    assert!(bytes::eq_ignore_case(&b("Rust: Cargo"), &b("rust: cargo")));
    assert!(!bytes::eq_ignore_case(&b("rust"), &b("rusty")));
    assert!(bytes::lower_eq(&b("RUST"), &b("rust")));
    assert!(!bytes::lower_eq(&b("rust"), &b("RUST")));
}

#[test]
fn location_parse_full() {
    let loc = Location::parse(&b("src/lib/build.rs:450:7")).unwrap();
    assert_eq!(loc, Location::new(b("src/lib/build.rs"), Some(450), Some(7)));
}

#[test]
fn location_parse_path_only() {
    let loc = Location::parse(&b("src/lib/build.rs")).unwrap();
    assert_eq!(loc, Location::new(b("src/lib/build.rs"), None, None));
}

#[test]
fn location_parse_bad_line_is_dropped() {
    let loc = Location::parse(&b("src/x.rs:abc")).unwrap();
    assert_eq!(loc, Location::new(b("src/x.rs"), None, None));
}

#[test]
fn location_parse_bad_column_fails() {
    let e = Location::parse(&b("src/x.rs:4:abc")).unwrap_err();
    assert_eq!(e.kind(), ErrorKind::Parsing);
}

#[test]
fn rule_lookup_ignores_case() {
    let store = RuleStore::new();
    assert!(store.rule(&b("CARGO")).is_some());
    assert!(store.rule(&b("rust: cargo")).is_some());
    assert!(store.rule(&b("nope")).is_none());
}

#[test]
fn set_active_rule_checks_alias() {
    let mut store = RuleStore::new();
    assert!(store.set_active_rule(&b("cargo")).is_ok());
    assert_eq!(store.active_rule_name(), b("cargo"));
    let e = store.set_active_rule(&b("unknown")).unwrap_err();
    assert_eq!(e.kind(), ErrorKind::Rule);
    // a failed change leaves the active rule as it was
    assert_eq!(store.active_rule_name(), b("cargo"));
}

#[test]
fn active_rule_is_case_insensitive() {
    // the alias may be given in any case: the stored name is folded, so
    // the active-rule lookup still finds the rule
    let mut store = RuleStore::new();
    assert!(store.set_active_rule(&b("RUST: Cargo")).is_ok());
    assert_eq!(store.active_rule_name(), b("rust: cargo"));
    let rule = store.active_rule().expect("active rule resolves");
    assert_eq!(rule.command, b("cargo build"));
}

#[test]
fn merge_keeps_only_fresh_aliases() {
    let mut store = RuleStore::new();
    let colliding = cargo_nbuild::rule::Rule::new(vec![b("CARGO")], b("make"), Vec::new());
    let fresh = cargo_nbuild::rule::Rule::new(vec![b("gcc")], b("make"), Vec::new());
    store.merge_rules(&vec![colliding, fresh]);
    assert_eq!(store.rules().len(), 2);
    assert!(store.rule(&b("gcc")).is_some());
    assert_eq!(store.rule(&b("cargo")).unwrap().command, b("cargo build"));
}

#[test]
fn error_kind_has_text() {
    let e = cargo_nbuild::error::Error::new(ErrorKind::LockTimeout, None, None, None);
    assert_eq!(e.kind_text(), b("lock timeout"));
}

#[test]
fn errors_carry_their_parts() {
    let e = cargo_nbuild::error::Error::new(ErrorKind::IO, None, None, None)
        .with_message(b("disk full"))
        .with_location(Location::new(b("main.rs"), Some(1), None));
    assert_eq!(e.kind(), ErrorKind::IO);
    assert_eq!(e.message(), Some(&b("disk full")));
    assert!(e.cause().is_none());
    assert_eq!(e.location().map(|l| l.line()), Some(Some(1)));
}

#[test]
fn config_candidates_per_base() {
    let locs = search_locations(&vec![b("/work"), b("/etc/nbuild")]);
    assert_eq!(locs.len(), 8);
    assert_eq!(locs[0], b("/work/nbuild.json"));
    assert_eq!(locs[1], b("/work/nbuild.yaml"));
    assert_eq!(locs[2], b("/work/nbuild.yml"));
    assert_eq!(locs[3], b("/work/nbuild.toml"));
    assert_eq!(locs[4], b("/etc/nbuild/nbuild.json"));
}

#[test]
fn config_format_by_extension() {
    assert_eq!(find_format(&b("a/nbuild.json")), Some(FormatKind::Json));
    assert_eq!(find_format(&b("a/NBUILD.YML")), Some(FormatKind::Yaml));
    assert_eq!(find_format(&b("a/nbuild.toml")), Some(FormatKind::Toml));
    assert_eq!(find_format(&b("a/nbuild.ini")), None);
    assert_eq!(find_format(&b("no-extension")), None);
}

#[test]
fn config_default_location_under_config_dir() {
    let locs = search_locations(&vec![b("/work"), b("/home/u/.config/nbuild")]);
    let hit = default_system_location(&locs, &b("/home/u/.config"));
    assert_eq!(hit, Some(b("/home/u/.config/nbuild/nbuild.json")));
    assert_eq!(default_system_location(&locs, &b("/nowhere")), None);
}

#[test]
fn scroll_steps_saturate() {
    assert_eq!(scroll_after_key(Key::Character(b'j'), 0, 50, 10), 1);
    assert_eq!(scroll_after_key(Key::Character(b'j'), 40, 50, 10), 40);
    assert_eq!(scroll_after_key(Key::Character(b'k'), 0, 50, 10), 0);
    assert_eq!(scroll_after_key(Key::PageUp, 5, 50, 10), 0);
    assert_eq!(scroll_after_key(Key::PageDown, 0, 50, 10), 10);
    // following a selection keeps a four-row margin from the edges
    assert_eq!(scroll_to_entry(3, 20, 10), 0);
    assert_eq!(scroll_to_entry(35, 20, 10), 30);
    assert_eq!(scroll_to_entry(25, 20, 10), 20);
    assert_eq!(scroll_to_entry(22, 20, 10), 18);
    assert_eq!(scroll_to_entry(26, 20, 10), 21);
}
