use puzzle::pattern::{is_valid_group, is_valid_ignore, is_valid_name, is_valid_version};

#[test]
fn name_pattern_accepts_lowercase_names() {
    assert!(is_valid_name("demo"));
    assert!(is_valid_name("my-app2"));
    assert!(is_valid_name("a"));
    assert!(is_valid_name("a-"));
}

#[test]
fn name_pattern_refuses_other_names() {
    assert!(!is_valid_name(""));
    assert!(!is_valid_name("1app"));
    assert!(!is_valid_name("-app"));
    assert!(!is_valid_name("App"));
    assert!(!is_valid_name("my_app"));
    assert!(!is_valid_name("my app"));
}

#[test]
fn version_pattern_accepts_three_numbers() {
    assert!(is_valid_version("0.0.1"));
    assert!(is_valid_version("10.200.3000"));
}

#[test]
fn version_pattern_takes_unicode_digits() {
    // `\d` of the regex crate is any Unicode decimal digit
    assert!(is_valid_version("١.٢.٣"));
    assert!(is_valid_version("１.0.0"));
}

#[test]
fn version_pattern_refuses_other_versions() {
    assert!(!is_valid_version(""));
    assert!(!is_valid_version("1.2"));
    assert!(!is_valid_version("1.2.3.4"));
    assert!(!is_valid_version("1..3"));
    assert!(!is_valid_version(".1.2"));
    assert!(!is_valid_version("1.2."));
    assert!(!is_valid_version("1.2.x"));
    assert!(!is_valid_version("v1.2.3"));
}

#[test]
fn group_pattern_accepts_dotted_identifiers() {
    assert!(is_valid_group("com"));
    assert!(is_valid_group("com.example.app2"));
}

#[test]
fn group_pattern_refuses_other_groups() {
    assert!(!is_valid_group(""));
    assert!(!is_valid_group("com..example"));
    assert!(!is_valid_group("com."));
    assert!(!is_valid_group(".com"));
    assert!(!is_valid_group("com.1example"));
    assert!(!is_valid_group("com.ex-ample"));
    assert!(!is_valid_group("Com"));
}

#[test]
fn ignore_pattern_accepts_rules() {
    assert!(is_valid_ignore("**"));
    assert!(is_valid_ignore("*"));
    assert!(is_valid_ignore("a/**"));
    assert!(is_valid_ignore("a/b2/*"));
    assert!(is_valid_ignore("Main.pzl"));
    assert!(is_valid_ignore("a/b/Main2.pzl"));
}

#[test]
fn ignore_pattern_refuses_other_rules() {
    assert!(!is_valid_ignore(""));
    assert!(!is_valid_ignore("a/"));
    assert!(!is_valid_ignore("a"));
    assert!(!is_valid_ignore("/a/*"));
    assert!(!is_valid_ignore("A/*"));
    assert!(!is_valid_ignore("a//*"));
    assert!(!is_valid_ignore("a/***"));
    assert!(!is_valid_ignore(".pzl"));
    assert!(!is_valid_ignore("1.pzl"));
    assert!(!is_valid_ignore("a/b.txt"));
    assert!(!is_valid_ignore("a/*/b.pzl"));
}
