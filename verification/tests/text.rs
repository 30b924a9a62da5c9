use puzzle::ansi::ansi::Ansi;
use puzzle::ansi::io::AddAnsi;
use puzzle::extension::{join_path, is_absolute_path, OptionExt, PathBufExt, StringExt};
use puzzle::text::{has_whitespace, push_decimal};

#[test]
fn ansi_escape_sequences() {
    assert_eq!(Ansi::Reset.to_str(), "\x1b[0m");
    assert_eq!(Ansi::Bold.to_str(), "\x1b[1m");
    assert_eq!(Ansi::Reverse.to_str(), "\x1b[7m");
    assert_eq!(Ansi::NormalIntensity.to_str(), "\x1b[22m");
    assert_eq!(Ansi::StrikethroughOff.to_str(), "\x1b[29m");
    assert_eq!(Ansi::Red.to_str(), "\x1b[31m");
    assert_eq!(Ansi::BrightWhite.to_str(), "\x1b[97m");
    assert_eq!(Ansi::BgBlack.to_str(), "\x1b[40m");
    assert_eq!(Ansi::BgBrightWhite.to_str(), "\x1b[107m");
}

#[test]
fn push_ansi_appends_the_sequence() {
    let mut s = String::from("x");
    s.push_ansi(Ansi::Cyan);
    s.push_ansi(Ansi::Reset);
    assert_eq!(s, "x\x1b[36m\x1b[0m");
}

#[test]
fn decimal_notation() {
    let mut s = String::new();
    push_decimal(&mut s, 0);
    s.push(' ');
    push_decimal(&mut s, 4096);
    s.push(' ');
    push_decimal(&mut s, u64::MAX);
    assert_eq!(s, "0 4096 18446744073709551615");
}

#[test]
fn white_space_is_unicode_white_space() {
    assert!(has_whitespace("a b"));
    assert!(has_whitespace("a\tb"));
    assert!(has_whitespace("a\u{3000}b"));
    assert!(!has_whitespace("a,b"));
    assert!(!has_whitespace(""));
}

#[test]
fn split_by_a_pattern() {
    assert_eq!(String::from("a.b.c").split_to_vec("."), vec!["a", "b", "c"]);
    assert_eq!(String::from("a..b.").split_to_vec("."), vec!["a", "", "b", ""]);
    assert_eq!(String::from("abc").split_to_vec("."), vec!["abc"]);
    assert_eq!(String::from("").split_to_vec("."), vec![""]);
    assert_eq!(String::from("a::b:c").split_to_vec("::"), vec!["a", "b:c"]);
    assert_eq!(String::from("a:::b").split_to_vec("::"), vec!["a", ":b"]);
}

#[test]
fn split_by_the_empty_pattern() {
    assert_eq!(String::from("ab").split_to_vec(""), vec!["", "a", "b", ""]);
    assert_eq!(String::from("").split_to_vec(""), vec!["", ""]);
}

#[test]
fn split_then_join_gives_back_the_string() {
    for s in ["com.example.app", "a..b.", "", ".", "no-dots"] {
        let pieces = String::from(s).split_to_vec(".");
        assert_eq!(pieces.join("."), s);
    }
}

#[test]
fn file_name_of_paths() {
    assert_eq!(String::from("/a/b/c.pzl").file_name_string(), "c.pzl");
    assert_eq!(String::from("a/b/").file_name_string(), "b");
    assert_eq!(String::from("a/b/.").file_name_string(), "b");
    assert_eq!(String::from("a//b").file_name_string(), "b");
    assert_eq!(String::from("name").file_name_string(), "name");
    assert_eq!(String::from("/x/../y").file_name_string(), "y");
}

#[test]
fn joining_paths() {
    assert_eq!(join_path("/p/src", "a/b"), "/p/src/a/b");
    assert_eq!(join_path("/p/src/", "a"), "/p/src/a");
    assert_eq!(join_path("", "a"), "a");
    assert_eq!(join_path("/p", "/abs"), "/abs");
    assert!(is_absolute_path("/p"));
    assert!(!is_absolute_path("p/q"));
}

#[test]
fn file_name_of_a_join_is_the_component() {
    for base in ["", "/", "/p", "p/q/", "a/../b"] {
        assert_eq!(join_path(base, "main.pzl").file_name_string(), "main.pzl");
    }
}

#[test]
fn option_extension() {
    assert_eq!(5.some(), Some(5));
    let s = String::from("x");
    assert_eq!(s.some_ref(), Some(&s));
}

#[test]
fn pieces_are_one_more_than_the_matches_and_hold_no_separator() {
    for (s, pat) in [("a.b.c", "."), ("a..b.", "."), ("a:::b", "::"), ("", "."), ("xx", "x")] {
        let pieces = String::from(s).split_to_vec(pat);
        assert_eq!(pieces.len(), s.matches(pat).count() + 1);
        assert!(pieces.iter().all(|p| !p.contains(pat)));
    }
}

#[test]
fn white_space_is_exactly_the_listed_characters() {
    let listed = |n: u32| {
        (0x9..=0xD).contains(&n)
            || n == 0x20
            || n == 0x85
            || n == 0xA0
            || n == 0x1680
            || (0x2000..=0x200A).contains(&n)
            || n == 0x2028
            || n == 0x2029
            || n == 0x202F
            || n == 0x205F
            || n == 0x3000
    };
    for n in 0..=0x10FFFFu32 {
        if let Some(c) = char::from_u32(n) {
            assert_eq!(has_whitespace(&c.to_string()), listed(n), "U+{:04X}", n);
        }
    }
}
