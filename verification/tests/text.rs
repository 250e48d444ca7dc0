use dsh_launcher::text::begins_with;
use dsh_launcher::text::chars_of;
use dsh_launcher::text::comes_before;
use dsh_launcher::text::concat3;
use dsh_launcher::text::decimal_of;
use dsh_launcher::text::has;
use dsh_launcher::text::is_white_space;
use dsh_launcher::text::joined;
use dsh_launcher::text::position;
use dsh_launcher::text::same;
use dsh_launcher::text::signed_decimal_of;
use dsh_launcher::text::skip_white_space;
use dsh_launcher::text::text_of;
use dsh_launcher::text::to_ascii_lower;
use dsh_launcher::text::trimmed;
use dsh_launcher::text::truth_of;

#[test]
fn white_space_is_that_of_unicode() {
    for n in 0..=0x10ffffu32 {
        if let Some(c) = char::from_u32(n) {
            assert_eq!(is_white_space(c), c.is_whitespace(), "U+{:04X}", n);
        }
    }
}

#[test]
fn trims_both_ends_only() {
    assert_eq!(trimmed("  a b \n"), "a b");
    assert_eq!(trimmed("\u{3000}界\u{2003}"), "界");
    assert_eq!(trimmed(" \t\r\n "), "");
    assert_eq!(trimmed(""), "");
    assert_eq!(trimmed("\u{200b}x"), "\u{200b}x");
    for t in ["  x", "x  ", " x y ", "", " "] {
        assert_eq!(trimmed(t), t.trim());
        assert_eq!(trimmed(&trimmed(t)), trimmed(t));
    }
}

#[test]
fn skips_leading_white_space() {
    let c = chars_of("a  b");
    assert_eq!(skip_white_space(&c, 0), 0);
    assert_eq!(skip_white_space(&c, 1), 3);
    assert_eq!(skip_white_space(&c, 4), 4);
}

#[test]
fn takes_a_text_apart_and_builds_it() {
    let c = chars_of("h界é");
    assert_eq!(c, vec!['h', '界', 'é']);
    assert_eq!(text_of(&c, 0, 3), "h界é");
    assert_eq!(text_of(&c, 1, 2), "界");
    assert_eq!(text_of(&c, 2, 2), "");
    assert_eq!(dsh_launcher::text::concat("ab", "c"), "abc");
    assert_eq!(concat3("a", "", "c"), "ac");
}

#[test]
fn searches() {
    assert_eq!(position(&chars_of("ababa"), &chars_of("ba")), Some(1));
    assert_eq!(position(&chars_of("ababa"), &chars_of("bb")), None);
    assert_eq!(position(&chars_of("ab"), &chars_of("")), Some(0));
    assert_eq!(position(&chars_of("a"), &chars_of("ab")), None);
    assert!(has("state = running\n", "state = running"));
    assert!(!has("state = runnin", "state = running"));
    assert!(has("", ""));
    assert!(begins_with("http://x", "http://"));
    assert!(!begins_with("http:/", "http://"));
    assert!(begins_with("x", ""));
    assert!(same("log", "log"));
    assert!(!same("log", "lo"));
    assert!(!same("log", "lag"));
}

#[test]
fn orders_texts_as_the_standard_library_does() {
    let list = ["", "v1", "v10", "v2", "v18.0.0", "v9.0.0", "界", "\u{ffff}", "\u{10000}", "é"];
    for a in list {
        for b in list {
            assert_eq!(comes_before(a, b), a < b, "{} {}", a, b);
        }
    }
}

#[test]
fn lowers_ascii_letters_only() {
    assert_eq!(to_ascii_lower("HTTPS://É.Ab[@`{"), "https://É.ab[@`{");
    for n in 0..0x300u32 {
        let c = char::from_u32(n).unwrap();
        let t = c.to_string();
        assert_eq!(to_ascii_lower(&t), t.to_ascii_lowercase());
    }
}

#[test]
fn joins_with_a_separator() {
    let none: Vec<String> = vec![];
    assert_eq!(joined(&none, ", "), "");
    assert_eq!(joined(&vec!["a".to_string()], ", "), "a");
    assert_eq!(
        joined(&vec!["a".to_string(), "".to_string(), "c".to_string()], ", "),
        "a, , c"
    );
}

#[test]
fn writes_numbers_and_truth_values() {
    for n in [0u64, 9, 10, 11, 99, 100, 1234567890, u64::MAX] {
        assert_eq!(decimal_of(n), n.to_string());
    }
    for n in [0i32, 1, -1, -10, i32::MAX, i32::MIN] {
        assert_eq!(signed_decimal_of(n), n.to_string());
    }
    assert_eq!(truth_of(true), "true");
    assert_eq!(truth_of(false), "false");
}
