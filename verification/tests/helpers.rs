use ingles::pattern::{captured_args, match_pattern, pattern_compiles};
use ingles::source::{find_source, is_banned};
use ingles::text::{
    is_space_char, lines_of, push_decimal, push_joined, push_padded_left,
    push_padded_right, push_spaces,
};
use ingles::{include_target, SourceFile};

#[test]
fn white_space_characters() {
    let spaces = [
        '\t', '\n', '\u{b}', '\u{c}', '\r', ' ', '\u{85}', '\u{a0}', '\u{1680}', '\u{2000}',
        '\u{2005}', '\u{200a}', '\u{2028}', '\u{2029}', '\u{202f}', '\u{205f}', '\u{3000}',
    ];
    for c in spaces {
        assert!(is_space_char(c), "{:?}", c);
    }
    for c in ['a', '0', '\u{8}', '\u{e}', '\u{200b}', '\u{feff}', '\u{180e}', '_', '\u{1f}'] {
        assert!(!is_space_char(c), "{:?}", c);
    }
}

#[test]
fn white_space_agrees_with_std() {
    for n in 0..0x11000u32 {
        if let Some(c) = char::from_u32(n) {
            assert_eq!(is_space_char(c), c.is_whitespace(), "{:x}", n);
        }
    }
}

#[test]
fn lines_of_a_text() {
    assert_eq!(lines_of(""), vec![""]);
    assert_eq!(lines_of("a"), vec!["a"]);
    assert_eq!(lines_of("a\nb"), vec!["a", "b"]);
    assert_eq!(lines_of("a\n"), vec!["a", ""]);
    assert_eq!(lines_of("\n\nx\r\n"), vec!["", "", "x\r", ""]);
}

#[test]
fn decimal_numerals() {
    for (n, want) in [
        (0u64, "0"),
        (7, "7"),
        (10, "10"),
        (99, "99"),
        (100, "100"),
        (4294967295, "4294967295"),
        (u64::MAX, "18446744073709551615"),
    ] {
        let mut s = String::from(">");
        push_decimal(&mut s, n);
        assert_eq!(s, format!(">{}", want));
    }
}

#[test]
fn padding() {
    let mut s = String::from("|");
    push_padded_right(&mut s, "ab", 4);
    s.push('|');
    push_padded_left(&mut s, "ab", 4);
    s.push('|');
    push_padded_right(&mut s, "abcdef", 4);
    s.push('|');
    push_padded_left(&mut s, "abcdef", 4);
    s.push('|');
    push_padded_left(&mut s, "", 2);
    s.push('|');
    push_spaces(&mut s, 3);
    s.push('|');
    push_spaces(&mut s, 0);
    assert_eq!(s, "|ab  |  ab|abcdef|abcdef|  |   |");
}

#[test]
fn joining() {
    let mut s = String::from("[");
    push_joined(&mut s, &vec![], ", ");
    s.push(']');
    push_joined(&mut s, &vec!["a".to_string()], ", ");
    s.push(']');
    push_joined(&mut s, &vec!["a".to_string(), "".to_string(), "c".to_string()], ", ");
    assert_eq!(s, "[]a]a, , c");
}

#[test]
fn operands_from_groups() {
    let some = |s: &str| Some(s.to_string());
    assert_eq!(
        captured_args(vec![some("a = b"), some("a"), some("b")], 2, "a = b"),
        Some(vec!["a".to_string(), "b".to_string()])
    );
    assert_eq!(captured_args(vec![some("x")], 0, "x"), Some(vec![]));
    assert_eq!(captured_args(vec![None], 0, ""), None);
    assert_eq!(captured_args(vec![], 0, ""), None);
    assert_eq!(captured_args(vec![some("x"), some("x")], 0, "x"), None);
    assert_eq!(captured_args(vec![some("x"), some("x")], 2, "x"), None);
    assert_eq!(captured_args(vec![some("x"), None], 1, "x"), None);
    assert_eq!(captured_args(vec![some("x"), some("a"), None, some("c")], 3, "x"), None);
    assert_eq!(captured_args(vec![some("x"), some("")], 1, "x"), Some(vec![String::new()]));
    assert_eq!(captured_args(vec![some("x"), some("x")], 1, "xy"), None);
}

#[test]
fn patterns_cover_the_whole_text() {
    assert_eq!(match_pattern("b+", 0, "bbb"), Some(vec![]));
    assert_eq!(match_pattern("b+", 0, "abbb"), None);
    assert_eq!(match_pattern("b+", 0, "bbba"), None);
    assert_eq!(match_pattern("a|ab", 0, "ab"), Some(vec![]));
    assert_eq!(match_pattern("(.+)-(.+)", 2, "a-b-c"), Some(vec!["a-b".to_string(), "c".to_string()]));
    assert_eq!(match_pattern("(.+)-(.+)", 2, "a-b-c\n"), None);
    assert_eq!(match_pattern("(?:x)(y)", 1, "xy"), Some(vec!["y".to_string()]));
    assert_eq!(match_pattern("(x", 0, "(x"), None);
    assert_eq!(match_pattern("a)|(b", 1, "ax"), None);
    assert_eq!(match_pattern("a)|(b", 1, "xb"), None);
}

#[test]
fn patterns_that_compile() {
    assert!(pattern_compiles("(.+) = (.+)"));
    assert!(pattern_compiles(""));
    assert!(!pattern_compiles("("));
    assert!(pattern_compiles("a)|(b"));
    assert!(!pattern_compiles("[z-a]"));
    for rule in ingles::rule_table() {
        assert!(pattern_compiles(&rule.pattern), "{}", rule.pattern);
    }
}

#[test]
fn inclusion_directives() {
    assert_eq!(include_target("#include lib.src"), Some("lib.src".to_string()));
    assert_eq!(include_target("  #include   a   b "), Some("a b".to_string()));
    assert_eq!(include_target("#include"), None);
    assert_eq!(include_target("#include "), None);
    assert_eq!(include_target("x #include y"), None);
    assert_eq!(include_target("#includes y"), None);
}

#[test]
fn lookups() {
    let sources = vec![
        SourceFile { path: "a".to_string(), text: "1".to_string() },
        SourceFile { path: "b".to_string(), text: "2".to_string() },
        SourceFile { path: "a".to_string(), text: "3".to_string() },
    ];
    assert_eq!(find_source(&sources, &"a".to_string()), Some(&"1".to_string()));
    assert_eq!(find_source(&sources, &"b".to_string()), Some(&"2".to_string()));
    assert_eq!(find_source(&sources, &"c".to_string()), None);
    let ban = vec!["x".to_string(), "y".to_string()];
    assert!(is_banned(&ban, &"y".to_string()));
    assert!(!is_banned(&ban, &"z".to_string()));
    assert!(!is_banned(&vec![], &"x".to_string()));
}
