use extension_mirror::text::{
    char_is_space, chars_of, decimal_text, join2, split, strip_trailing_slash, trim,
};

#[test]
fn chars_are_in_order() {
    assert_eq!(chars_of("héllo"), vec!['h', 'é', 'l', 'l', 'o']);
    assert_eq!(chars_of(""), Vec::<char>::new());
}

#[test]
fn joining_concatenates() {
    assert_eq!(join2("ab", "cd"), "abcd");
    assert_eq!(join2("", "c"), "c");
}

#[test]
fn decimal_has_no_leading_zeros() {
    assert_eq!(decimal_text(0), "0");
    assert_eq!(decimal_text(7), "7");
    assert_eq!(decimal_text(10), "10");
    assert_eq!(decimal_text(1905), "1905");
    assert_eq!(decimal_text(u64::MAX), "18446744073709551615");
}

#[test]
fn decimal_agrees_with_std_on_many_numbers() {
    let mut n: u64 = 1;
    for _ in 0..200 {
        assert_eq!(decimal_text(n), n.to_string());
        n = n.wrapping_mul(6364136223846793005).wrapping_add(1442695040888963407);
    }
}

#[test]
fn trailing_slash_is_removed_once() {
    assert_eq!(strip_trailing_slash("out/"), "out");
    assert_eq!(strip_trailing_slash("out"), "out");
    assert_eq!(strip_trailing_slash("out//"), "out/");
    assert_eq!(strip_trailing_slash("/"), "");
    assert_eq!(strip_trailing_slash(""), "");
}

#[test]
fn split_keeps_empty_pieces() {
    assert_eq!(split("a,b,c", ','), vec!["a", "b", "c"]);
    assert_eq!(split("", ','), vec![""]);
    assert_eq!(split(",", ','), vec!["", ""]);
    assert_eq!(split("a,,b,", ','), vec!["a", "", "b", ""]);
    assert_eq!(split("no commas", ','), vec!["no commas"]);
}

#[test]
fn split_agrees_with_std() {
    for s in ["", "a", ",a", "a,", "a,b", ",,", "é,ü,", " a , b "] {
        let expected: Vec<String> = s.split(',').map(|p| p.to_string()).collect();
        assert_eq!(split(s, ','), expected);
    }
}

#[test]
fn trim_removes_white_space_at_both_ends() {
    assert_eq!(trim("  a b  "), "a b");
    assert_eq!(trim("\t\na\r\n"), "a");
    assert_eq!(trim(""), "");
    assert_eq!(trim("   "), "");
    assert_eq!(trim("\u{a0}x\u{3000}"), "x");
    assert_eq!(trim("x"), "x");
}

#[test]
fn white_space_is_what_std_calls_white_space() {
    let mut c = 0u32;
    while c <= 0x11000 {
        if let Some(ch) = char::from_u32(c) {
            assert_eq!(char_is_space(ch), ch.is_whitespace());
        }
        c += 1;
    }
}
