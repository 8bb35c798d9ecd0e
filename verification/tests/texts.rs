use zju_assist::numeral::{i64_text, parse_i64, u64_text};
use zju_assist::text::{
    contains, ends_with, find, from_last_char, is_blank, join, less, replace_char, reversed, same,
    strip_prefix, to_chars, trim, trim_line_ends, trim_slashes, up_to_char, white_space,
};

#[test]
fn white_space_is_that_of_the_standard_library() {
    for code in 0u32..=0x10ffff {
        if let Some(c) = char::from_u32(code) {
            assert_eq!(white_space(c), c.is_whitespace(), "{:x}", code);
        }
    }
}

#[test]
fn texts_are_trimmed_like_the_standard_library_does() {
    for text in ["", " ", "a", " a ", "\t\u{3000}a b\u{a0}\n", "\u{2028}", "ab\u{200b} "] {
        assert_eq!(trim(text), text.trim());
        assert_eq!(is_blank(text), text.trim().is_empty());
    }
    assert_eq!(trim_line_ends("secret \r\n\n"), "secret ");
    assert_eq!(trim_line_ends("\r\n"), "");
    assert_eq!(trim_slashes("wss://host///"), "wss://host");
    assert_eq!(trim_slashes("///"), "");
}

#[test]
fn parts_are_found_where_they_stand_first() {
    assert_eq!(find(&to_chars("课程name=a&name=b"), &to_chars("name=")), Some(2));
    assert_eq!(find(&to_chars("abc"), &to_chars("")), Some(0));
    assert_eq!(find(&to_chars("ab"), &to_chars("abc")), None);
    assert!(contains("统一身份认证平台", "认证"));
    assert!(!contains("abc", "ac"));
    assert!(ends_with("wss://h/glue/ws", "/glue/ws"));
    assert!(!ends_with("ws", "/glue/ws"));
    assert_eq!(strip_prefix("cd1&m{}", "cd1&m"), Some("{}".to_string()));
    assert_eq!(strip_prefix("cd1", "cd1&m"), None);
}

#[test]
fn texts_are_cut_at_characters() {
    assert_eq!(up_to_char("a;b;c", ';'), "a");
    assert_eq!(up_to_char("abc", ';'), "abc");
    assert_eq!(from_last_char("https://h/a/b.png", '/'), "b.png");
    assert_eq!(from_last_char("name", '/'), "name");
    assert_eq!(from_last_char("dir/", '/'), "");
    assert_eq!(replace_char("a/b/c", '/', '-'), "a-b-c");
    assert_eq!(reversed("13800"), "00831");
    assert_eq!(reversed("浙大"), "大浙");
}

#[test]
fn texts_are_joined_and_told_apart() {
    assert_eq!(join(&vec![], "\n"), "");
    assert_eq!(join(&vec!["a".to_string()], "\n"), "a");
    assert_eq!(join(&vec!["a".to_string(), "".to_string(), "b".to_string()], ", "), "a, , b");
    assert!(same("Ω", "Ω"));
    assert!(!same("a", "A"));
}

#[test]
fn the_order_of_texts_is_that_of_the_standard_library() {
    let texts = ["", "A", "AB", "a", "a\u{0}", "z", "é", "浙", "\u{10348}", "\u{ffff}", "10", "9"];
    for a in texts {
        for b in texts {
            assert_eq!(less(a, b), a < b, "{:?} {:?}", a, b);
            for c in texts {
                assert!(!(less(a, b) && less(b, c)) || less(a, c));
            }
        }
    }
}

#[test]
fn numbers_are_written_like_the_standard_library_does() {
    for n in [0, 1, -1, 10, 112, -4096, i64::MAX, i64::MIN] {
        assert_eq!(i64_text(n), n.to_string());
        assert_eq!(parse_i64(&i64_text(n)), Some(n));
    }
    assert_eq!(u64_text(u64::MAX), u64::MAX.to_string());
    assert_eq!(u64_text(0), "0");
}

#[test]
fn numbers_are_read_like_the_standard_library_does() {
    for text in [
        "", "+", "-", "0", "-0", "+7", "007", "12a", " 1", "9223372036854775807",
        "9223372036854775808", "-9223372036854775808", "-9223372036854775809",
        "99999999999999999999999", "١",
    ] {
        assert_eq!(parse_i64(text), text.parse::<i64>().ok(), "{:?}", text);
    }
}
