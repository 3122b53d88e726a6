use ottobangumi::text::{
    chars_of, find_from, is_white_space, join, parse_decimal, parse_number, push_number,
    remove_all, same_text, split_fields, stands_at, starts_with, string_of, strip_wrapped, trim,
    Cut, Wrap,
};
use regex::Regex;

fn owned(parts: &[&str]) -> Vec<String> {
    parts.iter().map(|p| p.to_string()).collect()
}

#[test]
fn white_space_is_the_unicode_property() {
    let mut code: u32 = 0;
    while code <= 0x10ffff {
        if let Some(c) = char::from_u32(code) {
            assert_eq!(is_white_space(c), c.is_whitespace(), "U+{:04X}", code);
        }
        code += 1;
    }
}

#[test]
fn trim_agrees_with_std() {
    let samples = [
        "",
        " ",
        "a",
        "  a b  ",
        "\t\n a\u{3000}",
        "\u{a0}x\u{2003}y\u{2028}",
        "   ",
        "名 字 ",
    ];
    for s in samples {
        assert_eq!(trim(s), s.trim());
    }
}

#[test]
fn chars_and_strings_round_trip() {
    let v = chars_of("a名b");
    assert_eq!(v, vec!['a', '名', 'b']);
    assert_eq!(string_of(&v, 1, 3), "名b");
    assert_eq!(string_of(&v, 2, 2), "");
}

#[test]
fn fields_by_space_agree_with_std() {
    let samples = ["", " ", "a", "  a  b c ", "\ta\u{3000}b\n", "名 字", "a/b c"];
    for s in samples {
        let expected: Vec<String> = s.split_whitespace().map(|w| w.to_string()).collect();
        assert_eq!(split_fields(s, Cut::Space), expected);
    }
}

#[test]
fn fields_by_slash_drop_empty_pieces() {
    assert_eq!(split_fields("/a//b c/", Cut::Slash), owned(&["a", "b c"]));
    assert_eq!(split_fields("abc", Cut::Slash), owned(&["abc"]));
    assert_eq!(split_fields("///", Cut::Slash), Vec::<String>::new());
    assert_eq!(split_fields("", Cut::Slash), Vec::<String>::new());
    assert_eq!(split_fields(" / ", Cut::Slash), owned(&[" ", " "]));
}

#[test]
fn strip_wrapped_by_brackets() {
    assert_eq!(strip_wrapped("[ANi] Name [ANi]", "ANi", Wrap::Brackets), " Name ");
    assert_eq!(strip_wrapped("(ANi) ANi", "ANi", Wrap::Brackets), "(ANi) ANi");
    assert_eq!(strip_wrapped("[ANi", "ANi", Wrap::Brackets), "[ANi");
    assert_eq!(strip_wrapped("[[ANi]]", "ANi", Wrap::Brackets), "[]");
    assert_eq!(strip_wrapped("[]x[]", "", Wrap::Brackets), "x");
    assert_eq!(strip_wrapped("", "a", Wrap::Brackets), "");
}

#[test]
fn strip_wrapped_by_neighbours_agrees_with_pattern() {
    let texts = [
        "",
        "a",
        "xay",
        "aay",
        "xaaay",
        "[番] 名 番 x番",
        "x番\n番y番z",
        "\n番x",
        "（仅限港澳台地区）名（仅限港澳台地区）",
        "abcabcabc",
        "aaaa",
    ];
    let inners = ["a", "番", "仅限港澳台地区", "bc", "aa"];
    for text in texts {
        for inner in inners {
            let pattern = Regex::new(&format!(".{}.", regex::escape(inner))).unwrap();
            let expected = pattern.replace_all(text, "").into_owned();
            assert_eq!(
                strip_wrapped(text, inner, Wrap::Neighbours),
                expected,
                "{:?} without {:?}",
                text,
                inner
            );
        }
    }
}

#[test]
fn remove_all_agrees_with_std() {
    let texts = ["", "a", "abab", "aaa", "xabay", "名字名", "magnet:?xt=urn:btih:abc"];
    let parts = ["a", "ab", "aa", "名", "magnet:?xt=urn:btih:", "zz"];
    for text in texts {
        for part in parts {
            let got: String = remove_all(&chars_of(text), &chars_of(part)).into_iter().collect();
            assert_eq!(got, text.replace(part, ""), "{:?} without {:?}", text, part);
        }
    }
    let kept: String = remove_all(&chars_of("abc"), &chars_of("")).into_iter().collect();
    assert_eq!(kept, "abc");
}

#[test]
fn join_puts_separator_between() {
    let parts = owned(&["a", "b", "c"]);
    assert_eq!(join(&parts, 0, 3, " "), "a b c");
    assert_eq!(join(&parts, 1, 3, ", "), "b, c");
    assert_eq!(join(&parts, 1, 2, " "), "b");
    assert_eq!(join(&parts, 2, 2, " "), "");
}

#[test]
fn numbers_are_read_in_base_ten() {
    assert_eq!(parse_number("0", 127), Some(0));
    assert_eq!(parse_number("007", 127), Some(7));
    assert_eq!(parse_number("127", 127), Some(127));
    assert_eq!(parse_number("128", 127), None);
    assert_eq!(parse_number("", 127), None);
    assert_eq!(parse_number("+1", 127), None);
    assert_eq!(parse_number("-1", 127), None);
    assert_eq!(parse_number("1 ", 127), None);
    assert_eq!(parse_number("１", 127), None);
    assert_eq!(parse_number("65535", 65535), Some(65535));
    assert_eq!(parse_number("65536", 65535), None);
    assert_eq!(parse_number("4294967296", 65535), None);
    let v = chars_of("ab12cd");
    assert_eq!(parse_decimal(&v, 2, 4, 100), Some(12));
    assert_eq!(parse_decimal(&v, 2, 5, 100), None);
    assert_eq!(parse_decimal(&v, 3, 3, 100), None);
}

#[test]
fn numbers_are_written_as_format_writes_them() {
    let samples: [i16; 12] = [0, 1, 9, 10, 11, 99, 100, 32767, -1, -9, -10, -32768];
    for n in samples {
        let mut padded = String::from("x");
        push_number(&mut padded, n, true);
        assert_eq!(padded, format!("x{:02}", n));
        let mut plain = String::new();
        push_number(&mut plain, n, false);
        assert_eq!(plain, format!("{}", n));
    }
}

#[test]
fn prefix_equality_and_search() {
    assert!(starts_with("video.mkv", "video"));
    assert!(starts_with("video", "video"));
    assert!(starts_with("video", ""));
    assert!(!starts_with("vide", "video"));
    assert!(!starts_with("a名", "名"));
    assert!(same_text("名字", "名字"));
    assert!(!same_text("名字", "名"));
    assert!(!same_text("a", "b"));
    assert!(same_text("", ""));
    let v = chars_of("a.b.c");
    assert_eq!(find_from(&v, '.', 0), 1);
    assert_eq!(find_from(&v, '.', 2), 3);
    assert_eq!(find_from(&v, '.', 4), 5);
    assert_eq!(find_from(&v, 'x', 0), 5);
    assert!(stands_at(&v, &chars_of("b.c"), 2));
    assert!(!stands_at(&v, &chars_of("b.c"), 1));
}
