use dae_scene::text::{
    chars_less,
    chars_text,
    decimal_text,
    find_text,
    parse_unsigned,
    space,
    split_text,
    split_words,
    strip_leading,
    text_before,
    text_chars,
    text_contains,
    text_eq,
};

fn chars(s: &str) -> Vec<char> {
    s.chars().collect()
}

#[test]
fn characters_and_back() {
    assert_eq!(text_chars("aé漢"), vec!['a', 'é', '漢']);
    assert_eq!(chars_text(&chars("hello"), 1, 4), "ell");
    assert_eq!(chars_text(&chars("hello"), 2, 2), "");
}

#[test]
fn equality_of_texts() {
    assert!(text_eq("mesh", "mesh"));
    assert!(!text_eq("mesh", "Mesh"));
    assert!(!text_eq("mesh", "meshes"));
    assert!(text_eq("", ""));
    assert!(text_eq("é", "é"));
}

#[test]
fn separators_are_the_white_space_characters() {
    for c in ['\t', '\n', '\u{b}', '\u{c}', '\r', ' ', '\u{85}', '\u{a0}', '\u{1680}', '\u{2000}', '\u{200a}', '\u{2028}', '\u{2029}', '\u{202f}', '\u{205f}', '\u{3000}'] {
        assert!(space(c), "{:?}", c);
        assert!(c.is_whitespace());
    }
    for c in ['a', '0', '\u{200b}', '\u{feff}', '\u{1f}', '_'] {
        assert!(!space(c), "{:?}", c);
        assert!(!c.is_whitespace());
    }
    for u in 0u32..0x3100 {
        if let Some(c) = char::from_u32(u) {
            assert_eq!(space(c), c.is_whitespace(), "{:x}", u);
        }
    }
}

#[test]
fn words_are_split_as_the_standard_library_splits() {
    for text in ["", "   ", "a", " a  bc\td\n", "1 2 3", "x\u{a0}y\u{3000}z ", "\n\n0.5 -1e3\r\n"] {
        let expected: Vec<String> = text.split_whitespace().map(|w| w.to_string()).collect();
        assert_eq!(split_text(text), expected, "{:?}", text);
        let words: Vec<String> = split_words(&chars(text)).iter().map(|w| w.iter().collect()).collect();
        assert_eq!(words, expected);
    }
}

#[test]
fn unsigned_numbers_are_read_as_the_standard_library_reads() {
    for text in ["0", "7", "42", "007", "+5", "+", "", "-1", "++1", "1a", "a", " 1", "1 ", "4294967295", "4294967296", "18446744073709551615", "18446744073709551616", "99999999999999999999999", "١٢"] {
        let expected32 = text.parse::<u32>().ok().map(|v| v as u64);
        assert_eq!(parse_unsigned(&chars(text), u32::MAX as u64), expected32, "{:?}", text);
        let expected64 = text.parse::<u64>().ok();
        assert_eq!(parse_unsigned(&chars(text), u64::MAX), expected64, "{:?}", text);
    }
    assert_eq!(parse_unsigned(&chars("10"), 9), None);
    assert_eq!(parse_unsigned(&chars("9"), 9), Some(9));
}

#[test]
fn search_finds_a_text_inside_another() {
    assert!(text_contains("skin-joints", "joints"));
    assert!(text_contains("joints", "joints"));
    assert!(!text_contains("joint", "joints"));
    assert!(text_contains("anything", ""));
    assert!(text_contains("", ""));
    assert!(!text_contains("", "a"));
    assert!(!text_contains("Joints", "joints"));
    assert!(find_text(&chars("aab"), &chars("ab")));
    assert!(!find_text(&chars("aab"), &chars("ba")));
}

#[test]
fn leading_characters_are_stripped() {
    assert_eq!(strip_leading("#geom", '#'), "geom");
    assert_eq!(strip_leading("##geom#", '#'), "geom#");
    assert_eq!(strip_leading("geom", '#'), "geom");
    assert_eq!(strip_leading("###", '#'), "");
    assert_eq!(strip_leading("", '#'), "");
}

#[test]
fn dictionary_order_is_the_order_of_strings() {
    let texts = ["", "A", "B", "Hip", "Knee", "a", "ab", "abc", "b", "é", "z", "漢"];
    for a in texts {
        for b in texts {
            assert_eq!(text_before(a, b), a < b, "{:?} < {:?}", a, b);
            assert_eq!(chars_less(&chars(a), &chars(b)), a < b);
        }
    }
}

#[test]
fn decimal_notation() {
    assert_eq!(decimal_text(0), "0");
    assert_eq!(decimal_text(7), "7");
    assert_eq!(decimal_text(10), "10");
    assert_eq!(decimal_text(1203), "1203");
    assert_eq!(decimal_text(u64::MAX), u64::MAX.to_string());
    for n in [0u64, 5, 99, 100, 65535] {
        assert_eq!(parse_unsigned(&chars(&decimal_text(n)), u64::MAX), Some(n));
    }
}
