use obj_scene::number::{is_real_word, parse_isize, parse_u8};
use obj_scene::text::{is_whitespace, join, lines, split, split_whitespace, to_chars, to_string, word_is};

fn chars(s: &str) -> Vec<char> {
    s.chars().collect()
}

fn strings(words: &[Vec<char>]) -> Vec<String> {
    words.iter().map(|w| w.iter().collect()).collect()
}

#[test]
fn to_chars_keeps_every_character() {
    assert_eq!(to_chars("a b\u{e9}"), vec!['a', ' ', 'b', '\u{e9}']);
    assert_eq!(to_chars(""), Vec::<char>::new());
}

#[test]
fn to_string_is_the_inverse_of_to_chars() {
    assert_eq!(to_string(&chars("initialShadingGroup")), "initialShadingGroup");
    assert_eq!(to_string(&to_chars("na\u{ef}ve")), "na\u{ef}ve");
    assert_eq!(to_string(&Vec::new()), "");
}

#[test]
fn whitespace_is_what_std_calls_whitespace() {
    for code in 0u32..0x3100 {
        if let Some(c) = char::from_u32(code) {
            assert_eq!(is_whitespace(c), c.is_whitespace(), "char {:x}", code);
        }
    }
}

#[test]
fn lines_split_at_line_feeds() {
    assert_eq!(strings(&lines(&chars("a b\nc\n"))), vec!["a b", "c"]);
    assert_eq!(strings(&lines(&chars("a\n\nb"))), vec!["a", "", "b"]);
    assert_eq!(strings(&lines(&chars("\n"))), vec![""]);
    assert_eq!(lines(&chars("")).len(), 0);
}

#[test]
fn lines_keep_the_carriage_return_for_the_word_splitter() {
    let all = lines(&chars("v 1 2 3\r\nf 1 2 3\r\n"));
    assert_eq!(strings(&all), vec!["v 1 2 3\r", "f 1 2 3\r"]);
    assert_eq!(strings(&split_whitespace(&all[0])), vec!["v", "1", "2", "3"]);
}

#[test]
fn words_are_what_std_splits() {
    for text in ["", "   ", "v 1 2 3", "  v\t1  2\u{a0}3  ", "o\u{3000}Foo", "#comment", "a"] {
        let expected: Vec<String> = text.split_whitespace().map(|w| w.to_string()).collect();
        assert_eq!(strings(&split_whitespace(&chars(text))), expected, "text {:?}", text);
    }
}

#[test]
fn split_cuts_at_every_mark() {
    for text in ["1/2/3", "1//3", "1", "", "/", "1/", "/2", "1/2/3/4", "//"] {
        let expected: Vec<String> = text.split('/').map(|w| w.to_string()).collect();
        assert_eq!(strings(&split(&chars(text), '/')), expected, "text {:?}", text);
    }
}

#[test]
fn join_writes_the_words_together() {
    let words = split_whitespace(&chars("Foo Bar  Baz"));
    assert_eq!(join(&words), "FooBarBaz");
    assert_eq!(join(&words[1..]), "BarBaz");
    assert_eq!(join(&words[3..]), "");
}

#[test]
fn word_is_compares_whole_words() {
    assert!(word_is(&chars("usemtl"), "usemtl"));
    assert!(!word_is(&chars("usemt"), "usemtl"));
    assert!(!word_is(&chars("usemtl2"), "usemtl"));
    assert!(!word_is(&chars("v"), "f"));
    assert!(word_is(&chars(""), ""));
}

#[test]
fn real_words_are_what_std_parses_as_a_float() {
    let words = [
        "3.14", "-3.14", "2.5E10", "2.5e-10", "5.", ".5", "0.5", "inf", "-inf", "+infinity", "NaN",
        "nan", "INF", "Infinity", "iNfInItY", "+nan", "-NaN", "0", "-0", "+0.0", "1e5", "1E+5",
        "1e-5", "1.e5", ".5e5", "007", "1e99999", "123456789012345678901234567890", "", ".", "+",
        "-", "e5", "1e", "1e+", "1e-", ".e5", "1.2.3", "0x10", "1_0", " 1", "1 ", "1,5", "--1",
        "+-1", "1e5.5", "infinit", "infinityy", "na", "nanx", "in", "1f", "abc", "1/2", "+.", "-.e1",
        "1e++1", "\u{661}",
    ];
    for word in words {
        assert_eq!(is_real_word(&chars(word)), word.parse::<f32>().is_ok(), "word {:?}", word);
    }
}

#[test]
fn signed_integers_are_what_std_parses() {
    let words = [
        "0", "-0", "+0", "1", "-1", "+5", "007", "-007", "12", "2147483647", "2147483648",
        "-2147483648", "-2147483649", "9223372036854775807", "9223372036854775808",
        "-9223372036854775808", "-9223372036854775809", "99999999999999999999999999", "", "-", "+",
        "12a", "a12", "1.0", "--1", "+-1", "1 ", " 1", "\u{661}",
    ];
    for word in words {
        assert_eq!(parse_isize(&chars(word)), word.parse::<isize>().ok(), "word {:?}", word);
    }
}

#[test]
fn bytes_are_what_std_parses() {
    let words = [
        "0", "1", "2", "255", "256", "0255", "+7", "+255", "+256", "-1", "-0", "", "+", "-", "1a",
        "1.0", "999999999999999999999", "00000000000000000000001",
    ];
    for word in words {
        assert_eq!(parse_u8(&chars(word)), word.parse::<u8>().ok(), "word {:?}", word);
    }
}
