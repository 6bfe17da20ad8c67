use net_process::numeral::parse_u64;
use net_process::text::{
    append_chars, chars_of, holds_phrase, is_word, same_text, split, split_lines, split_words,
    string_of, trim, CharClass,
};

fn chars(s: &str) -> Vec<char> {
    s.chars().collect()
}

fn strings(pieces: Vec<&[char]>) -> Vec<String> {
    pieces.into_iter().map(|p| p.iter().collect()).collect()
}

#[test]
fn chars_of_gives_every_character() {
    assert_eq!(chars_of("aé\u{3000}z"), vec!['a', 'é', '\u{3000}', 'z']);
    assert_eq!(chars_of(""), Vec::<char>::new());
}

#[test]
fn string_of_gives_the_characters_back() {
    assert_eq!(string_of(&['a', 'é', ' ', 'z']), "aé z");
    assert_eq!(string_of(&[]), "");
}

#[test]
fn append_chars_extends_the_string() {
    let mut s = String::from("net");
    append_chars(&mut s, &['-', 'p']);
    assert_eq!(s, "net-p");
    append_chars(&mut s, &[]);
    assert_eq!(s, "net-p");
}

#[test]
fn white_space_is_what_unicode_says() {
    let spaces = [
        '\u{9}', '\u{a}', '\u{b}', '\u{c}', '\u{d}', ' ', '\u{85}', '\u{a0}', '\u{1680}',
        '\u{2000}', '\u{2005}', '\u{200a}', '\u{2028}', '\u{2029}', '\u{202f}', '\u{205f}',
        '\u{3000}',
    ];
    for c in spaces {
        assert!(CharClass::Whitespace.holds(c));
        assert!(c.is_whitespace());
    }
    for c in ['a', '0', '\u{8}', '\u{e}', '\u{1f}', '\u{200b}', '\u{180e}', '\u{feff}', '_'] {
        assert!(!CharClass::Whitespace.holds(c));
        assert!(!c.is_whitespace());
    }
    assert!(CharClass::Only(',').holds(','));
    assert!(!CharClass::Only(',').holds(' '));
}

#[test]
fn white_space_agrees_with_the_standard_library_on_every_character() {
    for code in 0..=0x10ffffu32 {
        if let Some(c) = char::from_u32(code) {
            assert_eq!(CharClass::Whitespace.holds(c), c.is_whitespace());
        }
    }
}

#[test]
fn split_keeps_empty_pieces() {
    let text = chars(",a,,b c,");
    assert_eq!(strings(split(&text, CharClass::Only(','))), vec!["", "a", "", "b c", ""]);
    assert_eq!(strings(split(&chars(""), CharClass::Only(','))), vec![""]);
    assert_eq!(strings(split(&chars("abc"), CharClass::Only(','))), vec!["abc"]);
    assert_eq!(strings(split(&chars("a b"), CharClass::Whitespace)), vec!["a", "b"]);
}

#[test]
fn split_agrees_with_the_standard_library() {
    for text in ["", ",", ",,", "a", "a,b", ",a,", "a,,b,", "\"x\",\"y, z\""] {
        let expected: Vec<String> = text.split(',').map(|p| p.to_string()).collect();
        assert_eq!(strings(split(&chars(text), CharClass::Only(','))), expected);
    }
}

#[test]
fn trim_takes_the_class_from_both_ends_only() {
    assert_eq!(string_of(trim(&chars("  a b \t\n"), CharClass::Whitespace)), "a b");
    assert_eq!(string_of(trim(&chars(" \u{a0} "), CharClass::Whitespace)), "");
    assert_eq!(string_of(trim(&chars("\"\"a\"b\""), CharClass::Only('"'))), "a\"b");
    assert_eq!(string_of(trim(&chars("\"\"\""), CharClass::Only('"'))), "");
    assert_eq!(string_of(trim(&chars(""), CharClass::Only('"'))), "");
    assert_eq!(string_of(trim(&chars(" \"a\" "), CharClass::Only('"'))), " \"a\" ");
}

#[test]
fn words_are_the_runs_between_white_space() {
    assert_eq!(strings(split_words(&chars("  Bytes \t 12   34\r\n"))), vec!["Bytes", "12", "34"]);
    assert_eq!(strings(split_words(&chars(" \t "))), Vec::<String>::new());
    assert_eq!(strings(split_words(&chars(""))), Vec::<String>::new());
    assert_eq!(strings(split_words(&chars("one"))), vec!["one"]);
}

#[test]
fn words_agree_with_the_standard_library() {
    for text in ["", " ", "a", " a", "a ", "a  b", "\u{a0}a\u{2003}b\u{3000}", "x\ty\nz\r"] {
        let expected: Vec<String> = text.split_whitespace().map(|p| p.to_string()).collect();
        assert_eq!(strings(split_words(&chars(text))), expected);
    }
}

#[test]
fn lines_are_trimmed_and_blank_ones_left_out() {
    let text = chars("\n  first line \r\n\r\n\t\nsecond\n   \nthird");
    assert_eq!(strings(split_lines(&text)), vec!["first line", "second", "third"]);
    assert_eq!(strings(split_lines(&chars(""))), Vec::<String>::new());
    assert_eq!(strings(split_lines(&chars("\n\n \n"))), Vec::<String>::new());
    assert_eq!(strings(split_lines(&chars("a\rb"))), vec!["a\rb"]);
}

#[test]
fn lines_agree_with_the_standard_library() {
    for text in ["", "\n", "a", "a\n", "a\r\n b \r\n\r\nc", " \n x \n", "a\r", "\r\na\n\n"] {
        let expected: Vec<String> = text
            .lines()
            .map(|line| line.trim())
            .filter(|line| !line.is_empty())
            .map(|line| line.to_string())
            .collect();
        assert_eq!(strings(split_lines(&chars(text))), expected);
    }
}

#[test]
fn phrase_is_found_wherever_it_stands() {
    let line = chars("TCP Statistics for IPv4");
    assert!(holds_phrase(&line, &chars("TCP")));
    assert!(holds_phrase(&line, &chars("IPv4")));
    assert!(holds_phrase(&line, &chars("Statistics for")));
    assert!(holds_phrase(&line, &chars("TCP Statistics for IPv4")));
    assert!(holds_phrase(&line, &chars("")));
    assert!(holds_phrase(&chars(""), &chars("")));
    assert!(!holds_phrase(&line, &chars("IPv4 Statistics")));
    assert!(!holds_phrase(&line, &chars("TCP Statistics for IPv4 ")));
    assert!(!holds_phrase(&line, &chars("tcp")));
    assert!(!holds_phrase(&chars(""), &chars("a")));
    assert!(holds_phrase(&chars("aab"), &chars("ab")));
}

#[test]
fn texts_are_compared_character_by_character() {
    assert!(same_text(&chars("abc"), &chars("abc")));
    assert!(same_text(&chars(""), &chars("")));
    assert!(!same_text(&chars("abc"), &chars("abd")));
    assert!(!same_text(&chars("abc"), &chars("ab")));
    assert!(!same_text(&chars("ab"), &chars("abc")));
    assert!(is_word(&chars("LISTENING"), "LISTENING"));
    assert!(is_word(&chars(""), ""));
    assert!(!is_word(&chars("LISTEN"), "LISTENING"));
    assert!(!is_word(&chars("LISTENING"), "LISTEN"));
    assert!(!is_word(&chars("LiSTENING"), "LISTENING"));
}

#[test]
fn numerals_are_read_as_the_standard_library_reads_them() {
    let cases = [
        "", "0", "7", "007", "+7", "+", "-7", "-0", "++7", "7+", " 7", "7 ", "1_000", "1,052",
        "12a", "a12", "1.0", "٣", "18446744073709551615", "18446744073709551616",
        "+18446744073709551615", "000000000000000000000018446744073709551615",
        "184467440737095516150", "99999999999999999999",
    ];
    for text in cases {
        assert_eq!(parse_u64(&chars(text)), text.parse::<u64>().ok(), "{:?}", text);
    }
}

#[test]
fn numerals_give_their_exact_value() {
    assert_eq!(parse_u64(&chars("1279913096")), Some(1279913096));
    assert_eq!(parse_u64(&chars("18446744073709551615")), Some(u64::MAX));
    assert_eq!(parse_u64(&chars("18446744073709551616")), None);
    assert_eq!(parse_u64(&chars("+0")), Some(0));
    assert_eq!(parse_u64(&chars("N/A")), None);
}
