use dht_storage::text::{
    bytes_to_text, chars_of, decimal_string, parse_u64, parse_usize, split_on, split_whitespace,
};

#[test]
fn chars_of_keeps_every_character() {
    assert_eq!(chars_of("a_b"), vec!['a', '_', 'b']);
    assert_eq!(chars_of(""), Vec::<char>::new());
    assert_eq!(chars_of("héé"), vec!['h', 'é', 'é']);
}

#[test]
fn decimal_string_writes_shortest_numerals() {
    assert_eq!(decimal_string(0), "0");
    assert_eq!(decimal_string(7), "7");
    assert_eq!(decimal_string(10), "10");
    assert_eq!(decimal_string(1200), "1200");
    assert_eq!(decimal_string(usize::MAX), usize::MAX.to_string());
}

#[test]
fn parse_usize_reads_plain_numerals() {
    assert_eq!(parse_usize("0"), Some(0));
    assert_eq!(parse_usize("3"), Some(3));
    assert_eq!(parse_usize("007"), Some(7));
    assert_eq!(parse_usize("1200"), Some(1200));
}

#[test]
fn parse_usize_accepts_a_leading_plus() {
    assert_eq!(parse_usize("+5"), Some(5));
    assert_eq!(parse_usize("+"), None);
    assert_eq!(parse_usize("++5"), None);
}

#[test]
fn parse_usize_rejects_what_is_no_count() {
    assert_eq!(parse_usize(""), None);
    assert_eq!(parse_usize("-1"), None);
    assert_eq!(parse_usize("12a"), None);
    assert_eq!(parse_usize(" 12"), None);
    assert_eq!(parse_usize("1_000"), None);
    assert_eq!(parse_usize("total"), None);
    assert_eq!(parse_usize("٣"), None);
}

#[test]
fn parse_usize_stops_at_the_machine_word() {
    let max = usize::MAX.to_string();
    assert_eq!(parse_usize(&max), Some(usize::MAX));
    assert_eq!(parse_usize("340282366920938463463374607431768211456"), None);
    assert_eq!(parse_usize("18446744073709551616"), None);
}

#[test]
fn parse_u64_agrees_with_the_standard_parser() {
    for text in ["0", "42", "+42", "18446744073709551615", "18446744073709551616", "", "x", "4 2"] {
        assert_eq!(parse_u64(text), text.parse::<u64>().ok(), "{}", text);
    }
}

#[test]
fn parse_reads_back_what_decimal_string_writes() {
    for n in [0usize, 1, 9, 10, 99, 100, 499, 500, 501, 65535, usize::MAX] {
        assert_eq!(parse_usize(&decimal_string(n)), Some(n));
    }
}

#[test]
fn split_on_keeps_empty_pieces() {
    assert_eq!(split_on("foo", '_'), vec!["foo".to_string()]);
    assert_eq!(split_on("doc_total", '_'), vec!["doc".to_string(), "total".to_string()]);
    assert_eq!(
        split_on("doc_1_3", '_'),
        vec!["doc".to_string(), "1".to_string(), "3".to_string()]
    );
    assert_eq!(split_on("_", '_'), vec![String::new(), String::new()]);
    assert_eq!(split_on("", '_'), vec![String::new()]);
    assert_eq!(
        split_on("a__b_", '_'),
        vec!["a".to_string(), String::new(), "b".to_string(), String::new()]
    );
}

#[test]
fn split_on_agrees_with_the_standard_split() {
    for text in ["", "_", "a", "a_b", "_a_", "a_b_c_d", "é_ü", "__"] {
        let expected: Vec<String> = text.split('_').map(|p| p.to_string()).collect();
        assert_eq!(split_on(text, '_'), expected, "{}", text);
    }
}

#[test]
fn split_whitespace_gives_the_tokens() {
    assert_eq!(split_whitespace(""), Vec::<String>::new());
    assert_eq!(split_whitespace("   \t "), Vec::<String>::new());
    assert_eq!(split_whitespace("help"), vec!["help".to_string()]);
    assert_eq!(
        split_whitespace("  put   foo\thello \n"),
        vec!["put".to_string(), "foo".to_string(), "hello".to_string()]
    );
}

#[test]
fn split_whitespace_agrees_with_the_standard_split() {
    for text in ["", " ", "a", " a b ", "a\u{a0}b", "x\u{3000}y  z", "\tget -f k p s\r\n"] {
        let expected: Vec<String> = text.split_whitespace().map(|p| p.to_string()).collect();
        assert_eq!(split_whitespace(text), expected, "{:?}", text);
    }
}

#[test]
fn bytes_to_text_decodes_utf8_and_repairs_the_rest() {
    assert_eq!(bytes_to_text(b"hello"), "hello");
    assert_eq!(bytes_to_text("héllo".as_bytes()), "héllo");
    assert_eq!(bytes_to_text(&[0x66, 0xff, 0x6f]), "f\u{fffd}o");
    assert_eq!(bytes_to_text(&[]), "");
}

#[test]
fn every_white_space_character_separates_tokens() {
    let spaces = [
        '\u{9}', '\u{A}', '\u{B}', '\u{C}', '\u{D}', ' ', '\u{85}', '\u{A0}', '\u{1680}',
        '\u{2000}', '\u{2001}', '\u{2002}', '\u{2003}', '\u{2004}', '\u{2005}', '\u{2006}',
        '\u{2007}', '\u{2008}', '\u{2009}', '\u{200A}', '\u{2028}', '\u{2029}', '\u{202F}',
        '\u{205F}', '\u{3000}',
    ];
    assert_eq!(spaces.len(), 25);
    for code in 0..=0x10FFFFu32 {
        if let Some(c) = char::from_u32(code) {
            let text = String::from(c);
            assert_eq!(split_whitespace(&text).is_empty(), spaces.contains(&c), "{:?}", c);
        }
    }
}
