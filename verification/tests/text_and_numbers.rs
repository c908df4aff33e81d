use collection_explorer::assoc::text_less;
use collection_explorer::command::{read_verb, Verb};
use collection_explorer::number::{parse_i32, parse_u32, parse_usize};
use collection_explorer::text::{chars_of, is_whitespace, same_text, split_words};

#[test]
fn white_space_is_what_the_standard_library_says() {
    let mut n: u32 = 0;
    let mut spaces = 0;
    while n <= 0x10FFFF {
        if let Some(c) = char::from_u32(n) {
            assert_eq!(is_whitespace(c), c.is_whitespace(), "code point {:#x}", n);
            if is_whitespace(c) {
                spaces += 1;
            }
        }
        n += 1;
    }
    assert_eq!(spaces, 25);
}

#[test]
fn chars_of_keeps_every_character() {
    assert_eq!(chars_of(""), Vec::<char>::new());
    assert_eq!(chars_of("a b"), vec!['a', ' ', 'b']);
    assert_eq!(chars_of("é✓"), vec!['é', '✓']);
}

#[test]
fn same_text_compares_whole_strings() {
    assert!(same_text("", ""));
    assert!(same_text("add", "add"));
    assert!(!same_text("add", "ad"));
    assert!(!same_text("add", "adD"));
    assert!(!same_text("", "x"));
}

#[test]
fn split_words_takes_maximal_runs() {
    assert_eq!(split_words(""), Vec::<String>::new());
    assert_eq!(split_words(" \t\r\n"), Vec::<String>::new());
    assert_eq!(split_words("add 5"), vec!["add".to_string(), "5".to_string()]);
    assert_eq!(split_words("  add\t\t5  \n"), vec!["add".to_string(), "5".to_string()]);
    assert_eq!(split_words("one"), vec!["one".to_string()]);
    assert_eq!(
        split_words("a\u{00A0}b\u{3000}c"),
        vec!["a".to_string(), "b".to_string(), "c".to_string()]
    );
}

#[test]
fn split_words_agrees_with_the_standard_library() {
    let lines = [
        "",
        " ",
        "x",
        " x",
        "x ",
        "add key 12",
        "\tadd_front   -7\n",
        "ключ 5 значение",
        "a\u{2003}b\u{2028}c\u{205F}d",
        "tab\tsep\u{0B}vt\u{0C}ff\u{85}nel",
    ];
    for line in lines {
        let expected: Vec<String> = line.split_whitespace().map(|w| w.to_string()).collect();
        assert_eq!(split_words(line), expected, "line {:?}", line);
    }
}

#[test]
fn parse_i32_reads_signed_numerals() {
    assert_eq!(parse_i32("0"), Some(0));
    assert_eq!(parse_i32("42"), Some(42));
    assert_eq!(parse_i32("+42"), Some(42));
    assert_eq!(parse_i32("-42"), Some(-42));
    assert_eq!(parse_i32("-0"), Some(0));
    assert_eq!(parse_i32("00012"), Some(12));
    assert_eq!(parse_i32("2147483647"), Some(i32::MAX));
    assert_eq!(parse_i32("-2147483648"), Some(i32::MIN));
    assert_eq!(parse_i32("0000000000000000000000002147483647"), Some(i32::MAX));
}

#[test]
fn parse_i32_rejects_what_is_no_numeral_or_too_large() {
    assert_eq!(parse_i32(""), None);
    assert_eq!(parse_i32("+"), None);
    assert_eq!(parse_i32("-"), None);
    assert_eq!(parse_i32("+-5"), None);
    assert_eq!(parse_i32("--5"), None);
    assert_eq!(parse_i32("5-"), None);
    assert_eq!(parse_i32("1_000"), None);
    assert_eq!(parse_i32("12a"), None);
    assert_eq!(parse_i32("a12"), None);
    assert_eq!(parse_i32("1.5"), None);
    assert_eq!(parse_i32(" 1"), None);
    assert_eq!(parse_i32("٣"), None);
    assert_eq!(parse_i32("2147483648"), None);
    assert_eq!(parse_i32("-2147483649"), None);
    assert_eq!(parse_i32("99999999999999999999999999999999999999999"), None);
    assert_eq!(parse_i32("99999999999999999999999999999999999999999x"), None);
}

#[test]
fn parse_i32_agrees_with_the_standard_library() {
    let words = [
        "", "0", "-0", "+0", "7", "-7", "+7", "007", "-007", "2147483646", "2147483647",
        "2147483648", "-2147483647", "-2147483648", "-2147483649", "4294967296", "1e3", "0x10",
        "١٢", "+", "-", "++1", "1+", "12 ", "3000000000", "-3000000000",
    ];
    for w in words {
        assert_eq!(parse_i32(w), w.parse::<i32>().ok(), "word {:?}", w);
    }
}

#[test]
fn parse_usize_reads_indexes() {
    assert_eq!(parse_usize("0"), Some(0));
    assert_eq!(parse_usize("3"), Some(3));
    assert_eq!(parse_usize("+3"), Some(3));
    assert_eq!(parse_usize("-3"), None);
    assert_eq!(parse_usize("-0"), None);
    assert_eq!(parse_usize(""), None);
    assert_eq!(parse_usize("three"), None);
    let max = format!("{}", usize::MAX);
    assert_eq!(parse_usize(&max), Some(usize::MAX));
    let words = [
        "18446744073709551615",
        "18446744073709551616",
        "4294967295",
        "4294967296",
        "340282366920938463463374607431768211456",
    ];
    for w in words {
        assert_eq!(parse_usize(w), w.parse::<usize>().ok(), "word {:?}", w);
    }
}

#[test]
fn parse_u32_reads_menu_numbers() {
    assert_eq!(parse_u32("0"), Some(0));
    assert_eq!(parse_u32("8"), Some(8));
    assert_eq!(parse_u32("+8"), Some(8));
    assert_eq!(parse_u32("4294967295"), Some(u32::MAX));
    assert_eq!(parse_u32("4294967296"), None);
    assert_eq!(parse_u32("-1"), None);
    assert_eq!(parse_u32("eight"), None);
}

#[test]
fn read_verb_knows_the_twelve_verbs() {
    assert_eq!(read_verb("add"), Some(Verb::Add));
    assert_eq!(read_verb("remove"), Some(Verb::Remove));
    assert_eq!(read_verb("show"), Some(Verb::Show));
    assert_eq!(read_verb("exit"), Some(Verb::Exit));
    assert_eq!(read_verb("add_front"), Some(Verb::AddFront));
    assert_eq!(read_verb("add_back"), Some(Verb::AddBack));
    assert_eq!(read_verb("pop_front"), Some(Verb::PopFront));
    assert_eq!(read_verb("pop_back"), Some(Verb::PopBack));
    assert_eq!(read_verb("get"), Some(Verb::Get));
    assert_eq!(read_verb("contains"), Some(Verb::Contains));
    assert_eq!(read_verb("pop"), Some(Verb::Pop));
    assert_eq!(read_verb("peek"), Some(Verb::Peek));
    assert_eq!(read_verb("Add"), None);
    assert_eq!(read_verb("adds"), None);
    assert_eq!(read_verb(""), None);
}

#[test]
fn text_less_is_the_order_of_strings() {
    let words = ["", "a", "aa", "ab", "b", "B", "a b", "z", "é", "zz", "日本", "~", "10", "9"];
    for x in words {
        for y in words {
            assert_eq!(text_less(x, y), x < y, "{:?} < {:?}", x, y);
        }
    }
}
