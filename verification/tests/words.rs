use breeding_center::text::chars_of;
use breeding_center::text::decimal_string;
use breeding_center::text::is_space;
use breeding_center::text::push_line;
use breeding_center::text::push_lines;
use breeding_center::text::push_text;
use breeding_center::text::read_unsigned;
use breeding_center::text::split_words;
use breeding_center::text::trimmed;

fn chars(s: &str) -> Vec<char> {
    s.chars().collect()
}

fn text(v: &Vec<char>) -> String {
    v.iter().collect()
}

fn read(s: &str, max: u64) -> Option<u64> {
    read_unsigned(&chars(s), max)
}

#[test]
fn chars_of_gives_every_character() {
    assert_eq!(chars_of(""), Vec::<char>::new());
    assert_eq!(chars_of("a b"), vec!['a', ' ', 'b']);
    assert_eq!(chars_of("Pokémon"), vec!['P', 'o', 'k', 'é', 'm', 'o', 'n']);
}

#[test]
fn white_space_is_what_the_standard_library_says() {
    for code in 0u32..=0x10FFFF {
        if let Some(c) = char::from_u32(code) {
            assert_eq!(is_space(c), c.is_whitespace(), "code point {:#x}", code);
        }
    }
}

#[test]
fn trimming_drops_white_space_at_both_ends() {
    assert_eq!(text(&trimmed(&chars("  12 \n"))), "12");
    assert_eq!(text(&trimmed(&chars("\t 0   1\r\n"))), "0   1");
    assert_eq!(text(&trimmed(&chars("abc"))), "abc");
    assert_eq!(text(&trimmed(&chars(""))), "");
    assert_eq!(text(&trimmed(&chars(" \n\t "))), "");
    assert_eq!(text(&trimmed(&chars("\u{3000}x\u{a0}"))), "x");
}

#[test]
fn trimming_agrees_with_the_standard_library() {
    for s in ["", " ", "a", " a", "a ", " a b ", "\n\n3\n", "\u{2003}7 8\u{85}", "  \u{1680}", "x\u{200b}"] {
        assert_eq!(text(&trimmed(&chars(s))), s.trim());
    }
}

#[test]
fn splitting_finds_the_words() {
    let found: Vec<String> = split_words(&chars(" 0  1\t22 \n")).iter().map(text).collect();
    assert_eq!(found, vec!["0", "1", "22"]);
    assert!(split_words(&chars("")).is_empty());
    assert!(split_words(&chars("  \n ")).is_empty());
    let one: Vec<String> = split_words(&chars("word")).iter().map(text).collect();
    assert_eq!(one, vec!["word"]);
}

#[test]
fn splitting_agrees_with_the_standard_library() {
    for s in ["", "a", " a", "a ", "a b", "  a   bb  ccc ", "1\t2\n3\r4", "x\u{3000}y", "\u{a0}\u{a0}", "a\u{200b}b c"] {
        let found: Vec<String> = split_words(&chars(s)).iter().map(text).collect();
        let expected: Vec<String> = s.split_whitespace().map(|w| w.to_string()).collect();
        assert_eq!(found, expected);
    }
}

#[test]
fn reading_numbers() {
    assert_eq!(read("0", 100), Some(0));
    assert_eq!(read("7", 100), Some(7));
    assert_eq!(read("100", 100), Some(100));
    assert_eq!(read("101", 100), None);
    assert_eq!(read("007", 100), Some(7));
    assert_eq!(read("+5", 100), Some(5));
    assert_eq!(read("+", 100), None);
    assert_eq!(read("", 100), None);
    assert_eq!(read("-1", 100), None);
    assert_eq!(read("++1", 100), None);
    assert_eq!(read("1+", 100), None);
    assert_eq!(read("1a", 100), None);
    assert_eq!(read("a1", 100), None);
    assert_eq!(read(" 1", 100), None);
    assert_eq!(read("1 ", 100), None);
    assert_eq!(read("1.5", 100), None);
    assert_eq!(read("٣", 100), None);
    assert_eq!(read("4294967295", u32::MAX as u64), Some(4294967295));
    assert_eq!(read("4294967296", u32::MAX as u64), None);
    assert_eq!(read("18446744073709551615", u64::MAX), Some(u64::MAX));
    assert_eq!(read("18446744073709551616", u64::MAX), None);
    assert_eq!(read("99999999999999999999999999999999999999999999", u64::MAX), None);
    assert_eq!(read("00000000000000000000000000000000000000000001", 5), Some(1));
}

#[test]
fn reading_agrees_with_the_standard_library() {
    for s in ["", "+", "-", "0", "+0", "-0", "12", "012", "+12", "4294967295", "4294967296", "1_000", "0x10", "1e3", " 3", "3\n", "٣٤", "9999999999"] {
        assert_eq!(read(s, u32::MAX as u64), s.parse::<u32>().ok().map(|n| n as u64), "{:?}", s);
        assert_eq!(read(s, u64::MAX), s.parse::<u64>().ok(), "{:?}", s);
    }
}

#[test]
fn writing_numbers() {
    assert_eq!(decimal_string(0), "0");
    assert_eq!(decimal_string(7), "7");
    assert_eq!(decimal_string(10), "10");
    assert_eq!(decimal_string(100), "100");
    assert_eq!(decimal_string(4294967295), "4294967295");
    assert_eq!(decimal_string(u64::MAX), "18446744073709551615");
    for n in [1u64, 9, 11, 99, 101, 12345, 1000000, 9876543210] {
        assert_eq!(decimal_string(n), n.to_string());
    }
}

#[test]
fn what_is_written_reads_back() {
    for n in [0u64, 1, 9, 10, 42, 999, 1000, 4294967295, u64::MAX] {
        assert_eq!(read(&decimal_string(n), u64::MAX), Some(n));
    }
}

#[test]
fn pushing_lines() {
    let mut lines: Vec<String> = Vec::new();
    push_text(&mut lines, "one");
    push_line(&mut lines, String::from("two"));
    push_lines(&mut lines, vec![String::from("three"), String::from("four")]);
    push_lines(&mut lines, Vec::new());
    assert_eq!(lines, vec!["one", "two", "three", "four"]);
}
