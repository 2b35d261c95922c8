use smash::literal::{is_float, parse_int, parse_long, to_lower};
use smash::text::{
    chars_of, eq_lit, next_word, push_chars, push_decimal, push_signed, push_str, space,
    split_words, string_of, trimmed,
};

fn cs(s: &str) -> Vec<char> {
    s.chars().collect()
}

#[test]
fn whole_numbers_read_as_i32_reads_them() {
    assert_eq!(parse_int(&cs("42")), Some(42));
    assert_eq!(parse_int(&cs("-7")), Some(-7));
    assert_eq!(parse_int(&cs("+3")), Some(3));
    assert_eq!(parse_int(&cs("007")), Some(7));
    assert_eq!(parse_int(&cs("2147483647")), Some(i32::MAX));
    assert_eq!(parse_int(&cs("-2147483648")), Some(i32::MIN));
}

#[test]
fn what_i32_refuses_is_refused() {
    assert_eq!(parse_int(&cs("2147483648")), None);
    assert_eq!(parse_int(&cs("-2147483649")), None);
    assert_eq!(parse_int(&cs("")), None);
    assert_eq!(parse_int(&cs("-")), None);
    assert_eq!(parse_int(&cs("1a")), None);
    assert_eq!(parse_int(&cs("1.0")), None);
    assert_eq!(parse_int(&cs(" 1")), None);
}

#[test]
fn long_numbers_read_as_i64_reads_them() {
    assert_eq!(parse_long(&cs("1767225600")), Some(1_767_225_600));
    assert_eq!(parse_long(&cs("9223372036854775807")), Some(i64::MAX));
    assert_eq!(parse_long(&cs("-9223372036854775808")), Some(i64::MIN));
    assert_eq!(parse_long(&cs("9223372036854775808")), None);
    assert_eq!(parse_long(&cs("12x")), None);
}

#[test]
fn decimals_read_as_f32_reads_them() {
    for word in ["1.5", "-2", ".5", "5.", "1e3", "1E+3", "2.5e-1", "+0", "inf", "-Infinity", "NaN", "INF"] {
        assert!(is_float(&cs(word)), "{word} reads as an f32");
        assert!(word.parse::<f32>().is_ok(), "{word} is what f32 accepts");
    }
}

#[test]
fn what_f32_refuses_is_refused() {
    for word in ["", ".", "e3", "1e", "1.2.3", "ten", "--1", "1 ", "0x10", "infinit"] {
        assert!(!is_float(&cs(word)), "{word:?} does not read as an f32");
        assert!(word.parse::<f32>().is_err(), "{word:?} is what f32 refuses");
    }
}

#[test]
fn lower_casing_touches_only_ascii_capitals() {
    assert_eq!(to_lower('A'), 'a');
    assert_eq!(to_lower('z'), 'z');
    assert_eq!(to_lower('\u{c9}'), '\u{c9}');
    assert_eq!(to_lower('7'), '7');
}

#[test]
fn white_space_is_what_char_calls_white_space() {
    for c in [' ', '\t', '\n', '\r', '\u{b}', '\u{c}', '\u{85}', '\u{a0}', '\u{2003}', '\u{3000}'] {
        assert!(space(c), "{c:?} is white space");
        assert!(c.is_whitespace());
    }
    for c in ['a', '#', '\u{200b}', '_'] {
        assert!(!space(c), "{c:?} is not white space");
        assert!(!c.is_whitespace());
    }
}

#[test]
fn words_split_on_any_run_of_white_space() {
    let line = cs("  box  1\t2 minecraft:stone ");
    let words: Vec<String> = split_words(&line, 0).iter().map(|w| w.iter().collect()).collect();
    assert_eq!(words, vec!["box", "1", "2", "minecraft:stone"]);
    assert!(split_words(&cs("   "), 0).is_empty());
    let tail: Vec<String> = split_words(&line, 5).iter().map(|w| w.iter().collect()).collect();
    assert_eq!(tail, vec!["1", "2", "minecraft:stone"]);
}

#[test]
fn the_next_word_is_found_after_its_spaces() {
    let line = cs("  ab cd");
    assert_eq!(next_word(&line, 0), Some((2, 4)));
    assert_eq!(next_word(&line, 4), Some((5, 7)));
    assert_eq!(next_word(&line, 7), None);
}

#[test]
fn trimming_drops_white_space_at_both_ends() {
    let text = cs("\t  a b \n");
    assert_eq!(trimmed(&text, 0, text.len()), cs("a b"));
    assert_eq!(trimmed(&text, 3, 4), cs("a"));
    assert!(trimmed(&cs("   "), 0, 3).is_empty());
}

#[test]
fn strings_and_characters_go_back_and_forth() {
    assert_eq!(chars_of("h\u{e9}!"), vec!['h', '\u{e9}', '!']);
    assert_eq!(string_of(&cs("h\u{e9}!")), "h\u{e9}!");
    let mut s = String::from("ab");
    push_chars(&mut s, &cs("cd"));
    push_str(&mut s, "ef");
    assert_eq!(s, "abcdef");
    assert!(eq_lit(&cs("name"), "name"));
    assert!(!eq_lit(&cs("names"), "name"));
    assert!(!eq_lit(&cs("nam"), "name"));
}

#[test]
fn numbers_are_written_in_decimal() {
    let mut s = String::new();
    push_decimal(&mut s, 0);
    s.push(' ');
    push_decimal(&mut s, 1234567890123);
    s.push(' ');
    push_signed(&mut s, -45);
    s.push(' ');
    push_signed(&mut s, i64::MIN);
    assert_eq!(s, "0 1234567890123 -45 -9223372036854775808");
}
