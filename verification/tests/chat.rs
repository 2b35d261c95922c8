use smash::chat;
use smash::chat::{message_line, strip_formatting};

#[test]
fn renders_the_vanilla_shape() {
    assert_eq!(chat::line("Andrew", "hello").plain(), "<Andrew> hello");
}

#[test]
fn a_section_sign_in_the_message_is_dropped() {
    assert_eq!(chat::line("Andrew", "\u{a7}kbold").plain(), "<Andrew> kbold");
    assert_eq!(
        chat::line("Andrew", "\u{a7}4[Server] restarting").plain(),
        "<Andrew> 4[Server] restarting"
    );
}

#[test]
fn an_ordinary_message_is_untouched() {
    assert_eq!(
        chat::line("Andrew", "gg <3 100% !").plain(),
        "<Andrew> gg <3 100% !"
    );
}

#[test]
fn the_line_carries_no_style_of_its_own() {
    let text = chat::line("Andrew", "hello");
    assert_eq!(text.color, None);
    assert!(!text.bold);
}

#[test]
fn a_message_of_white_space_says_nothing() {
    assert!(message_line("Andrew", "").is_none());
    assert!(message_line("Andrew", "   ").is_none());
    assert!(message_line("Andrew", "\t \u{3000}").is_none());
}

#[test]
fn a_message_with_words_is_said_as_typed() {
    let said = message_line("Andrew", " hi ").expect("a message with a word in it is said");
    assert_eq!(said.plain(), "<Andrew>  hi ");
}

#[test]
fn stripping_twice_is_stripping_once() {
    let once = strip_formatting("\u{a7}\u{a7}a\u{a7}b\u{a7}");
    assert_eq!(once, "ab");
    assert_eq!(strip_formatting(&once), once);
}

#[test]
fn stripping_keeps_every_other_character() {
    assert_eq!(strip_formatting("h\u{e9}llo w\u{f6}rld"), "h\u{e9}llo w\u{f6}rld");
    assert_eq!(strip_formatting(""), "");
}
