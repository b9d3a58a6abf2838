use chronos::input::{pop_key, push_key, KeyboardBuffer};
use chronos::keyboard::{key_char, shortcut, Decoded, Key, KeyboardState};
use chronos::fs::deserialize_string;
use chronos::strings::{chars_of, same_text, string_of};
use chronos::text::{
    contains, decimal_string, join, lines, parse_usize, push_decimal_right, push_decimal_zeros,
    push_left, split_whitespace, starts_with, trim,
};

fn cs(s: &str) -> Vec<char> {
    s.chars().collect()
}

fn strs(parts: Vec<Vec<char>>) -> Vec<String> {
    parts.into_iter().map(|p| p.into_iter().collect()).collect()
}

#[test]
fn keyboard_queue_is_first_in_first_out() {
    let mut b = KeyboardBuffer::new();
    assert_eq!(pop_key(&mut b), None);
    push_key(&mut b, 'a');
    push_key(&mut b, 'b');
    assert_eq!(pop_key(&mut b), Some('a'));
    push_key(&mut b, 'c');
    assert_eq!(pop_key(&mut b), Some('b'));
    assert_eq!(pop_key(&mut b), Some('c'));
    assert_eq!(pop_key(&mut b), None);
}

#[test]
fn scancodes_become_characters() {
    let mut k = KeyboardState::new();
    assert_eq!(k.keyboard_interrupt_handler(0x1e), Some('a'));
    assert_eq!(k.keyboard_interrupt_handler(0x9e), None);
    assert_eq!(k.keyboard_interrupt_handler(0x30), Some('b'));
    assert_eq!(k.keyboard_interrupt_handler(0xb0), None);
    assert_eq!(k.keyboard_interrupt_handler(0x1c), Some('\n'));
    assert_eq!(k.keyboard_interrupt_handler(0x9c), None);
    // shift
    assert_eq!(k.keyboard_interrupt_handler(0x2a), None);
    assert!(k.shift_pressed);
    assert_eq!(k.keyboard_interrupt_handler(0x1e), Some('A'));
    assert_eq!(k.keyboard_interrupt_handler(0x9e), None);
    assert_eq!(k.keyboard_interrupt_handler(0xaa), None);
    assert!(!k.shift_pressed);
    // arrow up: extended code
    assert_eq!(k.keyboard_interrupt_handler(0xe0), None);
    assert_eq!(k.keyboard_interrupt_handler(0x48), Some('\u{E000}'));
    assert_eq!(k.keyboard_interrupt_handler(0xe0), None);
    assert_eq!(k.keyboard_interrupt_handler(0xc8), None);
    // the decoder gives the delete key as a character
    assert_eq!(k.keyboard_interrupt_handler(0xe0), None);
    assert_eq!(k.keyboard_interrupt_handler(0x53), Some('\u{7f}'));
    // arrow left
    assert_eq!(k.keyboard_interrupt_handler(0xe0), None);
    assert_eq!(k.keyboard_interrupt_handler(0x4b), Some('\u{E002}'));
}

#[test]
fn control_shift_shortcuts() {
    let mut k = KeyboardState::new();
    assert_eq!(k.keyboard_interrupt_handler(0x1d), None);
    assert!(k.ctrl_pressed);
    assert_eq!(k.keyboard_interrupt_handler(0x2a), None);
    assert_eq!(k.keyboard_interrupt_handler(0x2e), Some('\u{E004}'));
    assert_eq!(k.keyboard_interrupt_handler(0xae), None);
    assert_eq!(k.keyboard_interrupt_handler(0x2f), Some('\u{E005}'));
    assert_eq!(k.keyboard_interrupt_handler(0x9d), None);
    assert!(!k.ctrl_pressed);
    assert_eq!(k.keyboard_interrupt_handler(0x2e), Some('C'));
}

#[test]
fn key_decisions() {
    assert_eq!(key_char(Decoded::Unicode('x')), Some('x'));
    assert_eq!(key_char(Decoded::RawKey(Key::ArrowUp)), Some('\u{E000}'));
    assert_eq!(key_char(Decoded::RawKey(Key::ArrowDown)), Some('\u{E001}'));
    assert_eq!(key_char(Decoded::RawKey(Key::ArrowLeft)), Some('\u{E002}'));
    assert_eq!(key_char(Decoded::RawKey(Key::ArrowRight)), Some('\u{E003}'));
    assert_eq!(key_char(Decoded::RawKey(Key::Delete)), Some('\u{E006}'));
    assert_eq!(key_char(Decoded::RawKey(Key::LShift)), None);
    assert_eq!(key_char(Decoded::RawKey(Key::Other)), None);
    assert_eq!(shortcut(Key::C), Some('\u{E004}'));
    assert_eq!(shortcut(Key::V), Some('\u{E005}'));
    assert_eq!(shortcut(Key::ArrowUp), None);
    let mut k = KeyboardState::new();
    assert_eq!(k.interpret(Key::C, true), None);
    assert_eq!(k.interpret(Key::LControl, true), None);
    assert_eq!(k.interpret(Key::RShift, true), None);
    assert_eq!(k.interpret(Key::C, false), None);
    assert_eq!(k.interpret(Key::C, true), Some('\u{E004}'));
    assert_eq!(k.interpret(Key::Other, true), None);
    assert_eq!(k.interpret(Key::RControl, false), None);
    assert!(!k.ctrl_pressed && k.shift_pressed);
    assert_eq!(k.interpret(Key::V, true), None);
}

#[test]
fn events_are_taken_with_what_the_decoder_made_of_them() {
    let mut k = KeyboardState::new();
    assert!(!k.is_shortcut_event(Key::C, true));
    assert_eq!(k.take_event(Key::C, true, Some(Decoded::Unicode('c'))), Some('c'));
    assert_eq!(k.take_event(Key::Other, true, None), None);
    assert_eq!(k.take_event(Key::ArrowLeft, true, Some(Decoded::RawKey(Key::ArrowLeft))), Some('\u{E002}'));
    assert_eq!(k.take_event(Key::LControl, true, Some(Decoded::RawKey(Key::LControl))), None);
    assert!(k.ctrl_pressed && !k.shift_pressed);
    assert!(!k.is_shortcut_event(Key::C, true));
    assert!(k.is_shortcut_event(Key::LShift, true) == false);
    assert_eq!(k.take_event(Key::C, true, Some(Decoded::Unicode('\u{3}'))), Some('\u{3}'));
    assert_eq!(k.take_event(Key::LShift, true, None), None);
    assert!(k.ctrl_pressed && k.shift_pressed);
    assert!(k.is_shortcut_event(Key::C, true));
    assert!(k.is_shortcut_event(Key::V, true));
    assert!(!k.is_shortcut_event(Key::C, false));
    assert!(!k.is_shortcut_event(Key::Delete, true));
    assert!(!k.is_shortcut_event(Key::RShift, false));
    assert_eq!(k.take_event(Key::C, true, None), Some('\u{E004}'));
    assert_eq!(k.take_event(Key::V, true, Some(Decoded::Unicode('V'))), Some('\u{E005}'));
    assert_eq!(k.take_event(Key::V, false, None), None);
    assert_eq!(k.take_event(Key::Delete, true, Some(Decoded::RawKey(Key::Delete))), Some('\u{E006}'));
    assert_eq!(k.take_event(Key::RShift, false, None), None);
    assert!(k.ctrl_pressed && !k.shift_pressed);
    assert_eq!(k.take_event(Key::C, true, Some(Decoded::Unicode('c'))), Some('c'));
}

#[test]
fn string_helpers() {
    assert_eq!(chars_of("héllo"), cs("héllo"));
    assert_eq!(string_of(&cs("héllo"), 1, 4), "éll");
    assert_eq!(string_of(&cs("abc"), 2, 2), "");
    assert!(same_text("abc", "abc"));
    assert!(!same_text("abc", "abd"));
    assert!(!same_text("abc", "ab"));
}

#[test]
fn stored_strings_are_utf8() {
    let mut offset = 0;
    assert_eq!(deserialize_string(&[3, 0, 0, 0, b'h', 0xc3, 0xa9], &mut offset), Some("hé".to_string()));
    assert_eq!(offset, 7);
    let mut offset = 0;
    assert_eq!(deserialize_string(&[1, 0, 0, 0, 0xff], &mut offset), None);
    let mut offset = 0;
    assert_eq!(deserialize_string(&[0, 0, 0, 0], &mut offset), Some(String::new()));
    assert_eq!(offset, 4);
}

#[test]
fn numbers_and_padding() {
    assert_eq!(decimal_string(0), "0");
    assert_eq!(decimal_string(7), "7");
    assert_eq!(decimal_string(1234567890), "1234567890");
    assert_eq!(decimal_string(u128::MAX), u128::MAX.to_string());
    let mut s = String::from("[");
    push_decimal_right(&mut s, 42, 5);
    push_decimal_right(&mut s, 123456, 3);
    push_decimal_zeros(&mut s, 7, 2);
    push_decimal_zeros(&mut s, 123, 2);
    push_left(&mut s, "ab", 4);
    push_left(&mut s, "abcdef", 4);
    s.push(']');
    assert_eq!(s, "[   4212345607123ab  abcdef]");
}

#[test]
fn trimming_and_splitting() {
    assert_eq!(trim(&cs("  a b \t\n")), cs("a b"));
    assert_eq!(trim(&cs("\u{2003}x\u{a0}")), cs("x"));
    assert_eq!(trim(&cs("   ")), cs(""));
    assert_eq!(trim(&cs("")), cs(""));
    assert_eq!(trim(&cs("x")), cs("x"));
    assert_eq!(strs(split_whitespace(&cs("  ls   -l\t/home \n"))), vec!["ls", "-l", "/home"]);
    assert!(split_whitespace(&cs(" \t ")).is_empty());
    let parts = split_whitespace(&cs("a bb ccc d"));
    assert_eq!(join(&parts, 1, 3), cs("bb ccc"));
    assert_eq!(join(&parts, 0, 4), cs("a bb ccc d"));
    assert_eq!(join(&parts, 2, 2), cs(""));
    assert_eq!(join(&parts, 3, 4), cs("d"));
}

#[test]
fn lines_follow_line_feeds() {
    assert_eq!(strs(lines(&cs("a\nb\r\nc"))), vec!["a", "b", "c"]);
    assert_eq!(strs(lines(&cs("a\n\nb\n"))), vec!["a", "", "b"]);
    assert_eq!(strs(lines(&cs("a\r"))), vec!["a\r"]);
    assert_eq!(strs(lines(&cs("\r\n"))), vec![""]);
    assert_eq!(strs(lines(&cs("a\r\r\nb"))), vec!["a\r", "b"]);
    assert!(lines(&cs("")).is_empty());
    for text in ["a\nb\r\nc", "a\n\nb\n", "a\r", "\r\n", "a\r\r\nb", "", "\n", "x\ny\r"] {
        let expect: Vec<String> = text.lines().map(|l| l.to_string()).collect();
        assert_eq!(strs(lines(&cs(text))), expect, "{text:?}");
    }
}

#[test]
fn searching() {
    assert!(contains(&cs("hello world"), &cs("o w")));
    assert!(contains(&cs("hello"), &cs("")));
    assert!(contains(&cs(""), &cs("")));
    assert!(contains(&cs("hello"), &cs("hello")));
    assert!(contains(&cs("hello"), &cs("lo")));
    assert!(!contains(&cs("hello"), &cs("hello!")));
    assert!(!contains(&cs("hello"), &cs("ol")));
    assert!(starts_with(&cs("Nano - x"), &cs("Nano - ")));
    assert!(!starts_with(&cs("Nano"), &cs("Nano - ")));
    assert!(starts_with(&cs("abc"), &cs("")));
}

#[test]
fn parsing_numbers() {
    assert_eq!(parse_usize(&cs("0")), Some(0));
    assert_eq!(parse_usize(&cs("42")), Some(42));
    assert_eq!(parse_usize(&cs("+42")), Some(42));
    assert_eq!(parse_usize(&cs("007")), Some(7));
    assert_eq!(parse_usize(&cs(&usize::MAX.to_string())), Some(usize::MAX));
    assert_eq!(parse_usize(&cs("18446744073709551616")), None);
    assert_eq!(parse_usize(&cs("99999999999999999999999")), None);
    assert_eq!(parse_usize(&cs("")), None);
    assert_eq!(parse_usize(&cs("+")), None);
    assert_eq!(parse_usize(&cs("-1")), None);
    assert_eq!(parse_usize(&cs("1a")), None);
    assert_eq!(parse_usize(&cs(" 1")), None);
    assert_eq!(parse_usize(&cs("++1")), None);
    for text in ["0", "42", "+42", "007", "", "+", "-1", "1a", " 1", "++1", "18446744073709551615"] {
        assert_eq!(parse_usize(&cs(text)), text.parse::<usize>().ok(), "{text:?}");
    }
}
