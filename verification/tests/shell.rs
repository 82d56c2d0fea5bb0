//! The monitor's line editor and command table.

use opal::monitor::{parse_hex, run_command, Command, Key, LineEditor};
use opal::text::{contains, crlf_bytes, parse_number, position, split_word, starts_with, str_eq, trim};

#[test]
fn commands_are_looked_up() {
    assert!(matches!(run_command(b""), Command::Empty));
    assert!(matches!(run_command(b"   "), Command::Empty));
    assert!(matches!(run_command(b"help"), Command::Help));
    assert!(matches!(run_command(b"  tasks  "), Command::Tasks));
    assert!(matches!(run_command(b"tick"), Command::Tick));
    assert!(matches!(run_command(b"ticks"), Command::Ticks));
    assert!(matches!(run_command(b"ticktest"), Command::Ticktest));
    assert!(matches!(run_command(b"el0"), Command::El0));
    assert!(matches!(run_command(b"el0fault"), Command::El0fault));
    assert!(matches!(run_command(b"brk"), Command::Brk));
    assert!(matches!(run_command(b"unaligned"), Command::Unaligned));
    assert!(matches!(run_command(b"guard"), Command::Guard));
    assert!(matches!(run_command(b"wx"), Command::Wx));
    assert!(matches!(run_command(b"noexec"), Command::Noexec));
    assert!(matches!(run_command(b"low"), Command::Low));
    assert!(matches!(run_command(b"abort"), Command::Abort));
    assert!(matches!(run_command(b"dtb"), Command::Dtb));
    assert!(matches!(run_command(b"tree"), Command::Tree));
    assert!(matches!(run_command(b"fdtcons"), Command::Fdtcons));
    assert!(matches!(run_command(b"spawn2"), Command::Spawn2));
    assert!(matches!(run_command(b"preempt"), Command::Preempt));
    assert!(matches!(run_command(b"ipc"), Command::Ipc));
    assert!(matches!(run_command(b"blkipc"), Command::Blkipc));
    assert!(matches!(run_command(b"sendblk"), Command::Sendblk));
    assert!(matches!(run_command(b"faultkill"), Command::Faultkill));
    assert!(matches!(run_command(b"sleep"), Command::Sleep));
    assert!(matches!(run_command(b"wait"), Command::Wait));
}

#[test]
fn commands_take_arguments() {
    assert!(matches!(run_command(b"svc 7"), Command::Svc(Some(7))));
    assert!(matches!(run_command(b"svc   7  "), Command::Svc(Some(7))));
    assert!(matches!(run_command(b"svc 0x7"), Command::Svc(None)));
    assert!(matches!(run_command(b"svc"), Command::Svc(None)));
    assert!(matches!(
        run_command(b"translate 0xffff000040200000"),
        Command::Translate(Some(0xffff_0000_4020_0000))
    ));
    assert!(matches!(run_command(b"walk 9000000"), Command::Walk(Some(0x900_0000))));
    assert!(matches!(run_command(b"walk"), Command::Walk(None)));
    assert!(matches!(run_command(b"mapdev 0X10"), Command::Mapdev(Some(16))));
}

#[test]
fn unknown_commands_are_named() {
    assert!(matches!(run_command(b"HELP"), Command::Unknown("HELP")));
    assert!(matches!(run_command(b"helpme now"), Command::Unknown("helpme")));
    assert!(matches!(run_command(b"help now"), Command::Help));
}

#[test]
fn a_line_that_is_not_text_is_empty() {
    assert!(matches!(run_command(&[0xFF, b'x']), Command::Empty));
}

#[test]
fn white_space_is_unicode() {
    assert!(matches!(run_command("\u{3000}help\u{a0}".as_bytes()), Command::Help));
    assert_eq!(trim("\t a b \u{2028}\n"), "a b");
    assert_eq!(trim("   "), "");
    assert_eq!(trim(""), "");
    assert_eq!(trim("\u{200b}x"), "\u{200b}x");
}

#[test]
fn words_are_split_at_the_first_blank() {
    assert_eq!(split_word("a b c"), ("a", "b c"));
    assert_eq!(split_word("a  b "), ("a", "b"));
    assert_eq!(split_word("ab"), ("ab", ""));
    assert_eq!(split_word("é x"), ("é", "x"));
}

#[test]
fn hex_numbers() {
    assert_eq!(parse_hex("0xFf"), Some(255));
    assert_eq!(parse_hex("0Xff"), Some(255));
    assert_eq!(parse_hex("ff"), Some(255));
    assert_eq!(parse_hex("ffffffffffffffff"), Some(u64::MAX));
    assert_eq!(parse_hex("10000000000000000"), None);
    assert_eq!(parse_hex("00000000000000000000001"), Some(1));
    assert_eq!(parse_hex("0x"), None);
    assert_eq!(parse_hex(""), None);
    assert_eq!(parse_hex("xyz"), None);
    assert_eq!(parse_hex("0x0x1"), None);
    assert_eq!(parse_hex("0x+1"), Some(1));
    assert_eq!(parse_hex("-1"), None);
}

#[test]
fn decimal_numbers() {
    assert_eq!(parse_number("18446744073709551615", 10), Some(u64::MAX));
    assert_eq!(parse_number("18446744073709551616", 10), None);
    assert_eq!(parse_number("+5", 10), Some(5));
    assert_eq!(parse_number("+", 10), None);
    assert_eq!(parse_number("++5", 10), None);
    assert_eq!(parse_number("1 2", 10), None);
    assert_eq!(parse_number("a", 10), None);
    assert_eq!(parse_number("z", 36), Some(35));
}

#[test]
fn numbers_agree_with_the_standard_library() {
    for s in ["", "0", "+0", "-0", "123", "0123", "1_0", "99999999999999999999", "é"] {
        assert_eq!(parse_number(s, 10), s.parse::<u64>().ok(), "{}", s);
        assert_eq!(parse_number(s, 16), u64::from_str_radix(s, 16).ok(), "{}", s);
    }
}

#[test]
fn typing_edits_a_line() {
    let mut e = LineEditor::new();
    assert!(matches!(e.feed(b'h'), Key::Echo(b'h')));
    assert!(matches!(e.feed(b'x'), Key::Echo(b'x')));
    assert!(matches!(e.feed(0x7f), Key::Erase));
    assert!(matches!(e.feed(b'i'), Key::Echo(b'i')));
    assert!(matches!(e.feed(0x1b), Key::Hex(0x1b)));
    match e.feed(b'\r') {
        Key::Run(line) => assert_eq!(line, b"hi".to_vec()),
        _ => panic!("did not run"),
    }
    assert!(matches!(e.feed(0x08), Key::Ignore));
    match e.feed(b'\n') {
        Key::Run(line) => assert!(line.is_empty()),
        _ => panic!("did not run"),
    }
}

#[test]
fn a_line_holds_sixty_four_characters() {
    let mut e = LineEditor::new();
    for _ in 0..64 {
        assert!(matches!(e.feed(b'a'), Key::Echo(b'a')));
    }
    assert!(matches!(e.feed(b'b'), Key::Ignore));
    match e.feed(b'\r') {
        Key::Run(line) => assert_eq!(line, vec![b'a'; 64]),
        _ => panic!("did not run"),
    }
}

#[test]
fn bytes_and_strings() {
    assert_eq!(crlf_bytes(b"\n\n"), b"\r\n\r\n".to_vec());
    assert_eq!(crlf_bytes(b""), Vec::<u8>::new());
    assert_eq!(position(b"abc", b'c'), 2);
    assert_eq!(position(b"abc", b'd'), 3);
    assert!(starts_with(b"apple,t8103", b"apple,"));
    assert!(!starts_with(b"app", b"apple,"));
    assert!(contains(b"linux,qemu-virt", b"qemu"));
    assert!(contains(b"x", b""));
    assert!(!contains(b"qem", b"qemu"));
    assert!(str_eq("é", "é"));
    assert!(!str_eq("e", "é"));
}

#[test]
fn output_can_be_cut_anywhere() {
    let text: &[u8] = b"one\ntwo\n";
    for cut in 0..text.len() + 1 {
        let mut pieces = crlf_bytes(&text[..cut]);
        pieces.extend(crlf_bytes(&text[cut..]));
        assert_eq!(pieces, b"one\r\ntwo\r\n".to_vec());
    }
}
