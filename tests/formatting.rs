use klog::dump::{hex_dump, hex_dump_block, hex_dump_inline, hex_dump_lines, print_iter, push_decimal_padded, raw_string};
use klog::level::{Colour, Level};

fn text(v: Vec<u8>) -> String {
    String::from_utf8(v).unwrap()
}

#[test]
fn hex_dump_of_seventeen_bytes_is_two_lines() {
    let mut data: Vec<u8> = (0u8..16).collect();
    data.push(0xFF);
    let lines = hex_dump_lines(&data);
    assert_eq!(lines.len(), 2);
    assert_eq!(
        text(lines[0].clone()),
        "00 01 02 03 04 05 06 07  08 09 0a 0b 0c 0d 0e 0f |................|"
    );
    let second = format!("ff {}{}|.{}|", " ".repeat(21), " ".repeat(25), " ".repeat(15));
    assert_eq!(text(lines[1].clone()), second);
}

#[test]
fn hex_dump_block_shows_printable_characters() {
    let line = text(hex_dump_block(b"Hi!\x7f"));
    let expected = format!("48 69 21 7f {}{}|Hi!.{}|", " ".repeat(12), " ".repeat(25), " ".repeat(12));
    assert_eq!(line, expected);
}

#[test]
fn hex_dump_of_nothing_has_no_lines() {
    assert_eq!(hex_dump_lines(&[]).len(), 0);
}

#[test]
fn hex_dump_of_exactly_sixteen_bytes_is_one_line() {
    let data = [0x41u8; 16];
    let lines = hex_dump_lines(&data);
    assert_eq!(lines.len(), 1);
    assert!(text(lines[0].clone()).ends_with("|AAAAAAAAAAAAAAAA|"));
}

#[test]
fn labelled_hex_dump_leads_lines_with_addresses() {
    let data: Vec<u8> = (0u8..20).collect();
    let lines = hex_dump("buf", 0x1000, &data);
    assert_eq!(lines.len(), 3);
    assert_eq!(text(lines[0].clone()), "buf Dump 0x1000+20");
    assert!(text(lines[1].clone()).starts_with("buf 0x1000: 00 01 02"));
    assert!(text(lines[2].clone()).starts_with("buf 0x1010: 10 11 12 13    "));
}

#[test]
fn escaped_string_escapes_tab_and_quote() {
    assert_eq!(text(raw_string(b"a\tb\"c")), "b\"a\\tb\\\"c\"");
}

#[test]
fn escaped_string_escapes_newline_backslash_and_others() {
    assert_eq!(text(raw_string(b"\n\\\x00\xff ~")), "b\"\\n\\\\\\x00\\xff ~\"");
    assert_eq!(text(raw_string(b"")), "b\"\"");
}

#[test]
fn inline_dump_marks_every_sixteenth_byte() {
    assert_eq!(text(hex_dump_inline(&[0xab, 0x01])), "2 bytes: ab 01 ");
    let data = [0u8; 17];
    let out = text(hex_dump_inline(&data));
    let expected = format!("17 bytes: {}| 00 ", "00 ".repeat(16));
    assert_eq!(out, expected);
}

#[test]
fn print_iter_lists_items_in_hex() {
    assert_eq!(text(print_iter(&[255, 0, 4096])), "[ff,0,1000]");
    assert_eq!(text(print_iter(&[])), "[]");
}

#[test]
fn decimal_is_right_aligned() {
    let mut out = Vec::new();
    push_decimal_padded(&mut out, 42, 6);
    assert_eq!(text(out), "    42");
    let mut wide = Vec::new();
    push_decimal_padded(&mut wide, 12345678, 6);
    assert_eq!(text(wide), "12345678");
}

#[test]
fn level_flags_colours_and_values() {
    let all = [
        Level::LevelPanic,
        Level::LevelError,
        Level::LevelWarning,
        Level::LevelNotice,
        Level::LevelInfo,
        Level::LevelLog,
        Level::LevelDebug,
        Level::LevelTrace,
    ];
    let flags: String = all.iter().map(|l| l.to_flag()).collect();
    assert_eq!(flags, "kewnildt");
    for (i, l) in all.iter().enumerate() {
        assert_eq!(l.value() as usize, i);
    }
    assert_eq!(Level::LevelPanic.to_colour(), Colour::Purple);
    assert_eq!(Level::LevelError.to_colour(), Colour::Red);
    assert_eq!(Level::LevelWarning.to_colour(), Colour::Yellow);
    assert_eq!(Level::LevelNotice.to_colour(), Colour::Green);
    assert_eq!(Level::LevelInfo.to_colour(), Colour::Default);
    assert_eq!(Level::LevelLog.to_colour(), Colour::Blue);
    assert_eq!(Level::LevelDebug.to_colour(), Colour::Default);
    assert_eq!(Level::LevelTrace.to_colour(), Colour::Grey);
}
