use ropey::Rope;
use rsvim_core::buf::opt::{BufferLocalOptions, FileEncoding, DEFAULT_TAB_STOP};
use rsvim_core::buf::unicode::{char_symbol, char_width, char_width_from_columns, str_symbols, str_width};
use rsvim_core::buf::{next_buffer_id, Buffer, BufferIds, BufferStatus};

#[test]
fn next_buffer_id1() {
    let mut ids = BufferIds::new();
    assert!(next_buffer_id(&mut ids) > 0);
}

#[test]
fn buffer_ids_start_at_one_and_differ() {
    let mut ids = BufferIds::new();
    assert_eq!(next_buffer_id(&mut ids), 1);
    assert_eq!(next_buffer_id(&mut ids), 2);
    let first = Buffer::_new_empty(&mut ids, BufferLocalOptions::default());
    let second = Buffer::_new(&mut ids, Rope::from_str("text"), BufferLocalOptions::default());
    assert_eq!(first.id(), 3);
    assert_eq!(second.id(), 4);
    assert!(first != second);
    assert!(first == first);
}

#[test]
fn default_options() {
    let options = BufferLocalOptions::default();
    assert_eq!(options.tab_stop(), 8);
    assert_eq!(DEFAULT_TAB_STOP, 8);
    assert_eq!(options.file_encoding(), FileEncoding::Utf8);
    let mut options = BufferLocalOptions::new(4, FileEncoding::Utf8);
    assert_eq!(options.tab_stop(), 4);
    options.set_tab_stop(2);
    assert_eq!(options.tab_stop(), 2);
}

#[test]
fn buffer_status_values_differ() {
    assert!(BufferStatus::INIT != BufferStatus::CHANGED);
    assert_eq!(BufferStatus::SYNCED, BufferStatus::SYNCED);
}

#[test]
fn buffer_unicode_width1() {
    let mut ids = BufferIds::new();
    let b1 = Buffer::_new_empty(&mut ids, BufferLocalOptions::default());
    assert_eq!(b1.char_width('A'), 1);
    assert_eq!(b1.char_symbol('A'), ("A".to_string(), 1));
    assert_eq!(b1.str_width("ABCDEFG"), 7);
    assert_eq!(b1.str_symbols("ABCDEFG"), ("ABCDEFG".to_string(), 7));
}

#[test]
fn width_of_each_kind_of_character() {
    let options = BufferLocalOptions::default();
    assert_eq!(char_width(&options, '\t'), 8);
    assert_eq!(char_width(&options, '\n'), 0);
    assert_eq!(char_width(&options, '\r'), 0);
    assert_eq!(char_width(&options, '\u{0}'), 2);
    assert_eq!(char_width(&options, '\u{1b}'), 2);
    assert_eq!(char_width(&options, '\u{7f}'), 2);
    assert_eq!(char_width(&options, 'a'), 1);
    assert_eq!(char_width(&options, ' '), 1);
    assert_eq!(char_width(&options, '~'), 1);
    assert_eq!(char_width(&options, '\u{4f60}'), 2);
    assert_eq!(char_width(&options, '\u{ff21}'), 2);
    assert_eq!(char_width(&options, '\u{301}'), 0);
    assert_eq!(char_width(&options, '\u{85}'), 1);
    let narrow = BufferLocalOptions::new(4, FileEncoding::Utf8);
    assert_eq!(char_width(&narrow, '\t'), 4);
    assert_eq!(char_width(&narrow, 'a'), 1);
}

#[test]
fn width_from_the_tables_answer() {
    let options = BufferLocalOptions::default();
    assert_eq!(char_width_from_columns(&options, 'x', Some(2)), 2);
    assert_eq!(char_width_from_columns(&options, 'x', None), 1);
    assert_eq!(char_width_from_columns(&options, '\t', Some(2)), 8);
    assert_eq!(char_width_from_columns(&options, '\n', Some(2)), 0);
    assert_eq!(char_width_from_columns(&options, '\u{1}', Some(5)), 2);
}

#[test]
fn symbol_of_each_kind_of_character() {
    let options = BufferLocalOptions::default();
    assert_eq!(char_symbol(&options, '\t'), ("        ".to_string(), 8));
    assert_eq!(char_symbol(&options, '\n'), ("".to_string(), 0));
    assert_eq!(char_symbol(&options, '\r'), ("".to_string(), 0));
    assert_eq!(char_symbol(&options, '\u{0}'), ("^@".to_string(), 2));
    assert_eq!(char_symbol(&options, '\u{1}'), ("^A".to_string(), 2));
    assert_eq!(char_symbol(&options, '\u{1f}'), ("^_".to_string(), 2));
    assert_eq!(char_symbol(&options, '\u{7f}'), ("^?".to_string(), 2));
    assert_eq!(char_symbol(&options, '\u{4f60}'), ("\u{4f60}".to_string(), 2));
}

#[test]
fn strings_add_up() {
    let options = BufferLocalOptions::default();
    assert_eq!(str_width(&options, ""), 0);
    assert_eq!(str_width(&options, "Hello,\tRSVIM!\n"), 20);
    assert_eq!(str_width(&options, "\u{4f60}\u{597d}, Vim"), 9);
    assert_eq!(
        str_symbols(&options, "a\tb\n"),
        ("a        b".to_string(), 10)
    );
    assert_eq!(str_symbols(&options, "\u{1}x"), ("^Ax".to_string(), 3));
}

#[test]
fn lines_of_a_buffer() {
    let mut ids = BufferIds::new();
    let buffer = Buffer::_new(&mut ids, Rope::from_str("one\ntwo\n"), BufferLocalOptions::default());
    assert_eq!(buffer.len_lines(), 3);
    assert_eq!(buffer.get_line(0).unwrap().len_chars(), 4);
    assert_eq!(buffer.get_line(2).unwrap().len_chars(), 0);
    assert!(buffer.get_line(3).is_none());
    let empty = Buffer::_new_empty(&mut ids, BufferLocalOptions::default());
    assert_eq!(empty.len_lines(), 1);
    assert_eq!(empty.get_line(0).unwrap().len_chars(), 0);
    assert!(empty.get_line(1).is_none());
}

#[test]
fn options_of_a_buffer() {
    let mut ids = BufferIds::new();
    let mut buffer = Buffer::_new_empty(&mut ids, BufferLocalOptions::default());
    assert_eq!(buffer.tab_stop(), 8);
    buffer.set_tab_stop(3);
    assert_eq!(buffer.tab_stop(), 3);
    assert_eq!(buffer.char_width('\t'), 3);
    assert_eq!(buffer.id(), 1);
    buffer.set_options(&BufferLocalOptions::new(5, FileEncoding::Utf8));
    assert_eq!(buffer.options().tab_stop(), 5);
    assert_eq!(buffer.id(), 1);
}

#[test]
fn bytes_become_text() {
    let options = BufferLocalOptions::default();
    assert_eq!(rsvim_core::buf::into_str(&options, b"hello", 5), "hello");
    assert_eq!(rsvim_core::buf::into_str(&options, b"hello", 2), "he");
    assert_eq!(rsvim_core::buf::into_str(&options, b"hello", 0), "");
    assert_eq!(
        rsvim_core::buf::into_str(&options, &[0xe4, 0xbd, 0xa0, b'!'], 4),
        "\u{4f60}!"
    );
    assert_eq!(
        rsvim_core::buf::into_str(&options, &[b'a', 0xff, b'b'], 3),
        "a\u{fffd}b"
    );
}

#[test]
fn bytes_become_lines() {
    let mut ids = BufferIds::new();
    let options = BufferLocalOptions::default();
    let rope = rsvim_core::buf::into_rope(&options, b"one\ntwo\r\nthree", 14);
    let buffer = Buffer::_new(&mut ids, rope, options);
    assert_eq!(buffer.len_lines(), 3);
    assert_eq!(buffer.get_line(0).unwrap().to_string(), "one\n");
    assert_eq!(buffer.get_line(1).unwrap().to_string(), "two\r\n");
    assert_eq!(buffer.get_line(2).unwrap().to_string(), "three");
    let rope = rsvim_core::buf::into_rope(&options, b"one\ntwo", 4);
    assert_eq!(rope.len_lines(), 2);
    assert_eq!(rope.len_chars(), 4);
}

#[test]
fn appended_text_follows_the_buffer() {
    let mut ids = BufferIds::new();
    let mut buffer = Buffer::_new(&mut ids, Rope::from_str("one\ntw"), BufferLocalOptions::default());
    assert_eq!(buffer.len_lines(), 2);
    buffer.append(Rope::from_str("o\nthree\n"));
    assert_eq!(buffer.len_lines(), 4);
    assert_eq!(buffer.get_line(1).unwrap().to_string(), "two\n");
    assert_eq!(buffer.get_line(2).unwrap().to_string(), "three\n");
    assert_eq!(buffer.get_line(3).unwrap().len_chars(), 0);
    assert_eq!(buffer.rope().len_chars(), 14);
    assert_eq!(buffer.id(), 1);
    assert_eq!(buffer.tab_stop(), 8);
}
