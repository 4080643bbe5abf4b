use qemu_console::console::{All, Statistics, Write};
use qemu_console::device::byte_of;
use qemu_console::qemu::{QEMUOutput, QEMUOutputInner};

fn send_through<C: All>(console: &mut C, s: &str) -> Vec<u8> {
    console.write_str(s)
}

#[test]
fn fresh_handle_counts_zero() {
    let out = QEMUOutput::new();
    assert_eq!(out.chars_written(), 0);
}

#[test]
fn newline_gets_carriage_return() {
    let mut out = QEMUOutput::new();
    let sent = out.write_str("hi\n");
    assert_eq!(sent, vec![b'h', b'i', b'\r', b'\n']);
    assert_eq!(out.chars_written(), 3);
}

#[test]
fn serialized_writes_keep_order() {
    let mut out = QEMUOutput::new();
    let mut sent = out.write_str("ab");
    sent.extend(out.write_str("c"));
    assert_eq!(out.chars_written(), 3);
    assert_eq!(sent, vec![b'a', b'b', b'c']);
}

#[test]
fn empty_write_changes_nothing() {
    let mut out = QEMUOutput::new();
    out.write_str("xyz");
    let sent = out.write_str("");
    assert!(sent.is_empty());
    assert_eq!(out.chars_written(), 3);
}

#[test]
fn plain_text_one_byte_per_char() {
    let mut out = QEMUOutput::new();
    let s = "hello, world";
    let sent = out.write_str(s);
    assert_eq!(sent.len(), s.len());
    assert_eq!(sent, s.as_bytes().to_vec());
    assert_eq!(out.chars_written(), 12);
}

#[test]
fn newlines_add_one_byte_each() {
    let mut out = QEMUOutput::new();
    let sent = out.write_str("a\nb\n\n");
    assert_eq!(sent.len(), 5 + 3);
    assert_eq!(sent, vec![b'a', b'\r', b'\n', b'b', b'\r', b'\n', b'\r', b'\n']);
    assert_eq!(out.chars_written(), 5);
}

#[test]
fn carriage_return_alone_is_kept() {
    let mut out = QEMUOutput::new();
    let sent = out.write_str("\r\n");
    assert_eq!(sent, vec![b'\r', b'\r', b'\n']);
    assert_eq!(out.chars_written(), 2);
}

#[test]
fn wide_chars_count_once_and_send_low_byte() {
    let mut out = QEMUOutput::new();
    let sent = out.write_str("é€");
    assert_eq!(sent, vec![0xE9, 0xAC]);
    assert_eq!(out.chars_written(), 2);
}

#[test]
fn byte_is_low_eight_bits() {
    assert_eq!(byte_of('A'), 0x41);
    assert_eq!(byte_of('\u{0141}'), 0x41);
    assert_eq!(byte_of('\u{FF}'), 0xFF);
}

#[test]
fn counter_accumulates_across_writes() {
    let mut out = QEMUOutput::new();
    for _ in 0..10 {
        out.write_str("ab\n");
    }
    assert_eq!(out.chars_written(), 30);
}

#[test]
fn written_through_capability() {
    let mut out = QEMUOutput::new();
    let sent = send_through(&mut out, "ok\n");
    assert_eq!(sent, vec![b'o', b'k', b'\r', b'\n']);
    assert_eq!(out.chars_written(), 3);
}

#[test]
fn inner_state_counts_characters() {
    let mut inner = QEMUOutputInner::new();
    assert_eq!(inner.chars_written(), 0);
    let sent = inner.write_str("x\ny");
    assert_eq!(sent, vec![b'x', b'\r', b'\n', b'y']);
    assert_eq!(inner.chars_written(), 3);
}
