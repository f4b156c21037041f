use header::lines::{line_end, take_bytes, take_lines};

#[test]
fn line_ends_after_its_newline() {
    let text = b"ab\ncd\n\nef";
    assert_eq!(line_end(text, 0), 3);
    assert_eq!(line_end(text, 1), 3);
    assert_eq!(line_end(text, 2), 3);
    assert_eq!(line_end(text, 3), 6);
    assert_eq!(line_end(text, 6), 7);
    assert_eq!(line_end(text, 7), 9);
    assert_eq!(line_end(text, 9), 9);
    assert_eq!(line_end(b"", 0), 0);
}

#[test]
fn first_lines_of_a_longer_text() {
    let text = b"one\ntwo\nthree\nfour\n";
    assert_eq!(take_lines(text, 1), 4);
    assert_eq!(take_lines(text, 2), 8);
    assert_eq!(take_lines(text, 3), 14);
    assert_eq!(&text[..take_lines(text, 2)], b"one\ntwo\n");
}

#[test]
fn all_of_a_shorter_text() {
    let text = b"one\ntwo\n";
    assert_eq!(take_lines(text, 2), text.len());
    assert_eq!(take_lines(text, 3), text.len());
    assert_eq!(take_lines(text, usize::MAX), text.len());
}

#[test]
fn last_line_may_lack_its_newline() {
    let text = b"one\ntwo";
    assert_eq!(take_lines(text, 1), 4);
    assert_eq!(take_lines(text, 2), 7);
    assert_eq!(take_lines(b"Hello", 2), 5);
}

#[test]
fn empty_lines_count_as_lines() {
    let text = b"\n\nx\n";
    assert_eq!(take_lines(text, 1), 1);
    assert_eq!(take_lines(text, 2), 2);
    assert_eq!(take_lines(text, 3), 4);
}

#[test]
fn carriage_returns_stay_in_their_line() {
    let text = b"Three\r\nlines,\r\nfour words.\r\n";
    assert_eq!(&text[..take_lines(text, 2)], b"Three\r\nlines,\r\n");
}

#[test]
fn no_lines_from_nothing() {
    assert_eq!(take_lines(b"", 5), 0);
    assert_eq!(take_lines(b"abc\n", 0), 0);
}

#[test]
fn byte_prefix_is_the_smaller_of_count_and_size() {
    let text = b"hello";
    assert_eq!(take_bytes(text, 0), 0);
    assert_eq!(take_bytes(text, 1), 1);
    assert_eq!(take_bytes(text, 5), 5);
    assert_eq!(take_bytes(text, 6), 5);
    assert_eq!(take_bytes(text, usize::MAX), 5);
    assert_eq!(take_bytes(b"", 4), 0);
}
