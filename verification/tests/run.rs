use header::config::{Config, Mode};
use header::run::{run, Report, Source};

fn names(items: &[&str]) -> Vec<String> {
    items.iter().map(|s| s.to_string()).collect()
}

fn text(s: &str) -> Source {
    Source::Content(s.as_bytes().to_vec())
}

fn in_lines(files: &[&str], n: usize, sources: Vec<Source>) -> Report {
    run(Config::new(names(files), n, None).unwrap(), &sources)
}

fn in_bytes(files: &[&str], b: usize, sources: Vec<Source>) -> Report {
    run(Config::new(names(files), 10, Some(b)).unwrap(), &sources)
}

fn printed(out: &str) -> Report {
    Report { out: out.as_bytes().to_vec(), err: String::new(), failed: false }
}

#[test]
fn configuration_needs_positive_counts_and_an_input() {
    assert!(Config::new(names(&["a"]), 1, None).is_some());
    assert!(Config::new(names(&["a"]), 0, None).is_none());
    assert!(Config::new(names(&["a"]), 1, Some(0)).is_none());
    assert!(Config::new(names(&[]), 1, None).is_none());
    let config = Config::new(names(&["a"]), 7, Some(3)).unwrap();
    assert_eq!(config.mode(), Mode::Bytes(3));
    assert_eq!(config.lines(), 7);
    assert_eq!(config.bytes(), Some(3));
    assert_eq!(config.files(), &names(&["a"]));
}

#[test]
fn one_line_file_with_two_lines_asked() {
    assert_eq!(in_lines(&["one.txt"], 2, vec![text("Hello\n")]), printed("Hello\n"));
}

#[test]
fn line_without_newline_stays_without() {
    assert_eq!(in_lines(&["one.txt"], 2, vec![text("Hello")]), printed("Hello"));
}

#[test]
fn empty_file_with_four_bytes_asked() {
    assert_eq!(in_bytes(&["empty.txt"], 4, vec![text("")]), printed(""));
}

#[test]
fn two_files_with_one_line_asked() {
    let report = in_lines(&["file1", "file2"], 1, vec![text("a\nb\n"), text("c\nd\n")]);
    assert_eq!(report, printed("==> file1 <==\na\n\n==> file2 <==\nc\n"));
}

#[test]
fn more_lines_than_asked() {
    let report = in_lines(&["f"], 3, vec![text("1\n2\n3\n4\n5\n")]);
    assert_eq!(report, printed("1\n2\n3\n"));
    let report = in_lines(&["f"], 5, vec![text("1\n2\n3\n4\n5\n")]);
    assert_eq!(report, printed("1\n2\n3\n4\n5\n"));
}

#[test]
fn fewer_lines_than_asked() {
    let report = in_lines(&["f"], 6, vec![text("1\n2\n3\n4\n5\n")]);
    assert_eq!(report, printed("1\n2\n3\n4\n5\n"));
}

#[test]
fn byte_output_is_as_long_as_the_smaller_of_count_and_size() {
    for (b, expected) in [(1, "a"), (3, "abc"), (5, "abcde"), (6, "abcde"), (100, "abcde")] {
        let report = in_bytes(&["f"], b, vec![text("abcde")]);
        assert_eq!(report, printed(expected));
        assert_eq!(report.out.len(), b.min(5));
    }
}

#[test]
fn byte_cut_inside_a_character_is_replaced() {
    let report = in_bytes(&["f"], 1, vec![text("é")]);
    assert_eq!(report, printed("\u{fffd}"));
    assert_eq!(report.out.len(), 3);
    let report = in_bytes(&["f"], 2, vec![text("é")]);
    assert_eq!(report, printed("é"));
}

#[test]
fn output_is_text_whatever_the_bytes() {
    let junk: Vec<u8> = (0..=255).rev().collect();
    for b in [1, 2, 3, 7, 64, 200, 256, 300] {
        let report = in_bytes(&["f"], b, vec![Source::Content(junk.clone())]);
        assert!(std::str::from_utf8(&report.out).is_ok());
        assert!(!report.failed);
    }
    let report = in_lines(&["a", "b"], 2, vec![Source::Content(junk), text("x\n")]);
    assert!(std::str::from_utf8(&report.out).is_ok());
    assert!(report.failed);
}

#[test]
fn bytes_that_are_no_text_are_replaced() {
    let report = in_bytes(&["f"], 4, vec![Source::Content(vec![b'a', 0xff, b'b', b'c', b'd'])]);
    assert_eq!(report, printed("a\u{fffd}bc"));
}

#[test]
fn missing_file_among_others() {
    let report = in_lines(
        &["a.txt", "gone.txt", "c.txt"],
        2,
        vec![text("1\n2\n3\n"), Source::Unreadable, text("x\n")],
    );
    assert_eq!(
        String::from_utf8(report.out).unwrap(),
        "==> a.txt <==\n1\n2\n\n==> c.txt <==\nx\n"
    );
    assert_eq!(report.err, "gone.txt: Failed to open file: gone.txt\n");
    assert!(!report.failed);
}

#[test]
fn missing_first_file_leaves_the_empty_line() {
    let report = in_lines(&["gone", "b"], 1, vec![Source::Unreadable, text("x\n")]);
    assert_eq!(String::from_utf8(report.out).unwrap(), "\n==> b <==\nx\n");
    assert_eq!(report.err, "gone: Failed to open file: gone\n");
}

#[test]
fn only_missing_files() {
    let report = in_bytes(&["x", "y"], 3, vec![Source::Unreadable, Source::Unreadable]);
    assert_eq!(report.out, b"");
    assert_eq!(report.err, "x: Failed to open file: x\ny: Failed to open file: y\n");
    assert!(!report.failed);
}

#[test]
fn input_without_a_source_counts_as_missing() {
    let report = in_lines(&["a", "b"], 1, vec![text("1\n")]);
    assert_eq!(String::from_utf8(report.out).unwrap(), "==> a <==\n1\n");
    assert_eq!(report.err, "b: Failed to open file: b\n");
    let report = in_lines(&["a"], 1, vec![text("1\n"), text("2\n")]);
    assert_eq!(report, printed("1\n"));
}

#[test]
fn line_that_is_no_text_fails_the_run() {
    let bad = Source::Content(vec![b'o', b'k', b'\n', 0xff, b'\n', b'x', b'\n']);
    let report = in_lines(&["a", "b"], 3, vec![bad, text("never\n")]);
    assert_eq!(String::from_utf8(report.out).unwrap(), "==> a <==\nok\n");
    assert_eq!(report.err, "stream did not contain valid UTF-8\n");
    assert!(report.failed);
}

#[test]
fn line_that_is_no_text_beyond_the_count_is_not_read() {
    let bad = Source::Content(vec![b'o', b'k', b'\n', 0xff, b'\n']);
    let report = in_lines(&["a"], 1, vec![bad]);
    assert_eq!(report, printed("ok\n"));
}

#[test]
fn text_beyond_ascii_passes_in_line_mode() {
    let report = in_lines(&["a"], 1, vec![text("Öne line, four words.\nmore\n")]);
    assert_eq!(report, printed("Öne line, four words.\n"));
}

#[test]
fn standard_input_is_announced_by_its_placeholder() {
    let report = in_lines(&["-", "f"], 1, vec![text("in\n"), text("file\n")]);
    assert_eq!(report, printed("==> - <==\nin\n\n==> f <==\nfile\n"));
}
