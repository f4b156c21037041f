use header::args::{get_args, resolve, ArgsError, Supplied};
use header::config::Mode;
use header::count::parse_positive_int;

fn words(items: &[&str]) -> Vec<String> {
    items.iter().map(|s| s.to_string()).collect()
}

fn supplied(lines: Option<&str>, bytes: Option<&str>, files: &[&str]) -> Supplied {
    Supplied {
        lines: lines.map(|s| vec![s.to_string()]),
        bytes: bytes.map(|s| vec![s.to_string()]),
        files: if files.is_empty() { None } else { Some(words(files)) },
        version: false,
    }
}

#[test]
fn positive_counts_are_read() {
    assert_eq!(parse_positive_int("1"), Some(1));
    assert_eq!(parse_positive_int("10"), Some(10));
    assert_eq!(parse_positive_int("+7"), Some(7));
    assert_eq!(parse_positive_int("007"), Some(7));
    assert_eq!(parse_positive_int("4294967295"), Some(4294967295));
}

#[test]
fn other_texts_are_no_counts() {
    for bad in ["", "0", "-1", "abc", "+", "++1", "1.5", " 1", "1 ", "1_000", "0x10", "٣"] {
        assert_eq!(parse_positive_int(bad), None, "{:?}", bad);
    }
}

#[test]
fn counts_beyond_the_machine_word_are_refused() {
    let max = usize::MAX.to_string();
    assert_eq!(parse_positive_int(&max), Some(usize::MAX));
    let beyond = format!("{}0", max);
    assert_eq!(parse_positive_int(&beyond), None);
    assert_eq!(parse_positive_int("340282366920938463463374607431768211456"), None);
}

#[test]
fn defaults_apply_where_nothing_is_given() {
    let config = resolve(supplied(None, None, &[])).unwrap();
    assert_eq!(config.files(), &words(&["-"]));
    assert_eq!(config.lines(), 10);
    assert_eq!(config.bytes(), None);
    assert_eq!(config.mode(), Mode::Lines(10));
}

#[test]
fn given_values_are_kept() {
    let config = resolve(supplied(Some("3"), None, &["a", "b"])).unwrap();
    assert_eq!(config.files(), &words(&["a", "b"]));
    assert_eq!(config.mode(), Mode::Lines(3));
    let config = resolve(supplied(None, Some("4"), &["a"])).unwrap();
    assert_eq!(config.lines(), 10);
    assert_eq!(config.bytes(), Some(4));
    assert_eq!(config.mode(), Mode::Bytes(4));
}

#[test]
fn both_counts_are_refused_whatever_they_are() {
    for (l, b) in [("1", "2"), ("0", "2"), ("x", "y"), ("10", "0")] {
        let err = resolve(supplied(Some(l), Some(b), &["a"])).unwrap_err();
        assert_eq!(err, ArgsError::Conflict);
        assert!(err.is_failure());
        assert_eq!(
            err.message(),
            "The argument '--lines <LINES>' cannot be used with '--bytes <BYTES>'"
        );
    }
}

#[test]
fn illegal_counts_name_the_input() {
    for bad in ["0", "-1", "abc"] {
        let err = resolve(supplied(Some(bad), None, &[])).unwrap_err();
        assert_eq!(err, ArgsError::IllegalLines(bad.to_string()));
        assert_eq!(err.message(), format!("Failed to parse lines count: {}", bad));
        assert!(err.is_failure());
        let err = resolve(supplied(None, Some(bad), &[])).unwrap_err();
        assert_eq!(err, ArgsError::IllegalBytes(bad.to_string()));
        assert_eq!(err.message(), format!("Failed to parse bytes count: {}", bad));
    }
}

#[test]
fn command_line_is_read_by_its_options() {
    let config = get_args(&words(&["header", "-n", "3", "one.txt", "two.txt"])).unwrap();
    assert_eq!(config.files(), &words(&["one.txt", "two.txt"]));
    assert_eq!(config.mode(), Mode::Lines(3));
    let config = get_args(&words(&["header", "--bytes", "5", "one.txt"])).unwrap();
    assert_eq!(config.mode(), Mode::Bytes(5));
    let config = get_args(&words(&["header", "--lines=2"])).unwrap();
    assert_eq!(config.files(), &words(&["-"]));
    assert_eq!(config.mode(), Mode::Lines(2));
    let config = get_args(&words(&["header"])).unwrap();
    assert_eq!(config.files(), &words(&["-"]));
    assert_eq!(config.mode(), Mode::Lines(10));
}

#[test]
fn illegal_counts_on_the_command_line_are_refused() {
    for bad in ["0", "-1", "abc"] {
        let err = get_args(&words(&["header", "-n", bad, "one.txt"])).unwrap_err();
        assert_eq!(err, ArgsError::IllegalLines(bad.to_string()));
        assert_eq!(err.message(), format!("Failed to parse lines count: {}", bad));
        assert!(err.is_failure());
        let err = get_args(&words(&["header", "--bytes", bad])).unwrap_err();
        assert_eq!(err, ArgsError::IllegalBytes(bad.to_string()));
        assert_eq!(err.message(), format!("Failed to parse bytes count: {}", bad));
    }
}

#[test]
fn both_counts_on_the_command_line_are_refused() {
    for tokens in [
        ["header", "-n", "1", "-c", "2"],
        ["header", "-c", "2", "-n", "1"],
        ["header", "--lines", "0", "--bytes", "x"],
    ] {
        let err = get_args(&words(&tokens)).unwrap_err();
        assert!(err.is_failure());
        assert!(err
            .message()
            .contains("The argument '--lines <LINES>' cannot be used with '--bytes <BYTES>'"));
    }
}

#[test]
fn what_follows_two_hyphens_is_a_file_name() {
    let config = get_args(&words(&["header", "-c", "3", "--", "-n", "-"])).unwrap();
    assert_eq!(config.files(), &words(&["-n", "-"]));
    assert_eq!(config.mode(), Mode::Bytes(3));
}

#[test]
fn first_of_several_values_counts() {
    let given = Supplied {
        lines: Some(words(&["3", "x"])),
        bytes: Some(Vec::new()),
        files: Some(Vec::new()),
        version: false,
    };
    let config = resolve(given).unwrap();
    assert_eq!(config.mode(), Mode::Lines(3));
    assert_eq!(config.files(), &words(&["-"]));
}

#[test]
fn help_is_no_failure() {
    let err = get_args(&words(&["header", "--help"])).unwrap_err();
    assert!(!err.is_failure());
    assert!(err.message().contains("USAGE"));
    assert!(err.message().contains("Number of lines to show [default: 10]"));
    assert!(err.message().contains("-V, --version    Prints version information"));
    assert!(err.message().starts_with("header 0.1.0\n"));
    let err = get_args(&words(&["header", "-h"])).unwrap_err();
    assert!(!err.is_failure());
    let err = get_args(&words(&["header", "--nothing"])).unwrap_err();
    assert!(err.is_failure());
}

#[test]
fn version_is_no_failure() {
    for flag in ["--version", "-V"] {
        let err = get_args(&words(&["header", flag])).unwrap_err();
        assert_eq!(err, ArgsError::Version);
        assert!(!err.is_failure());
        assert_eq!(err.message(), "header 0.1.0");
    }
}

#[test]
fn version_is_given_only_where_nothing_is_refused() {
    let err = get_args(&words(&["header", "--version", "-n", "3", "f"])).unwrap_err();
    assert_eq!(err, ArgsError::Version);
    let err = get_args(&words(&["header", "--version", "-n", "abc", "f"])).unwrap_err();
    assert_eq!(err, ArgsError::IllegalLines("abc".to_string()));
    let err = get_args(&words(&["header", "-c", "0", "-V"])).unwrap_err();
    assert_eq!(err, ArgsError::IllegalBytes("0".to_string()));
    let err = get_args(&words(&["header", "-V", "-n", "1", "-c", "2"])).unwrap_err();
    assert!(err.is_failure());
    let mut given = supplied(Some("1"), Some("2"), &["a"]);
    given.version = true;
    assert_eq!(resolve(given).unwrap_err(), ArgsError::Conflict);
    let mut given = supplied(None, Some("2"), &["a"]);
    given.version = true;
    assert_eq!(resolve(given).unwrap_err(), ArgsError::Version);
}

#[test]
fn version_after_two_hyphens_is_a_file_name() {
    let config = get_args(&words(&["header", "--", "--version"])).unwrap();
    assert_eq!(config.files(), &words(&["--version"]));
}
