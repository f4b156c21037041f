//! From what a command line supplied to a validated configuration.

use clap::{App, Arg};
use vstd::prelude::*;
use crate::config::{Config, ConfigView, DEFAULT_LINES};
use crate::count::{parse_positive_int, positive_count};

verus! {

/// What a command line gave for each argument, before any of it is looked
/// at. `None` stands for an argument that does not occur.
#[derive(Debug, PartialEq, Eq)]
pub struct Supplied {
    pub lines: Option<Vec<String>>,
    pub bytes: Option<Vec<String>>,
    pub files: Option<Vec<String>>,
    /// Whether the version text was asked for.
    pub version: bool,
}

/// The mathematical content of a [`Supplied`].
pub struct SuppliedView {
    pub lines: Option<Seq<Seq<char>>>,
    pub bytes: Option<Seq<Seq<char>>>,
    pub files: Option<Seq<Seq<char>>>,
    pub version: bool,
}

impl View for Supplied {
    type V = SuppliedView;

    open spec fn view(&self) -> SuppliedView {
        SuppliedView {
            lines: self.lines.deep_view(),
            bytes: self.bytes.deep_view(),
            files: self.files.deep_view(),
            version: self.version,
        }
    }
}

/// Why no configuration could be made.
#[derive(Debug, PartialEq, Eq)]
pub enum ArgsError {
    /// The command line could not be read as options and file names, or it
    /// asked for the help text. `failure` tells the two apart.
    Usage { message: String, failure: bool },
    /// The command line asked for the version text.
    Version,
    /// A line count and a byte count were both given.
    Conflict,
    /// The value given as the line count is no positive integer.
    IllegalLines(String),
    /// The value given as the byte count is no positive integer.
    IllegalBytes(String),
}

/// The mathematical content of an [`ArgsError`].
pub enum ArgsErrorView {
    Usage { message: Seq<char>, failure: bool },
    Version,
    Conflict,
    IllegalLines(Seq<char>),
    IllegalBytes(Seq<char>),
}

impl View for ArgsError {
    type V = ArgsErrorView;

    open spec fn view(&self) -> ArgsErrorView {
        match self {
            ArgsError::Usage { message, failure } => ArgsErrorView::Usage {
                message: message@,
                failure: *failure,
            },
            ArgsError::Version => ArgsErrorView::Version,
            ArgsError::Conflict => ArgsErrorView::Conflict,
            ArgsError::IllegalLines(s) => ArgsErrorView::IllegalLines(s@),
            ArgsError::IllegalBytes(s) => ArgsErrorView::IllegalBytes(s@),
        }
    }
}

/// The value that counts for an argument: the first one given, if any.
pub open spec fn given(values: Option<Seq<Seq<char>>>) -> Option<Seq<char>> {
    match values {
        Some(vs) => if vs.len() > 0 {
            Some(vs[0])
        } else {
            None
        },
        None => None,
    }
}

/// The name that stands for standard input.
pub open spec fn placeholder() -> Seq<char> {
    seq!['-']
}

/// The inputs of a run: the names given, or the placeholder alone.
pub open spec fn resolved_files(values: Option<Seq<Seq<char>>>) -> Seq<Seq<char>> {
    match values {
        Some(vs) => if vs.len() > 0 {
            vs
        } else {
            seq![placeholder()]
        },
        None => seq![placeholder()],
    }
}

/// The configuration that `s` stands for, or the reason why it stands for
/// none. A line count beside a byte count is refused whatever the two values
/// are; then the line count is checked, then the byte count. A request for
/// the version text is answered only where nothing is refused.
pub open spec fn resolve_spec(s: SuppliedView) -> Result<ConfigView, ArgsErrorView> {
    match counts_spec(s) {
        Ok(config) => if s.version {
            Err(ArgsErrorView::Version)
        } else {
            Ok(config)
        },
        Err(e) => Err(e),
    }
}

/// The configuration that the counts and file names of `s` stand for.
pub open spec fn counts_spec(s: SuppliedView) -> Result<ConfigView, ArgsErrorView> {
    match (given(s.lines), given(s.bytes)) {
        (Some(_), Some(_)) => Err(ArgsErrorView::Conflict),
        (Some(l), None) => match positive_count(l) {
            Some(n) => Ok(ConfigView { files: resolved_files(s.files), lines: n, bytes: None }),
            None => Err(ArgsErrorView::IllegalLines(l)),
        },
        (None, Some(b)) => match positive_count(b) {
            Some(n) => Ok(
                ConfigView { files: resolved_files(s.files), lines: DEFAULT_LINES, bytes: Some(n) },
            ),
            None => Err(ArgsErrorView::IllegalBytes(b)),
        },
        (None, None) => Ok(
            ConfigView { files: resolved_files(s.files), lines: DEFAULT_LINES, bytes: None },
        ),
    }
}

/// `r` and `expected` are the same outcome.
pub open spec fn same_outcome(
    r: Result<Config, ArgsError>,
    expected: Result<ConfigView, ArgsErrorView>,
) -> bool {
    match (r, expected) {
        (Ok(c), Ok(v)) => c@ == v,
        (Err(e), Err(v)) => e@ == v,
        _ => false,
    }
}

/// The first of the values given for an argument.
fn first_given(values: &Option<Vec<String>>) -> (r: Option<String>)
    ensures
        r.deep_view() == given(values.deep_view()),
{
    match values {
        Some(vs) => {
            if vs.len() > 0 {
                let s = vs[0].clone();
                assert(vs.deep_view()[0] == vs[0]@);
                Some(s)
            } else {
                None
            }
        },
        None => None,
    }
}

/// The inputs of a run.
fn files_or_placeholder(values: Option<Vec<String>>) -> (r: Vec<String>)
    ensures
        r.deep_view() == resolved_files(values.deep_view()),
{
    match values {
        Some(vs) => {
            if vs.len() > 0 {
                return vs;
            }
        },
        None => {},
    }
    let mut only: Vec<String> = Vec::new();
    only.push("-".to_owned());
    proof {
        reveal_strlit("-");
        assert("-"@ =~= placeholder());
        assert(only.deep_view() =~= seq![placeholder()]);
    }
    only
}

/// Validates what a command line supplied.
pub fn resolve(supplied: Supplied) -> (r: Result<Config, ArgsError>)
    ensures
        same_outcome(r, resolve_spec(supplied@)),
{
    let lines = first_given(&supplied.lines);
    let bytes = first_given(&supplied.bytes);
    let (count, limit): (usize, Option<usize>) = match (lines, bytes) {
        (Some(_), Some(_)) => {
            return Err(ArgsError::Conflict);
        },
        (Some(l), None) => match parse_positive_int(l.as_str()) {
            Some(n) => (n, None),
            None => {
                return Err(ArgsError::IllegalLines(l));
            },
        },
        (None, Some(b)) => match parse_positive_int(b.as_str()) {
            Some(n) => (DEFAULT_LINES, Some(n)),
            None => {
                return Err(ArgsError::IllegalBytes(b));
            },
        },
        (None, None) => (DEFAULT_LINES, None),
    };
    if supplied.version {
        return Err(ArgsError::Version);
    }
    let files = files_or_placeholder(supplied.files);
    Ok(Config::assemble(files, count, limit))
}

impl ArgsErrorView {
    /// The one line that tells the user what went wrong.
    pub open spec fn message(self) -> Seq<char> {
        match self {
            ArgsErrorView::Usage { message, .. } => message,
            ArgsErrorView::Version => "header 0.1.0"@,
            ArgsErrorView::Conflict =>
                "The argument '--lines <LINES>' cannot be used with '--bytes <BYTES>'"@,
            ArgsErrorView::IllegalLines(s) => "Failed to parse lines count: "@ + s,
            ArgsErrorView::IllegalBytes(s) => "Failed to parse bytes count: "@ + s,
        }
    }

    /// Whether the run has failed. Only a request for the help or version
    /// text has not.
    pub open spec fn is_failure(self) -> bool {
        match self {
            ArgsErrorView::Usage { failure, .. } => failure,
            ArgsErrorView::Version => false,
            _ => true,
        }
    }
}

impl ArgsError {
    /// The text to show the user. It names the offending value where there
    /// is one.
    pub fn message(&self) -> (r: String)
        ensures
            r@ == self@.message(),
    {
        match self {
            ArgsError::Usage { message, .. } => message.clone(),
            ArgsError::Version => "header 0.1.0".to_owned(),
            ArgsError::Conflict => {
                "The argument '--lines <LINES>' cannot be used with '--bytes <BYTES>'".to_owned()
            },
            ArgsError::IllegalLines(s) => {
                "Failed to parse lines count: ".to_owned().concat(s.as_str())
            },
            ArgsError::IllegalBytes(s) => {
                "Failed to parse bytes count: ".to_owned().concat(s.as_str())
            },
        }
    }

    /// Whether the text belongs on standard error and the process status is
    /// to be 1, rather than standard output and 0.
    pub fn is_failure(&self) -> (r: bool)
        ensures
            r == self@.is_failure(),
    {
        match self {
            ArgsError::Usage { failure, .. } => *failure,
            ArgsError::Version => false,
            _ => true,
        }
    }
}

/// What clap's parser makes of a command line, the program's name first, with
/// the options `-n`/`--lines` and `-c`/`--bytes`, the flag `-V`/`--version`
/// and any number of file names declared: what is given for each of the
/// four, or, where clap refuses the command line or answers it with the help
/// text, whether that is a failure.
pub uninterp spec fn command_line(tokens: Seq<Seq<char>>) -> Result<SuppliedView, bool>;

/// `r` is the outcome `expected`, with whatever text clap wrote.
pub open spec fn parse_agrees(
    r: Result<Supplied, ArgsError>,
    expected: Result<SuppliedView, bool>,
) -> bool {
    match (r, expected) {
        (Ok(s), Ok(v)) => s@ == v,
        (Err(ArgsError::Usage { failure, .. }), Err(f)) => failure == f,
        _ => false,
    }
}

/// Hands `tokens` to `clap::App::get_matches_from_safe`, with the four
/// arguments declared on the `App`, and reads the matches with
/// `ArgMatches::values_of_lossy` and `ArgMatches::is_present`. The version
/// flag is declared here like the others, so that clap builds none of its
/// own and writes nothing during the call. Trusted: whether clap accepts the
/// tokens, what it then holds for each argument, and else whether its
/// `Error::use_stderr` is set, depend on the tokens alone. A refusal comes
/// back as `ArgsError::Usage` with clap's text, of which nothing is claimed.
#[verifier::external_body]
fn parse_command_line(tokens: &Vec<String>) -> (r: Result<Supplied, ArgsError>)
    ensures
        parse_agrees(r, command_line(tokens.deep_view())),
{
    App::new("header").version("0.1.0").about("Rust version of the 'head' command").args(&[
        Arg::with_name("lines").short("n").long("lines").value_name("LINES")
            .allow_hyphen_values(true).help("Number of lines to show [default: 10]"),
        Arg::with_name("bytes").short("c").long("bytes").value_name("BYTES")
            .allow_hyphen_values(true).conflicts_with("lines").help("Number of bytes to show"),
        Arg::with_name("files").value_name("FILE").multiple(true)
            .help("Input file(s) [default: -]"),
        Arg::with_name("version").short("V").long("version").help("Prints version information"),
    ]).get_matches_from_safe(tokens)
        .map(|m| Supplied { lines: m.values_of_lossy("lines"), bytes: m.values_of_lossy("bytes"),
            files: m.values_of_lossy("files"), version: m.is_present("version") })
        .map_err(|e| ArgsError::Usage { failure: e.use_stderr(), message: e.message })
}

/// `r` is the outcome for the command line `tokens`: what clap refuses is
/// refused as a matter of usage, and what it accepts is validated.
pub open spec fn get_args_agrees(r: Result<Config, ArgsError>, tokens: Seq<Seq<char>>) -> bool {
    match command_line(tokens) {
        Ok(s) => same_outcome(r, resolve_spec(s)),
        Err(f) => r matches Err(ArgsError::Usage { failure, .. }) && failure == f,
    }
}

/// Reads a command line, the program's name first, into a configuration.
pub fn get_args(tokens: &Vec<String>) -> (r: Result<Config, ArgsError>)
    ensures
        get_args_agrees(r, tokens.deep_view()),
{
    match parse_command_line(tokens) {
        Ok(supplied) => resolve(supplied),
        Err(e) => Err(e),
    }
}

/// A line count beside a byte count is always refused, whatever the two
/// values are.
pub proof fn law_counts_exclude_each_other(s: SuppliedView)
    requires
        given(s.lines) is Some,
        given(s.bytes) is Some,
    ensures
        resolve_spec(s) == Err::<ConfigView, ArgsErrorView>(ArgsErrorView::Conflict),
{
}

/// A line count that is no positive integer is always refused, and the error
/// holds the value as it was given.
pub proof fn law_illegal_lines_refused(s: SuppliedView, value: Seq<char>)
    requires
        given(s.lines) == Some(value),
        given(s.bytes) is None,
        positive_count(value) is None,
    ensures
        resolve_spec(s) == Err::<ConfigView, ArgsErrorView>(ArgsErrorView::IllegalLines(value)),
        ArgsErrorView::IllegalLines(value).message() == "Failed to parse lines count: "@ + value,
        ArgsErrorView::IllegalLines(value).is_failure(),
{
}

/// A byte count that is no positive integer is always refused, and the error
/// holds the value as it was given.
pub proof fn law_illegal_bytes_refused(s: SuppliedView, value: Seq<char>)
    requires
        given(s.lines) is None,
        given(s.bytes) == Some(value),
        positive_count(value) is None,
    ensures
        resolve_spec(s) == Err::<ConfigView, ArgsErrorView>(ArgsErrorView::IllegalBytes(value)),
        ArgsErrorView::IllegalBytes(value).message() == "Failed to parse bytes count: "@ + value,
        ArgsErrorView::IllegalBytes(value).is_failure(),
{
}

/// Whatever is accepted is a well-formed configuration in exactly one mode,
/// and what was given stands in it unchanged.
pub proof fn law_accepted_is_well_formed(s: SuppliedView)
    requires
        resolve_spec(s) is Ok,
    ensures
        resolve_spec(s)->Ok_0.well_formed(),
        resolve_spec(s)->Ok_0.bytes is Some <==> given(s.bytes) is Some,
        given(s.lines) matches Some(l) ==> positive_count(l) == Some(resolve_spec(s)->Ok_0.lines),
        given(s.bytes) matches Some(b) ==> positive_count(b) == resolve_spec(s)->Ok_0.bytes,
        given(s.lines) is None ==> resolve_spec(s)->Ok_0.lines == DEFAULT_LINES,
{
}

/// A request for the version text is answered with that text, and is no
/// failure, exactly where the rest of the command line would be accepted.
pub proof fn law_version_on_request(s: SuppliedView)
    requires
        s.version,
    ensures
        counts_spec(s) is Ok ==> resolve_spec(s) == Err::<ConfigView, ArgsErrorView>(
            ArgsErrorView::Version,
        ),
        counts_spec(s) is Err ==> resolve_spec(s) == Err::<ConfigView, ArgsErrorView>(
            counts_spec(s)->Err_0,
        ),
        !ArgsErrorView::Version.is_failure(),
        !(resolve_spec(s) is Ok),
{
}

/// Whatever command line is accepted gave at most one of the two counts, and
/// gave it as a positive integer; and none is accepted that clap refuses.
pub proof fn law_accepted_command_line(tokens: Seq<Seq<char>>, r: Result<Config, ArgsError>)
    ensures
        get_args_agrees(r, tokens) && r is Ok ==> {
            &&& command_line(tokens) matches Ok(s)
            &&& !s.version
            &&& !(given(s.lines) is Some && given(s.bytes) is Some)
            &&& (given(s.lines) matches Some(l) ==> positive_count(l) is Some)
            &&& (given(s.bytes) matches Some(b) ==> positive_count(b) is Some)
        },
{
}

} // verus!
