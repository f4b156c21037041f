//! The validated configuration of one run, and how it is made from what a
//! command line supplied.

use vstd::prelude::*;

verus! {

/// The line count that applies where the command line gives none.
pub const DEFAULT_LINES: usize = 10;

/// What bounds the output taken from each input.
#[derive(Clone, Copy, Debug, PartialEq, Eq, Structural)]
pub enum Mode {
    /// At most this many lines.
    Lines(usize),
    /// At most this many bytes.
    Bytes(usize),
}

/// The mathematical content of a [`Config`].
pub struct ConfigView {
    pub files: Seq<Seq<char>>,
    pub lines: usize,
    pub bytes: Option<usize>,
}

impl ConfigView {
    /// The counts are positive and there is at least one input.
    pub open spec fn well_formed(self) -> bool {
        &&& self.files.len() >= 1
        &&& self.lines >= 1
        &&& self.bytes != Some(0usize)
    }

    /// The bound that is in force: the byte count where one is set, else the
    /// line count.
    pub open spec fn mode(self) -> Mode {
        match self.bytes {
            Some(b) => Mode::Bytes(b),
            None => Mode::Lines(self.lines),
        }
    }
}

/// A validated configuration: the inputs in order, a line count and an
/// optional byte count, which takes precedence.
#[derive(Debug)]
pub struct Config {
    files: Vec<String>,
    lines: usize,
    bytes: Option<usize>,
}

impl View for Config {
    type V = ConfigView;

    closed spec fn view(&self) -> ConfigView {
        ConfigView { files: self.files.deep_view(), lines: self.lines, bytes: self.bytes }
    }
}

impl Config {
    #[verifier::type_invariant]
    pub(crate) open spec fn valid(self) -> bool {
        self@.well_formed()
    }

    /// Makes a configuration, if the counts are positive and `files` is not
    /// empty.
    pub fn new(files: Vec<String>, lines: usize, bytes: Option<usize>) -> (r: Option<Config>)
        ensures
            r matches Some(c) ==> c@ == (ConfigView {
                files: files.deep_view(),
                lines,
                bytes,
            }),
            r is Some <==> (ConfigView { files: files.deep_view(), lines, bytes }).well_formed(),
    {
        let zero_bytes = match bytes {
            Some(b) => b == 0,
            None => false,
        };
        if files.len() == 0 || lines == 0 || zero_bytes {
            None
        } else {
            Some(Config { files, lines, bytes })
        }
    }

    /// Makes a configuration from parts that are known to be well formed.
    pub(crate) fn assemble(files: Vec<String>, lines: usize, bytes: Option<usize>) -> (c: Config)
        requires
            (ConfigView { files: files.deep_view(), lines, bytes }).well_formed(),
        ensures
            c@ == (ConfigView { files: files.deep_view(), lines, bytes }),
    {
        Config { files, lines, bytes }
    }

    /// The inputs, in the order in which they are processed.
    pub fn files(&self) -> (r: &Vec<String>)
        ensures
            r.deep_view() == self@.files,
            r.len() >= 1,
    {
        proof {
            use_type_invariant(self);
        }
        &self.files
    }

    /// The line count.
    pub fn lines(&self) -> (r: usize)
        ensures
            r == self@.lines,
            r >= 1,
    {
        proof {
            use_type_invariant(self);
        }
        self.lines
    }

    /// The byte count, if one is set.
    pub fn bytes(&self) -> (r: Option<usize>)
        ensures
            r == self@.bytes,
            r != Some(0usize),
    {
        proof {
            use_type_invariant(self);
        }
        self.bytes
    }

    /// The bound that is in force.
    pub fn mode(&self) -> (r: Mode)
        ensures
            r == self@.mode(),
    {
        match self.bytes {
            Some(b) => Mode::Bytes(b),
            None => Mode::Lines(self.lines),
        }
    }
}

} // verus!
