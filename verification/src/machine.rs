//! A run as a machine that decides and never touches a file: it asks for an
//! input to be opened or read, is told what came of it, and says what to write
//! and what to ask for next.

use vstd::prelude::*;
use vstd::utf8::valid_utf8;
use crate::args::placeholder;
use crate::config::{Config, ConfigView, Mode};
use crate::lines::{head_bytes, take_bytes};
use crate::text::{
    banner,
    banner_bytes,
    decode_lossy,
    decoded,
    open_failure,
    open_failure_text,
    read_failure,
    read_failure_text,
};

verus! {

/// What came of the last request.
#[derive(Debug, PartialEq, Eq)]
pub enum Event {
    /// The input could not be opened.
    OpenFailed,
    /// The input is open.
    Opened,
    /// These bytes were read: in byte mode at most as many as were asked for,
    /// in line mode one line, or nothing at the end of the input.
    Read(Vec<u8>),
    /// Reading failed, for the reason given.
    ReadFailed(String),
}

/// The mathematical content of an [`Event`].
pub enum EventView {
    OpenFailed,
    Opened,
    Read(Seq<u8>),
    ReadFailed(Seq<char>),
}

impl View for Event {
    type V = EventView;

    open spec fn view(&self) -> EventView {
        match self {
            Event::OpenFailed => EventView::OpenFailed,
            Event::Opened => EventView::Opened,
            Event::Read(bytes) => EventView::Read(bytes@),
            Event::ReadFailed(reason) => EventView::ReadFailed(reason@),
        }
    }
}

/// What the machine asks for.
#[derive(Debug, PartialEq, Eq)]
pub enum Action {
    /// Take standard input as the current input.
    OpenStandardInput,
    /// Open the file of this name as the current input.
    OpenFile(String),
    /// Read up to this many bytes from the open input, once.
    ReadBytes(usize),
    /// Read one line from the open input.
    ReadLine,
    /// The run is over and has succeeded.
    Finish,
    /// The run is over and has failed.
    Abort,
}

/// The mathematical content of an [`Action`].
pub enum ActionView {
    OpenStandardInput,
    OpenFile(Seq<char>),
    ReadBytes(usize),
    ReadLine,
    Finish,
    Abort,
}

impl View for Action {
    type V = ActionView;

    open spec fn view(&self) -> ActionView {
        match self {
            Action::OpenStandardInput => ActionView::OpenStandardInput,
            Action::OpenFile(name) => ActionView::OpenFile(name@),
            Action::ReadBytes(n) => ActionView::ReadBytes(*n),
            Action::ReadLine => ActionView::ReadLine,
            Action::Finish => ActionView::Finish,
            Action::Abort => ActionView::Abort,
        }
    }
}

/// The machine's answer to an event: what to write to standard output and to
/// standard error, and what to do next.
#[derive(Debug, PartialEq, Eq)]
pub struct Reaction {
    pub action: Action,
    pub out: Vec<u8>,
    pub err: String,
}

/// The mathematical content of a [`Reaction`].
pub struct ReactionView {
    pub action: ActionView,
    pub out: Seq<u8>,
    pub err: Seq<char>,
}

impl View for Reaction {
    type V = ReactionView;

    open spec fn view(&self) -> ReactionView {
        ReactionView { action: self.action@, out: self.out@, err: self.err@ }
    }
}

/// What the machine is waiting for.
#[derive(Clone, Copy, Debug, PartialEq, Eq, Structural)]
pub enum Phase {
    /// The outcome of opening the current input.
    Opening,
    /// The bytes of the current input.
    Bytes,
    /// The next line of the current input.
    Lines,
    /// Nothing: every input has been dealt with.
    Done,
    /// Nothing: a read has failed.
    Failed,
}

/// The mathematical content of a [`Runner`].
pub struct RunnerView {
    pub config: ConfigView,
    /// The place of the current input among the inputs.
    pub index: nat,
    pub phase: Phase,
    /// In line mode, how many more lines the current input may give.
    pub left: nat,
}

/// What announces the input at place `index`: its banner, or nothing where it
/// is the only input.
pub open spec fn announcement(config: ConfigView, index: nat) -> Seq<u8> {
    if config.files.len() > 1 {
        banner_bytes(config.files[index as int], index)
    } else {
        Seq::empty()
    }
}

/// The request that opens the input called `name`: the placeholder stands for
/// standard input, every other name for a file.
pub open spec fn opening(name: Seq<char>) -> ActionView {
    if name == placeholder() {
        ActionView::OpenStandardInput
    } else {
        ActionView::OpenFile(name)
    }
}

impl RunnerView {
    /// The state in which a run begins.
    pub open spec fn start(config: ConfigView) -> RunnerView {
        RunnerView { config, index: 0, phase: Phase::Opening, left: 0 }
    }

    /// What every state of a run satisfies.
    pub open spec fn well_formed(self) -> bool {
        &&& self.config.well_formed()
        &&& self.index <= self.config.files.len()
        &&& self.left <= usize::MAX
        &&& (self.phase == Phase::Opening || self.phase == Phase::Bytes || self.phase
            == Phase::Lines) ==> self.index < self.config.files.len()
        &&& self.phase == Phase::Bytes ==> self.config.bytes is Some
        &&& self.phase == Phase::Lines ==> self.config.bytes is None && self.left >= 1
    }

    /// The request that is open in this state.
    pub open spec fn pending(self) -> ActionView {
        match self.phase {
            Phase::Opening => opening(self.config.files[self.index as int]),
            Phase::Bytes => ActionView::ReadBytes(self.config.bytes->Some_0),
            Phase::Lines => ActionView::ReadLine,
            Phase::Done => ActionView::Finish,
            Phase::Failed => ActionView::Abort,
        }
    }

    /// The state in which the input at place `index` is turned to, or the run
    /// is done where there is none.
    pub open spec fn turned_to(self, index: nat) -> RunnerView {
        if index < self.config.files.len() {
            RunnerView { config: self.config, index, phase: Phase::Opening, left: 0 }
        } else {
            RunnerView {
                config: self.config,
                index: self.config.files.len(),
                phase: Phase::Done,
                left: 0,
            }
        }
    }

    /// The state in which the current input, now open, is read.
    pub open spec fn reading(self) -> RunnerView {
        match self.config.mode() {
            Mode::Bytes(_) => RunnerView {
                config: self.config,
                index: self.index,
                phase: Phase::Bytes,
                left: 0,
            },
            Mode::Lines(n) => RunnerView {
                config: self.config,
                index: self.index,
                phase: Phase::Lines,
                left: n as nat,
            },
        }
    }

    /// The announcement of the current input.
    pub open spec fn announcement(self) -> Seq<u8> {
        announcement(self.config, self.index)
    }

    /// The state after `event`.
    pub open spec fn after(self, event: EventView) -> RunnerView {
        match (self.phase, event) {
            (Phase::Opening, EventView::OpenFailed) => self.turned_to(self.index + 1),
            (Phase::Opening, EventView::Opened) => self.reading(),
            (Phase::Bytes, EventView::Read(_)) => self.turned_to(self.index + 1),
            (Phase::Lines, EventView::Read(bytes)) => if bytes.len() == 0 || self.left <= 1 {
                self.turned_to(self.index + 1)
            } else {
                RunnerView {
                    config: self.config,
                    index: self.index,
                    phase: Phase::Lines,
                    left: (self.left - 1) as nat,
                }
            },
            (Phase::Bytes, EventView::ReadFailed(_)) | (Phase::Lines, EventView::ReadFailed(_)) => {
                RunnerView { config: self.config, index: self.index, phase: Phase::Failed, left: 0 }
            },
            _ => self,
        }
    }

    /// What `event` adds to standard output.
    pub open spec fn written(self, event: EventView) -> Seq<u8> {
        match (self.phase, event) {
            (Phase::Opening, EventView::Opened) => self.announcement(),
            (Phase::Bytes, EventView::Read(bytes)) => decoded(
                head_bytes(bytes, self.config.bytes->Some_0 as nat),
            ),
            (Phase::Lines, EventView::Read(bytes)) => bytes,
            _ => Seq::empty(),
        }
    }

    /// What `event` adds to standard error.
    pub open spec fn complained(self, event: EventView) -> Seq<char> {
        match (self.phase, event) {
            (Phase::Opening, EventView::OpenFailed) => open_failure_text(
                self.config.files[self.index as int],
            ),
            (Phase::Bytes, EventView::ReadFailed(reason))
            | (Phase::Lines, EventView::ReadFailed(reason)) => read_failure_text(reason),
            _ => Seq::empty(),
        }
    }

    /// The machine's answer to `event`: what it writes, and the request that
    /// is open afterwards. An event that answers no open request changes
    /// nothing and has the request made again.
    pub open spec fn reaction(self, event: EventView) -> ReactionView {
        ReactionView {
            action: self.after(event).pending(),
            out: self.written(event),
            err: self.complained(event),
        }
    }
}

/// Where `event` hands the machine a line, the line is UTF-8.
pub open spec fn hands_text(state: RunnerView, event: EventView) -> bool {
    state.phase == Phase::Lines ==> (event matches EventView::Read(bytes) ==> valid_utf8(bytes))
}

/// Each state of a run leads to a state of a run.
pub proof fn lemma_after_well_formed(state: RunnerView, event: EventView)
    requires
        state.well_formed(),
    ensures
        state.after(event).well_formed(),
        state.after(event).config == state.config,
{
}

/// The request that opens the input called `name`.
fn open_request(name: &str) -> (a: Action)
    ensures
        a@ == opening(name@),
{
    let alone = name.unicode_len() == 1;
    if alone && name.get_char(0) == '-' {
        proof {
            assert(name@ =~= placeholder());
        }
        Action::OpenStandardInput
    } else {
        Action::OpenFile(name.to_owned())
    }
}

/// Where a run stands.
#[derive(Clone, Copy, Debug)]
struct Cursor {
    index: usize,
    phase: Phase,
    left: usize,
}

/// The machine for one run.
#[derive(Debug)]
pub struct Runner {
    config: Config,
    at: Cursor,
}

impl View for Runner {
    type V = RunnerView;

    closed spec fn view(&self) -> RunnerView {
        RunnerView {
            config: self.config@,
            index: self.at.index as nat,
            phase: self.at.phase,
            left: self.at.left as nat,
        }
    }
}

impl Runner {
    #[verifier::type_invariant]
    spec fn valid(self) -> bool {
        self@.well_formed()
    }

    /// Begins a run: the machine, and its first request, which is to open the
    /// first input.
    pub fn start(config: Config) -> (r: (Runner, Action))
        ensures
            r.0@ == RunnerView::start(config@),
            r.0@.well_formed(),
            r.1@ == r.0@.pending(),
    {
        proof {
            use_type_invariant(&config);
        }
        let runner = Runner { config, at: Cursor { index: 0, phase: Phase::Opening, left: 0 } };
        let first = runner.pending();
        (runner, first)
    }

    /// The configuration of the run.
    pub fn config(&self) -> (r: &Config)
        ensures
            r@ == self@.config,
    {
        &self.config
    }

    /// The place of the current input among the inputs.
    pub fn index(&self) -> (r: usize)
        ensures
            r == self@.index,
            self@.well_formed(),
    {
        proof {
            use_type_invariant(self);
        }
        self.at.index
    }

    /// What the machine is waiting for.
    pub fn phase(&self) -> (r: Phase)
        ensures
            r == self@.phase,
    {
        self.at.phase
    }

    /// Whether the run is over.
    pub fn is_over(&self) -> (r: bool)
        ensures
            r == (self@.phase == Phase::Done || self@.phase == Phase::Failed),
    {
        match self.at.phase {
            Phase::Done => true,
            Phase::Failed => true,
            _ => false,
        }
    }

    /// The request that is open.
    pub fn pending(&self) -> (a: Action)
        ensures
            a@ == self@.pending(),
    {
        proof {
            use_type_invariant(self);
        }
        match self.at.phase {
            Phase::Opening => {
                let files = self.config.files();
                let name = &files[self.at.index];
                proof {
                    assert(files.deep_view()[self.at.index as int] == name@);
                }
                open_request(name.as_str())
            },
            Phase::Bytes => Action::ReadBytes(self.config.bytes().unwrap()),
            Phase::Lines => Action::ReadLine,
            Phase::Done => Action::Finish,
            Phase::Failed => Action::Abort,
        }
    }

    /// The place to turn to after the input at place `index`.
    fn turned_to(&self, index: usize) -> (c: Cursor)
        requires
            index <= self@.config.files.len(),
        ensures
            (RunnerView {
                config: self@.config,
                index: c.index as nat,
                phase: c.phase,
                left: c.left as nat,
            }) == self@.turned_to(index as nat),
    {
        let files = self.config.files();
        let count = files.len();
        proof {
            assert(files.deep_view().len() == count);
        }
        if index < count {
            Cursor { index, phase: Phase::Opening, left: 0 }
        } else {
            Cursor { index: count, phase: Phase::Done, left: 0 }
        }
    }

    /// Tells the machine what came of its request. It answers with what to
    /// write and with its next request. What it writes to standard output is
    /// UTF-8, given that the lines it is handed are.
    pub fn react(&mut self, event: Event) -> (r: Reaction)
        ensures
            final(self)@ == old(self)@.after(event@),
            r@ == old(self)@.reaction(event@),
            hands_text(old(self)@, event@) ==> valid_utf8(r.out@),
    {
        proof {
            use_type_invariant(&*self);
            lemma_after_well_formed(self@, event@);
        }
        let files = self.config.files();
        let count = files.len();
        proof {
            assert(files.deep_view().len() == count);
        }
        let mut out: Vec<u8> = Vec::new();
        let mut err = String::new();
        let at = self.at;
        let next: Cursor = match (at.phase, event) {
            (Phase::Opening, Event::OpenFailed) => {
                proof {
                    assert(files.deep_view()[at.index as int] == files[at.index as int]@);
                }
                err = open_failure(files[at.index].as_str());
                self.turned_to(at.index + 1)
            },
            (Phase::Opening, Event::Opened) => {
                if count > 1 {
                    proof {
                        assert(files.deep_view()[at.index as int] == files[at.index as int]@);
                    }
                    out = banner(files[at.index].as_str(), at.index);
                }
                match self.config.mode() {
                    Mode::Bytes(_) => Cursor { index: at.index, phase: Phase::Bytes, left: 0 },
                    Mode::Lines(n) => Cursor { index: at.index, phase: Phase::Lines, left: n },
                }
            },
            (Phase::Bytes, Event::Read(bytes)) => {
                let limit = self.config.bytes().unwrap();
                let k = take_bytes(bytes.as_slice(), limit);
                out = decode_lossy(vstd::slice::slice_subrange(bytes.as_slice(), 0, k));
                proof {
                    assert(bytes@.subrange(0, k as int) =~= bytes@.take(k as int));
                }
                self.turned_to(at.index + 1)
            },
            (Phase::Lines, Event::Read(bytes)) => {
                let next = if bytes.len() == 0 || at.left <= 1 {
                    self.turned_to(at.index + 1)
                } else {
                    Cursor { index: at.index, phase: Phase::Lines, left: at.left - 1 }
                };
                out = bytes;
                next
            },
            (Phase::Bytes, Event::ReadFailed(reason)) => {
                err = read_failure(reason.as_str());
                Cursor { index: at.index, phase: Phase::Failed, left: 0 }
            },
            (Phase::Lines, Event::ReadFailed(reason)) => {
                err = read_failure(reason.as_str());
                Cursor { index: at.index, phase: Phase::Failed, left: 0 }
            },
            _ => at,
        };
        self.at = next;
        let action = self.pending();
        Reaction { action, out, err }
    }
}

} // verus!
