//! A whole run over inputs that are held in memory, and what it must print.

use vstd::prelude::*;
use vstd::utf8::{valid_utf8, valid_utf8_concat};
use crate::config::{Config, ConfigView, Mode};
use crate::lines::{
    first_line_len,
    head_bytes,
    lemma_first_line,
    lemma_lines_step,
    line_end,
    lines_of,
    take_bytes,
};
use crate::machine::{announcement, Action, Event, EventView, Phase, Runner, RunnerView};
use crate::text::{decoded, is_utf8, open_failure_text, read_failure_text};

verus! {

/// One input as a run finds it.
#[derive(Debug, PartialEq, Eq)]
pub enum Source {
    /// It cannot be opened.
    Unreadable,
    /// It can be opened and holds these bytes.
    Content(Vec<u8>),
}

/// The mathematical content of a [`Source`].
pub enum SourceView {
    Unreadable,
    Content(Seq<u8>),
}

impl View for Source {
    type V = SourceView;

    open spec fn view(&self) -> SourceView {
        match self {
            Source::Unreadable => SourceView::Unreadable,
            Source::Content(bytes) => SourceView::Content(bytes@),
        }
    }
}

impl DeepView for Source {
    type V = SourceView;

    open spec fn deep_view(&self) -> SourceView {
        self@
    }
}

/// What a run has written, and whether it has failed.
#[derive(Debug, PartialEq, Eq)]
pub struct Report {
    /// What went to standard output.
    pub out: Vec<u8>,
    /// What went to standard error.
    pub err: String,
    /// Whether the run ended early on a failed read.
    pub failed: bool,
}

/// The mathematical content of a [`Report`].
pub struct ReportView {
    pub out: Seq<u8>,
    pub err: Seq<char>,
    pub failed: bool,
}

impl View for Report {
    type V = ReportView;

    open spec fn view(&self) -> ReportView {
        ReportView { out: self.out@, err: self.err@, failed: self.failed }
    }
}

/// The report of a run in which nothing happened.
pub open spec fn nothing() -> ReportView {
    ReportView { out: Seq::empty(), err: Seq::empty(), failed: false }
}

/// First `a`, then `b`, unless `a` has failed: then the run ended there.
pub open spec fn followed_by(a: ReportView, b: ReportView) -> ReportView {
    if a.failed {
        a
    } else {
        ReportView { out: a.out + b.out, err: a.err + b.err, failed: b.failed }
    }
}

/// The reason given where a line is not UTF-8.
pub open spec fn not_utf8() -> Seq<char> {
    "stream did not contain valid UTF-8"@
}

/// What reading up to `n` of `lines` gives: the lines as they are, up to the
/// first that is not UTF-8, where the read fails.
pub open spec fn lines_report(lines: Seq<Seq<u8>>, n: nat) -> ReportView
    decreases lines.len(),
{
    if n == 0 || lines.len() == 0 {
        nothing()
    } else if !valid_utf8(lines[0]) {
        ReportView { out: Seq::empty(), err: read_failure_text(not_utf8()), failed: true }
    } else {
        followed_by(
            ReportView { out: lines[0], err: Seq::empty(), failed: false },
            lines_report(lines.skip(1), (n - 1) as nat),
        )
    }
}

/// What an input that holds `content` gives below its announcement.
pub open spec fn body_report(config: ConfigView, content: Seq<u8>) -> ReportView {
    match config.mode() {
        Mode::Bytes(b) => ReportView {
            out: decoded(head_bytes(content, b as nat)),
            err: Seq::empty(),
            failed: false,
        },
        Mode::Lines(n) => lines_report(lines_of(content), n as nat),
    }
}

/// What the input at place `index` gives: a line on standard error where it
/// cannot be opened, else its announcement and its leading part.
pub open spec fn file_report(config: ConfigView, index: nat, source: SourceView) -> ReportView {
    match source {
        SourceView::Unreadable => ReportView {
            out: Seq::empty(),
            err: open_failure_text(config.files[index as int]),
            failed: false,
        },
        SourceView::Content(content) => followed_by(
            ReportView { out: announcement(config, index), err: Seq::empty(), failed: false },
            body_report(config, content),
        ),
    }
}

/// The source for the input at place `index`. An input without a source
/// cannot be opened.
pub open spec fn source_at(sources: Seq<SourceView>, index: int) -> SourceView {
    if 0 <= index < sources.len() {
        sources[index]
    } else {
        SourceView::Unreadable
    }
}

/// What a run gives from the input at place `from` on: each input in turn,
/// until the inputs end or a read fails.
pub open spec fn run_spec(config: ConfigView, sources: Seq<SourceView>, from: nat) -> ReportView
    decreases config.files.len() - from,
{
    if from >= config.files.len() {
        nothing()
    } else {
        followed_by(
            file_report(config, from, source_at(sources, from as int)),
            run_spec(config, sources, from + 1),
        )
    }
}

/// The bytes of the source at place `index`, where it can be opened.
pub open spec fn content_at(sources: Seq<SourceView>, index: int) -> Seq<u8> {
    match source_at(sources, index) {
        SourceView::Content(bytes) => bytes,
        SourceView::Unreadable => Seq::empty(),
    }
}

/// What a run in `state` has yet to give, where it has read the current
/// input up to the place `pos`.
pub open spec fn remaining(state: RunnerView, sources: Seq<SourceView>, pos: nat) -> ReportView {
    let rest = run_spec(state.config, sources, state.index + 1);
    let content = content_at(sources, state.index as int);
    match state.phase {
        Phase::Opening => run_spec(state.config, sources, state.index),
        Phase::Bytes => followed_by(body_report(state.config, content), rest),
        Phase::Lines => followed_by(
            lines_report(lines_of(content.skip(pos as int)), state.left),
            rest,
        ),
        Phase::Done => nothing(),
        Phase::Failed => nothing(),
    }
}

/// What has been written, and then `r`.
pub open spec fn after_output(out: Seq<u8>, err: Seq<char>, r: ReportView) -> ReportView {
    followed_by(ReportView { out, err, failed: false }, r)
}

/// It does not matter how a sequence of reports is grouped.
pub proof fn lemma_followed_by_assoc(a: ReportView, b: ReportView, c: ReportView)
    ensures
        followed_by(followed_by(a, b), c) == followed_by(a, followed_by(b, c)),
{
    if !a.failed && !b.failed {
        assert((a.out + b.out) + c.out =~= a.out + (b.out + c.out));
        assert((a.err + b.err) + c.err =~= a.err + (b.err + c.err));
    }
}

/// A report in which nothing happened changes nothing, before or after.
pub proof fn lemma_followed_by_nothing(r: ReportView)
    ensures
        followed_by(nothing(), r) == r,
        followed_by(r, nothing()) == r,
{
    assert(Seq::<u8>::empty() + r.out =~= r.out);
    assert(Seq::<char>::empty() + r.err =~= r.err);
    assert(r.out + Seq::<u8>::empty() =~= r.out);
    assert(r.err + Seq::<char>::empty() =~= r.err);
}

/// `event` is what the sources bear out for the request that is open in
/// `state`, where the current input has been read up to the place `pos`, and
/// `next_pos` is the place up to which it has been read afterwards.
pub open spec fn borne_out(
    state: RunnerView,
    sources: Seq<SourceView>,
    pos: nat,
    event: EventView,
    next_pos: nat,
) -> bool {
    let content = content_at(sources, state.index as int);
    match (state.phase, event) {
        (Phase::Opening, EventView::OpenFailed) => source_at(sources, state.index as int)
            is Unreadable,
        (Phase::Opening, EventView::Opened) => source_at(sources, state.index as int) is Content
            && next_pos == 0,
        (Phase::Bytes, EventView::Read(bytes)) => bytes == head_bytes(
            content,
            state.config.bytes->Some_0 as nat,
        ),
        (Phase::Lines, EventView::Read(bytes)) => {
            let here = content.skip(pos as int);
            &&& pos <= content.len()
            &&& bytes == here.take(first_line_len(here))
            &&& next_pos == pos + first_line_len(here)
            &&& valid_utf8(bytes)
        },
        (Phase::Lines, EventView::ReadFailed(reason)) => {
            let here = content.skip(pos as int);
            &&& pos < content.len()
            &&& !valid_utf8(here.take(first_line_len(here)))
            &&& reason == not_utf8()
        },
        _ => false,
    }
}

/// What the machine writes on an event that the sources bear out is the
/// first part of what the run has yet to give. Where a read has failed that
/// is all; else it is followed by what the run has yet to give afterwards.
pub proof fn lemma_react(
    state: RunnerView,
    sources: Seq<SourceView>,
    pos: nat,
    event: EventView,
    next_pos: nat,
)
    requires
        state.well_formed(),
        borne_out(state, sources, pos, event, next_pos),
    ensures
        event is ReadFailed ==> remaining(state, sources, pos) == (ReportView {
            out: state.written(event),
            err: state.complained(event),
            failed: true,
        }),
        !(event is ReadFailed) ==> remaining(state, sources, pos) == after_output(
            state.written(event),
            state.complained(event),
            remaining(state.after(event), sources, next_pos),
        ),
{
    let config = state.config;
    let index = state.index;
    let rest = run_spec(config, sources, index + 1);
    let content = content_at(sources, index as int);
    lemma_followed_by_nothing(rest);
    assert(rest == remaining(state.turned_to(index + 1), sources, next_pos));
    match (state.phase, event) {
        (Phase::Opening, EventView::Opened) => {
            let head = ReportView {
                out: announcement(config, index),
                err: Seq::empty(),
                failed: false,
            };
            lemma_followed_by_assoc(head, body_report(config, content), rest);
            assert(content.skip(0) =~= content);
        },
        (Phase::Bytes, EventView::Read(bytes)) => {
            assert(head_bytes(bytes, config.bytes->Some_0 as nat) =~= bytes);
        },
        (Phase::Lines, EventView::Read(bytes)) => {
            let here = content.skip(pos as int);
            lemma_first_line(here);
            if here.len() == 0 {
                assert(bytes =~= Seq::<u8>::empty());
                assert(lines_of(here) =~= Seq::<Seq<u8>>::empty());
            } else {
                lemma_lines_step(here);
                assert(here.skip(first_line_len(here)) =~= content.skip(next_pos as int));
                let one = ReportView { out: bytes, err: Seq::empty(), failed: false };
                let more = lines_report(lines_of(here).skip(1), (state.left - 1) as nat);
                assert(lines_report(lines_of(here), state.left) == followed_by(one, more));
                lemma_followed_by_assoc(one, more, rest);
                if state.left <= 1 {
                    assert(more == nothing());
                }
            }
        },
        (Phase::Lines, EventView::ReadFailed(_)) => {
            lemma_lines_step(content.skip(pos as int));
        },
        _ => {},
    }
}

/// Runs over inputs held in memory: `sources` has, place by place, what is
/// found for each input of `config`. An input beyond the end of `sources`
/// counts as one that cannot be opened. Whatever the inputs hold, what is
/// written to standard output is UTF-8.
pub fn run(config: Config, sources: &Vec<Source>) -> (report: Report)
    ensures
        report@ == run_spec(config@, sources.deep_view(), 0),
        valid_utf8(report.out@),
{
    let ghost given = sources.deep_view();
    let ghost total = run_spec(config@, given, 0);
    let (mut runner, mut action) = Runner::start(config);
    let nothing_yet: Vec<u8> = Vec::new();
    let mut content: &[u8] = nothing_yet.as_slice();
    let mut pos: usize = 0;
    let mut out: Vec<u8> = Vec::new();
    let mut err = String::new();
    let mut over = false;
    let mut failed = false;
    proof {
        lemma_followed_by_nothing(total);
    }
    while !over
        invariant
            given == sources.deep_view(),
            runner@.well_formed(),
            action@ == runner@.pending(),
            valid_utf8(out@),
            (runner@.phase == Phase::Bytes || runner@.phase == Phase::Lines) ==> source_at(
                given,
                runner@.index as int,
            ) is Content && content@ == content_at(given, runner@.index as int),
            runner@.phase == Phase::Lines ==> pos <= content@.len(),
            !over ==> !failed && runner@.phase != Phase::Failed && total == after_output(
                out@,
                err@,
                remaining(runner@, given, pos as nat),
            ),
            over ==> total == (ReportView { out: out@, err: err@, failed }),
        decreases
                runner@.config.files.len() - runner@.index,
                (if runner@.phase == Phase::Opening {
                    1nat
                } else {
                    0nat
                }),
                runner@.left,
                (if over {
                    0nat
                } else {
                    1nat
                }),
    {
        let index = runner.index();
        let ghost before = runner@;
        let ghost before_pos = pos as nat;
        let event = match action {
            Action::OpenStandardInput | Action::OpenFile(_) => {
                pos = 0;
                if index < sources.len() {
                    proof {
                        assert(given[index as int] == sources[index as int]@);
                    }
                    match &sources[index] {
                        Source::Unreadable => Some(Event::OpenFailed),
                        Source::Content(bytes) => {
                            content = bytes.as_slice();
                            Some(Event::Opened)
                        },
                    }
                } else {
                    Some(Event::OpenFailed)
                }
            },
            Action::ReadBytes(n) => {
                let k = take_bytes(content, n);
                let part = vstd::slice::slice_subrange(content, 0, k);
                proof {
                    assert(content@.subrange(0, k as int) =~= content@.take(k as int));
                }
                Some(Event::Read(vstd::slice::slice_to_vec(part)))
            },
            Action::ReadLine => {
                let end = line_end(content, pos);
                let line = vstd::slice::slice_subrange(content, pos, end);
                proof {
                    let here = content@.skip(pos as int);
                    lemma_first_line(here);
                    assert(content@.subrange(pos as int, end as int) =~= here.take(
                        first_line_len(here),
                    ));
                }
                if is_utf8(line) {
                    pos = end;
                    Some(Event::Read(vstd::slice::slice_to_vec(line)))
                } else {
                    Some(Event::ReadFailed("stream did not contain valid UTF-8".to_owned()))
                }
            },
            Action::Finish => None,
            Action::Abort => None,
        };
        match event {
            Some(event) => {
                proof {
                    lemma_react(before, given, before_pos, event@, pos as nat);
                }
                let ghost old_out = out@;
                let ghost old_err = err@;
                let mut reaction = runner.react(event);
                proof {
                    valid_utf8_concat(out@, reaction.out@);
                }
                out.append(&mut reaction.out);
                err.append(reaction.err.as_str());
                action = reaction.action;
                proof {
                    let written = ReportView { out: out@, err: err@, failed: false };
                    if runner@.phase == Phase::Failed {
                        lemma_followed_by_nothing(written);
                    } else {
                        lemma_followed_by_assoc(
                            ReportView { out: old_out, err: old_err, failed: false },
                            ReportView {
                                out: before.written(event@),
                                err: before.complained(event@),
                                failed: false,
                            },
                            remaining(runner@, given, pos as nat),
                        );
                    }
                }
                if runner.phase() == Phase::Failed {
                    over = true;
                    failed = true;
                }
            },
            None => {
                proof {
                    lemma_followed_by_nothing(ReportView { out: out@, err: err@, failed: false });
                }
                over = true;
            },
        }
    }
    Report { out, err, failed }
}

} // verus!
