//! What holds of every run: the statements that users of the library may rely
//! on, each proved from the definitions.

use vstd::prelude::*;
use vstd::utf8::{
    is_char_boundary,
    is_char_boundary_iff_not_is_continuation_byte,
    valid_utf8,
    valid_utf8_concat,
    valid_utf8_split,
};
use crate::config::{ConfigView, Mode};
use crate::lines::{
    first_line_len,
    head_bytes,
    head_lines,
    lemma_first_line,
    lemma_head_lines_none,
    lemma_head_lines_step,
    lemma_lines_flatten,
    lemma_lines_step,
    lines_of,
    NEWLINE,
};
use crate::machine::announcement;
use crate::run::{
    after_output,
    body_report,
    followed_by,
    lines_report,
    nothing,
    run_spec,
    source_at,
    ReportView,
    SourceView,
};
use crate::text::{decoded, open_failure_text};

verus! {

/// Well-formed UTF-8 that is cut just after a newline is well formed on both
/// sides of the cut.
pub proof fn lemma_cut_after_newline(s: Seq<u8>, k: int)
    requires
        valid_utf8(s),
        0 < k <= s.len(),
        s[k - 1] == NEWLINE,
    ensures
        valid_utf8(s.take(k)),
        valid_utf8(s.skip(k)),
{
    is_char_boundary_iff_not_is_continuation_byte(s, k - 1);
    assert(is_char_boundary(s, k - 1));
    valid_utf8_split(s, k - 1);
    let before = s.subrange(0, k - 1);
    let from = s.subrange(k - 1, s.len() as int);
    assert(from[0] == NEWLINE);
    assert(from.subrange(1, from.len() as int) =~= s.skip(k));
    let newline = seq![NEWLINE];
    assert(valid_utf8(newline)) by {
        assert(newline.subrange(1, 1) =~= Seq::<u8>::empty());
        reveal_with_fuel(valid_utf8, 2);
    }
    valid_utf8_concat(before, newline);
    assert(before + newline =~= s.take(k));
}

/// Each line of well-formed UTF-8 is well-formed UTF-8.
pub proof fn lemma_lines_of_utf8(s: Seq<u8>)
    requires
        valid_utf8(s),
    ensures
        forall|j: int| 0 <= j < lines_of(s).len() ==> valid_utf8(#[trigger] lines_of(s)[j]),
    decreases s.len(),
{
    if s.len() > 0 {
        lemma_first_line(s);
        lemma_lines_step(s);
        let k = first_line_len(s);
        if k < s.len() {
            lemma_cut_after_newline(s, k);
        } else {
            assert(s.take(k) =~= s);
            assert(s.skip(k) =~= Seq::<u8>::empty());
        }
        lemma_lines_of_utf8(s.skip(k));
        assert forall|j: int| 0 <= j < lines_of(s).len() implies valid_utf8(
            #[trigger] lines_of(s)[j],
        ) by {
            if j > 0 {
                assert(lines_of(s)[j] == lines_of(s).skip(1)[j - 1]);
            }
        }
    }
}

/// The first lines of a text are a leading part of it: nothing is added,
/// left out or moved.
pub proof fn law_head_lines_is_prefix(s: Seq<u8>, n: nat)
    ensures
        head_lines(s, n).len() <= s.len(),
        head_lines(s, n) == s.take(head_lines(s, n).len() as int),
    decreases s.len(),
{
    if s.len() == 0 || n == 0 {
        lemma_head_lines_none(s, n);
        assert(s.take(0) =~= Seq::<u8>::empty());
    } else {
        lemma_first_line(s);
        lemma_head_lines_step(s, n);
        let k = first_line_len(s);
        let rest = head_lines(s.skip(k), (n - 1) as nat);
        law_head_lines_is_prefix(s.skip(k), (n - 1) as nat);
        assert(s.take(k) + s.skip(k).take(rest.len() as int) =~= s.take(k + rest.len()));
    }
}

/// Reading up to `n` lines that are all UTF-8 gives them unchanged, one after
/// another, and does not fail.
pub proof fn lemma_lines_report(lines: Seq<Seq<u8>>, n: nat)
    requires
        forall|j: int| 0 <= j < lines.len() && j < n ==> valid_utf8(#[trigger] lines[j]),
    ensures
        lines_report(lines, n) == (ReportView {
            out: if n <= lines.len() {
                lines.take(n as int).flatten()
            } else {
                lines.flatten()
            },
            err: Seq::empty(),
            failed: false,
        }),
    decreases lines.len(),
{
    if n == 0 || lines.len() == 0 {
        assert(lines.take(0) =~= Seq::<Seq<u8>>::empty());
    } else {
        let rest = lines.skip(1);
        assert forall|j: int| 0 <= j < rest.len() && j < n - 1 implies valid_utf8(
            #[trigger] rest[j],
        ) by {
            assert(rest[j] == lines[j + 1]);
        }
        lemma_lines_report(rest, (n - 1) as nat);
        assert(valid_utf8(lines[0]));
        assert(Seq::<char>::empty() + Seq::<char>::empty() =~= Seq::<char>::empty());
        if n <= lines.len() {
            let front = lines.take(n as int);
            assert(front.first() == lines[0]);
            assert(front.drop_first() =~= rest.take(n - 1));
        } else {
            assert(lines.drop_first() =~= rest);
        }
    }
}

/// In line mode, an input of UTF-8 text gives exactly its first `n` lines,
/// each with its newline, where it has that many; and where it has fewer, it
/// gives all that it holds. Neither case writes to standard error or fails.
pub proof fn law_line_mode(config: ConfigView, content: Seq<u8>, n: usize)
    requires
        config.well_formed(),
        config.mode() == Mode::Lines(n),
        valid_utf8(content),
    ensures
        body_report(config, content) == (ReportView {
            out: head_lines(content, n as nat),
            err: Seq::empty(),
            failed: false,
        }),
        n <= lines_of(content).len() ==> head_lines(content, n as nat) == lines_of(content).take(
            n as int,
        ).flatten(),
        n > lines_of(content).len() ==> head_lines(content, n as nat) == content,
{
    lemma_lines_of_utf8(content);
    lemma_lines_report(lines_of(content), n as nat);
    lemma_lines_flatten(content);
}

/// In byte mode, an input gives the text of its first `b` bytes, or of all
/// its bytes where it has fewer. Where those bytes are UTF-8 the output is
/// those bytes, so that its length is the smaller of `b` and the input's
/// size. (Where they are not, as when the cut falls inside a character, a
/// replacement character of three bytes stands for each ill-formed part.)
pub proof fn law_byte_mode(config: ConfigView, content: Seq<u8>, b: usize)
    requires
        config.well_formed(),
        config.mode() == Mode::Bytes(b),
    ensures
        body_report(config, content) == (ReportView {
            out: decoded(head_bytes(content, b as nat)),
            err: Seq::empty(),
            failed: false,
        }),
        head_bytes(content, b as nat).len() == if b <= content.len() {
            b as nat
        } else {
            content.len()
        },
        valid_utf8(head_bytes(content, b as nat)) ==> body_report(config, content).out
            == head_bytes(content, b as nat) && body_report(config, content).out.len() == if b
            <= content.len() {
            b as nat
        } else {
            content.len()
        },
{
}

/// An input that cannot be opened adds one line to standard error and
/// nothing to standard output, and the run goes on with the next input as if
/// nothing had happened.
pub proof fn law_unreadable_input_is_passed_over(
    config: ConfigView,
    sources: Seq<SourceView>,
    index: nat,
)
    requires
        config.well_formed(),
        index < config.files.len(),
        source_at(sources, index as int) is Unreadable,
    ensures
        run_spec(config, sources, index) == after_output(
            Seq::empty(),
            open_failure_text(config.files[index as int]),
            run_spec(config, sources, index + 1),
        ),
{
}

/// An input that can be opened gives its announcement, where there are
/// several inputs, and then its leading part; the run goes on with the next
/// input unless a read has failed.
pub proof fn law_readable_input(
    config: ConfigView,
    sources: Seq<SourceView>,
    index: nat,
    content: Seq<u8>,
)
    requires
        config.well_formed(),
        index < config.files.len(),
        source_at(sources, index as int) == SourceView::Content(content),
    ensures
        run_spec(config, sources, index) == after_output(
            announcement(config, index),
            Seq::empty(),
            followed_by(body_report(config, content), run_spec(config, sources, index + 1)),
        ),
        config.files.len() == 1 ==> announcement(config, index) == Seq::<u8>::empty(),
{
    crate::run::lemma_followed_by_assoc(
        ReportView { out: announcement(config, index), err: Seq::empty(), failed: false },
        body_report(config, content),
        run_spec(config, sources, index + 1),
    );
}

/// A run over a single input prints what that input gives and no
/// announcement.
pub proof fn law_single_input(config: ConfigView, sources: Seq<SourceView>, content: Seq<u8>)
    requires
        config.well_formed(),
        config.files.len() == 1,
        source_at(sources, 0) == SourceView::Content(content),
    ensures
        run_spec(config, sources, 0) == body_report(config, content),
{
    let body = body_report(config, content);
    assert(run_spec(config, sources, 1) == nothing());
    assert(Seq::<u8>::empty() + body.out =~= body.out);
    assert(Seq::<char>::empty() + body.err =~= body.err);
    assert(body.out + Seq::<u8>::empty() =~= body.out);
    assert(body.err + Seq::<char>::empty() =~= body.err);
}

/// A run fails only on a read: where every input is either not to be opened
/// or UTF-8 text, it does not fail, whatever the mode.
pub proof fn law_run_succeeds(config: ConfigView, sources: Seq<SourceView>, from: nat)
    requires
        config.well_formed(),
        forall|i: int|
            0 <= i < sources.len() ==> (#[trigger] sources[i] matches SourceView::Content(c)
                ==> valid_utf8(c)),
    ensures
        !run_spec(config, sources, from).failed,
    decreases config.files.len() - from,
{
    if from < config.files.len() {
        law_run_succeeds(config, sources, from + 1);
        match source_at(sources, from as int) {
            SourceView::Content(c) => {
                assert(sources[from as int] == SourceView::Content(c));
                match config.mode() {
                    Mode::Lines(n) => {
                        law_line_mode(config, c, n);
                    },
                    Mode::Bytes(_) => {},
                }
            },
            SourceView::Unreadable => {},
        }
    }
}

/// An input that holds nothing gives nothing below its announcement, in
/// either mode.
pub proof fn law_empty_input(config: ConfigView)
    requires
        config.well_formed(),
    ensures
        body_report(config, Seq::empty()) == nothing(),
{
    assert(lines_of(Seq::<u8>::empty()) =~= Seq::<Seq<u8>>::empty());
    assert(valid_utf8(Seq::<u8>::empty()));
    match config.mode() {
        Mode::Bytes(b) => {
            assert(head_bytes(Seq::<u8>::empty(), b as nat) =~= Seq::<u8>::empty());
        },
        Mode::Lines(_) => {},
    }
}

} // verus!
