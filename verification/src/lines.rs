//! The lines of a byte string. A line ends with its newline; the last line of
//! a text may lack one.

use vstd::prelude::*;

verus! {

/// The byte that ends a line.
pub const NEWLINE: u8 = 10;

/// The length of the first line of `s`, its newline included: the place just
/// after the first newline, or all of `s` where it holds none.
pub open spec fn first_line_len(s: Seq<u8>) -> int
    decreases s.len(),
{
    if s.len() == 0 {
        0
    } else if s[0] == NEWLINE {
        1
    } else {
        1 + first_line_len(s.skip(1))
    }
}

/// The lines of `s` in order, each with its newline. An empty text has no
/// line.
pub open spec fn lines_of(s: Seq<u8>) -> Seq<Seq<u8>>
    decreases s.len(),
{
    let k = first_line_len(s);
    if 0 < k <= s.len() {
        seq![s.take(k)] + lines_of(s.skip(k))
    } else {
        Seq::empty()
    }
}

/// The first `n` lines of `s`, or all of them where there are fewer, as one
/// byte string.
pub open spec fn head_lines(s: Seq<u8>, n: nat) -> Seq<u8> {
    let lines = lines_of(s);
    if n <= lines.len() {
        lines.take(n as int).flatten()
    } else {
        lines.flatten()
    }
}

/// The first `n` bytes of `s`, or all of them where there are fewer.
pub open spec fn head_bytes(s: Seq<u8>, n: nat) -> Seq<u8> {
    if n <= s.len() {
        s.take(n as int)
    } else {
        s
    }
}

/// `line` is one line: it is not empty, and a newline stands nowhere in it
/// but at its end.
pub open spec fn is_line(line: Seq<u8>) -> bool {
    &&& line.len() > 0
    &&& forall|i: int| 0 <= i < line.len() - 1 ==> #[trigger] line[i] != NEWLINE
}

/// `line` ends with a newline.
pub open spec fn is_terminated(line: Seq<u8>) -> bool {
    line.len() > 0 && line.last() == NEWLINE
}

/// The first line of a text that is not empty is a line within it, and no
/// newline stands before its end.
pub proof fn lemma_first_line(s: Seq<u8>)
    ensures
        s.len() == 0 ==> first_line_len(s) == 0,
        s.len() > 0 ==> 0 < first_line_len(s) <= s.len(),
        forall|i: int| 0 <= i < first_line_len(s) - 1 ==> #[trigger] s[i] != NEWLINE,
        first_line_len(s) < s.len() ==> s[first_line_len(s) - 1] == NEWLINE,
    decreases s.len(),
{
    if s.len() > 0 && s[0] != NEWLINE {
        let t = s.skip(1);
        lemma_first_line(t);
        assert forall|i: int| 0 <= i < first_line_len(s) - 1 implies #[trigger] s[i] != NEWLINE by {
            if i > 0 {
                assert(t[i - 1] == s[i]);
            }
        }
        if first_line_len(s) < s.len() {
            assert(t[first_line_len(t) - 1] == s[first_line_len(s) - 1]);
        }
    }
}

/// Put together again, the lines of a text are the text.
pub proof fn lemma_lines_flatten(s: Seq<u8>)
    ensures
        lines_of(s).flatten() == s,
    decreases s.len(),
{
    lemma_first_line(s);
    let k = first_line_len(s);
    if s.len() > 0 {
        let rest = lines_of(s.skip(k));
        let all = seq![s.take(k)] + rest;
        lemma_lines_flatten(s.skip(k));
        assert(all.first() == s.take(k));
        assert(all.drop_first() =~= rest);
        assert(all.flatten() == s.take(k) + rest.flatten());
        assert(s.take(k) + s.skip(k) =~= s);
    } else {
        assert(lines_of(s) =~= Seq::<Seq<u8>>::empty());
    }
}

/// Every member of `lines_of` is a line, and each but the last ends with a
/// newline.
pub proof fn lemma_lines_are_lines(s: Seq<u8>)
    ensures
        forall|j: int| 0 <= j < lines_of(s).len() ==> is_line(#[trigger] lines_of(s)[j]),
        forall|j: int|
            0 <= j < lines_of(s).len() - 1 ==> is_terminated(#[trigger] lines_of(s)[j]),
    decreases s.len(),
{
    lemma_first_line(s);
    let k = first_line_len(s);
    if s.len() > 0 {
        let rest = lines_of(s.skip(k));
        lemma_lines_are_lines(s.skip(k));
        lemma_first_line(s.skip(k));
        assert forall|j: int| 0 <= j < lines_of(s).len() implies is_line(
            #[trigger] lines_of(s)[j],
        ) by {
            if j > 0 {
                assert(lines_of(s)[j] == rest[j - 1]);
            }
        }
        assert forall|j: int| 0 <= j < lines_of(s).len() - 1 implies is_terminated(
            #[trigger] lines_of(s)[j],
        ) by {
            if j > 0 {
                assert(lines_of(s)[j] == rest[j - 1]);
            } else {
                assert(rest.len() > 0);
                assert(k < s.len());
            }
        }
    }
}

/// What stands after the first line has the remaining lines.
pub proof fn lemma_lines_step(s: Seq<u8>)
    requires
        s.len() > 0,
    ensures
        lines_of(s).len() > 0,
        lines_of(s)[0] == s.take(first_line_len(s)),
        lines_of(s).skip(1) == lines_of(s.skip(first_line_len(s))),
{
    lemma_first_line(s);
    let k = first_line_len(s);
    assert((seq![s.take(k)] + lines_of(s.skip(k))).skip(1) =~= lines_of(s.skip(k)));
}

/// Taking lines one after another: `n` more lines from `s` are its first line
/// and then `n - 1` more from what follows.
pub proof fn lemma_head_lines_step(s: Seq<u8>, n: nat)
    requires
        s.len() > 0,
        n > 0,
    ensures
        head_lines(s, n) == s.take(first_line_len(s)) + head_lines(
            s.skip(first_line_len(s)),
            (n - 1) as nat,
        ),
{
    lemma_lines_step(s);
    let lines = lines_of(s);
    let rest = lines_of(s.skip(first_line_len(s)));
    if n <= lines.len() {
        let front = lines.take(n as int);
        assert(front.first() == lines[0]);
        assert(front.drop_first() =~= rest.take(n - 1));
    } else {
        assert(lines.drop_first() =~= rest);
    }
}

/// Where no line is asked for, or the text is empty, nothing is taken.
pub proof fn lemma_head_lines_none(s: Seq<u8>, n: nat)
    requires
        s.len() == 0 || n == 0,
    ensures
        head_lines(s, n) == Seq::<u8>::empty(),
{
    if s.len() == 0 {
        assert(lines_of(s) =~= Seq::<Seq<u8>>::empty());
    } else {
        assert(lines_of(s).take(0) =~= Seq::<Seq<u8>>::empty());
    }
}

/// Where the first line of `content` from the place `from` ends.
pub fn line_end(content: &[u8], from: usize) -> (end: usize)
    requires
        from <= content@.len(),
    ensures
        from <= end <= content@.len(),
        end - from == first_line_len(content@.skip(from as int)),
{
    let mut i: usize = from;
    while i < content.len()
        invariant
            from <= i <= content@.len(),
            first_line_len(content@.skip(from as int)) == (i - from) + first_line_len(
                content@.skip(i as int),
            ),
        decreases content@.len() - i,
    {
        let ghost here = content@.skip(i as int);
        assert(here[0] == content@[i as int]);
        if content[i] == NEWLINE {
            return i + 1;
        }
        assert(here.skip(1) =~= content@.skip(i + 1));
        i = i + 1;
    }
    i
}

/// How many leading bytes of `content` make up its first `n` lines.
pub fn take_lines(content: &[u8], n: usize) -> (k: usize)
    ensures
        k <= content@.len(),
        content@.take(k as int) == head_lines(content@, n as nat),
{
    let mut pos: usize = 0;
    let mut left: usize = n;
    proof {
        assert(content@.skip(0) =~= content@);
        assert(content@.take(0) + head_lines(content@, n as nat) =~= head_lines(content@, n as nat));
    }
    while left > 0 && pos < content.len()
        invariant
            pos <= content@.len(),
            left <= n,
            head_lines(content@, n as nat) == content@.take(pos as int) + head_lines(
                content@.skip(pos as int),
                left as nat,
            ),
        decreases content@.len() - pos,
    {
        let end = line_end(content, pos);
        proof {
            let here = content@.skip(pos as int);
            lemma_first_line(here);
            lemma_head_lines_step(here, left as nat);
            assert(here.skip(end - pos) =~= content@.skip(end as int));
            assert(content@.take(pos as int) + here.take(end - pos) =~= content@.take(end as int));
            assert(content@.take(pos as int) + (here.take(end - pos) + head_lines(
                content@.skip(end as int),
                (left - 1) as nat,
            )) =~= content@.take(end as int) + head_lines(
                content@.skip(end as int),
                (left - 1) as nat,
            ));
        }
        pos = end;
        left = left - 1;
    }
    proof {
        lemma_head_lines_none(content@.skip(pos as int), left as nat);
        assert(content@.take(pos as int) + Seq::<u8>::empty() =~= content@.take(pos as int));
    }
    pos
}

/// How many leading bytes of `content` make up its first `n` bytes.
pub fn take_bytes(content: &[u8], n: usize) -> (k: usize)
    ensures
        k <= content@.len(),
        content@.take(k as int) == head_bytes(content@, n as nat),
{
    if n <= content.len() {
        n
    } else {
        proof {
            assert(content@.take(content@.len() as int) =~= content@);
        }
        content.len()
    }
}

} // verus!
