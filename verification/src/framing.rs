//! Prompt-delimited response framing.
//!
//! The external program signals readiness by printing the fixed prompt
//! literal `Maude>`.  A framed response is everything the program wrote
//! since the previous frame, up to (and excluding) the next occurrence of
//! the prompt literal, with leading and trailing whitespace removed.
//! Framing works on raw bytes: a line that contains the prompt literal ends
//! the frame at the literal's first occurrence, a line without it is taken
//! whole, and end-of-stream ends the frame with whatever has accumulated.

use vstd::prelude::*;

verus! {

/// The prompt literal `Maude>` occurs in `s` starting at byte index `i`.
/// The byte values spell `M`, `a`, `u`, `d`, `e`, `>`.
pub open spec fn is_prompt_at(s: Seq<u8>, i: int) -> bool {
    &&& 0 <= i
    &&& i + 6 <= s.len()
    &&& s[i] == 77u8
    &&& s[i + 1] == 97u8
    &&& s[i + 2] == 117u8
    &&& s[i + 3] == 100u8
    &&& s[i + 4] == 101u8
    &&& s[i + 5] == 62u8
}

/// `s` contains the prompt literal somewhere.
pub open spec fn has_prompt(s: Seq<u8>) -> bool {
    exists|i: int| is_prompt_at(s, i)
}

/// Locate the first occurrence of the prompt literal in `line`.
pub fn find_prompt(line: &Vec<u8>) -> (r: Option<usize>)
    ensures
        match r {
            Some(j) => is_prompt_at(line@, j as int) && (forall|k: int|
                0 <= k < j ==> !is_prompt_at(line@, k)),
            None => !has_prompt(line@),
        },
{
    if line.len() < 6 {
        assert(forall|k: int| !is_prompt_at(line@, k));
        return None;
    }
    let mut i: usize = 0;
    while i <= line.len() - 6
        invariant
            6 <= line@.len(),
            i <= line@.len() - 6 + 1,
            forall|k: int| 0 <= k < i ==> !is_prompt_at(line@, k),
        decreases line@.len() - i,
    {
        if line[i] == 77 && line[i + 1] == 97 && line[i + 2] == 117 && line[i + 3] == 100
            && line[i + 4] == 101 && line[i + 5] == 62 {
            return Some(i);
        }
        assert(!is_prompt_at(line@, i as int));
        i = i + 1;
    }
    assert(forall|k: int| !is_prompt_at(line@, k));
    None
}

/// Content of `s` before the first occurrence of the prompt literal; all of
/// `s` when the literal does not occur.
pub open spec fn before_prompt(s: Seq<u8>) -> Seq<u8>
    decreases s.len(),
{
    if is_prompt_at(s, 0) {
        Seq::empty()
    } else if s.len() == 0 {
        s
    } else {
        seq![s[0]] + before_prompt(s.drop_first())
    }
}

/// Where the prompt literal does not occur, the whole input is kept.
pub proof fn lemma_before_prompt_none(s: Seq<u8>)
    requires
        !has_prompt(s),
    ensures
        before_prompt(s) == s,
    decreases s.len(),
{
    assert(!is_prompt_at(s, 0));
    if s.len() > 0 {
        let t = s.drop_first();
        assert(!has_prompt(t)) by {
            if has_prompt(t) {
                let k = choose|k: int| is_prompt_at(t, k);
                assert(is_prompt_at(s, k + 1));
            }
        }
        lemma_before_prompt_none(t);
        assert(seq![s[0]] + t =~= s);
    }
}

/// Where the prompt literal first occurs at index `j`, exactly the bytes
/// before `j` are kept.
pub proof fn lemma_before_prompt_first(s: Seq<u8>, j: int)
    requires
        is_prompt_at(s, j),
        forall|k: int| 0 <= k < j ==> !is_prompt_at(s, k),
    ensures
        before_prompt(s) == s.subrange(0, j),
    decreases j,
{
    if j == 0 {
        assert(before_prompt(s) =~= s.subrange(0, 0));
    } else {
        assert(!is_prompt_at(s, 0));
        let t = s.drop_first();
        assert(is_prompt_at(t, j - 1));
        assert forall|k: int| 0 <= k < j - 1 implies !is_prompt_at(t, k) by {
            if is_prompt_at(t, k) {
                assert(is_prompt_at(s, k + 1));
            }
        }
        lemma_before_prompt_first(t, j - 1);
        assert(seq![s[0]] + t.subrange(0, j - 1) =~= s.subrange(0, j));
    }
}

/// `b` is a whitespace byte: the ASCII characters (tab, line feed, vertical
/// tab, form feed, carriage return, space) that count as whitespace when a
/// response is trimmed.
pub open spec fn is_ws(b: u8) -> bool {
    b == 9u8 || b == 10u8 || b == 11u8 || b == 12u8 || b == 13u8 || b == 32u8
}

fn is_ws_byte(b: u8) -> (r: bool)
    ensures
        r == is_ws(b),
{
    b == 9 || b == 10 || b == 11 || b == 12 || b == 13 || b == 32
}

/// Length of the longest whitespace prefix of `s`.
pub open spec fn ws_prefix_len(s: Seq<u8>) -> nat
    decreases s.len(),
{
    if s.len() > 0 && is_ws(s[0]) {
        1 + ws_prefix_len(s.drop_first())
    } else {
        0
    }
}

/// Length of the longest whitespace suffix of `s`.
pub open spec fn ws_suffix_len(s: Seq<u8>) -> nat
    decreases s.len(),
{
    if s.len() > 0 && is_ws(s[s.len() - 1]) {
        1 + ws_suffix_len(s.drop_last())
    } else {
        0
    }
}

/// `s` with leading and trailing whitespace removed.
pub open spec fn trimmed(s: Seq<u8>) -> Seq<u8> {
    if ws_prefix_len(s) == s.len() {
        Seq::empty()
    } else {
        s.subrange(ws_prefix_len(s) as int, s.len() - ws_suffix_len(s))
    }
}

/// The whitespace prefix is exactly the run of whitespace bytes at the
/// front: every byte before it is whitespace and the byte at its end, if
/// any, is not.
pub proof fn lemma_ws_prefix(s: Seq<u8>)
    ensures
        ws_prefix_len(s) <= s.len(),
        forall|k: int| 0 <= k < ws_prefix_len(s) ==> is_ws(s[k]),
        ws_prefix_len(s) < s.len() ==> !is_ws(s[ws_prefix_len(s) as int]),
    decreases s.len(),
{
    if s.len() > 0 && is_ws(s[0]) {
        let t = s.drop_first();
        lemma_ws_prefix(t);
        assert forall|k: int| 0 <= k < ws_prefix_len(s) implies is_ws(s[k]) by {
            if k > 0 {
                assert(is_ws(t[k - 1]));
            }
        }
    }
}

/// The whitespace suffix is exactly the run of whitespace bytes at the
/// back: every byte after it is whitespace and the byte just before it, if
/// any, is not.
pub proof fn lemma_ws_suffix(s: Seq<u8>)
    ensures
        ws_suffix_len(s) <= s.len(),
        forall|k: int| s.len() - ws_suffix_len(s) <= k < s.len() ==> is_ws(s[k]),
        ws_suffix_len(s) < s.len() ==> !is_ws(s[s.len() - ws_suffix_len(s) - 1]),
    decreases s.len(),
{
    if s.len() > 0 && is_ws(s[s.len() - 1]) {
        let t = s.drop_last();
        lemma_ws_suffix(t);
        assert forall|k: int| s.len() - ws_suffix_len(s) <= k < s.len() implies is_ws(s[k]) by {
            if k < s.len() - 1 {
                assert(is_ws(t[k]));
            }
        }
    }
}

/// Copy of `s` with leading and trailing whitespace bytes removed.
pub fn trim_bytes(s: &Vec<u8>) -> (r: Vec<u8>)
    ensures
        r@ == trimmed(s@),
{
    let n = s.len();
    let mut lo: usize = 0;
    while lo < n && is_ws_byte(s[lo])
        invariant
            n == s@.len(),
            lo <= n,
            forall|k: int| 0 <= k < lo ==> is_ws(s@[k]),
        decreases n - lo,
    {
        lo = lo + 1;
    }
    proof {
        lemma_ws_prefix(s@);
        let p = ws_prefix_len(s@) as int;
        if lo < p {
            assert(is_ws(s@[lo as int]));
            assert(false);
        }
        if p < lo {
            assert(is_ws(s@[p]));
            assert(false);
        }
    }
    if lo == n {
        let r: Vec<u8> = Vec::new();
        assert(trimmed(s@) =~= Seq::<u8>::empty());
        return r;
    }
    let mut hi: usize = n;
    while hi > lo && is_ws_byte(s[hi - 1])
        invariant
            n == s@.len(),
            lo <= hi <= n,
            forall|k: int| hi <= k < n ==> is_ws(s@[k]),
        decreases hi,
    {
        hi = hi - 1;
    }
    proof {
        lemma_ws_suffix(s@);
        let q = ws_suffix_len(s@) as int;
        if hi == lo {
            assert(is_ws(s@[lo as int]));
            assert(false);
        }
        assert(!is_ws(s@[hi - 1]));
        if n - hi < q {
            assert(is_ws(s@[hi - 1]));
            assert(false);
        }
        if n - hi > q {
            assert(is_ws(s@[n - q - 1]));
            assert(!is_ws(s@[n - q - 1]));
            assert(false);
        }
    }
    let mut r: Vec<u8> = Vec::new();
    let mut i: usize = lo;
    while i < hi
        invariant
            n == s@.len(),
            lo <= i <= hi <= n,
            r@ == s@.subrange(lo as int, i as int),
        decreases hi - i,
    {
        let b = s[i];
        r.push(b);
        assert(s@.subrange(lo as int, i + 1 as int) =~= s@.subrange(lo as int, i as int).push(b));
        i = i + 1;
    }
    assert(r@ == trimmed(s@));
    r
}

/// Accumulates the raw text of one framed response, line by line, until a
/// line carries the prompt literal or the caller reaches end-of-stream.
pub struct FrameAccumulator {
    buf: Vec<u8>,
}

impl View for FrameAccumulator {
    type V = Seq<u8>;

    closed spec fn view(&self) -> Seq<u8> {
        self.buf@
    }
}

impl FrameAccumulator {
    /// An empty accumulator, ready for the first line of a frame.
    pub fn new() -> (r: FrameAccumulator)
        ensures
            r@ == Seq::<u8>::empty(),
    {
        FrameAccumulator { buf: Vec::new() }
    }

    /// Take in one line read from the external program.  The bytes before
    /// the first occurrence of the prompt literal (all of the line when the
    /// literal is absent) are appended to the frame; the result says whether
    /// the prompt was seen, which ends the frame.
    pub fn feed_line(&mut self, line: &Vec<u8>) -> (done: bool)
        ensures
            done == has_prompt(line@),
            final (self)@ == old(self)@ + before_prompt(line@),
    {
        let ghost buf0 = self.buf@;
        let found = find_prompt(line);
        let m: usize;
        let done: bool;
        match found {
            Some(j) => {
                proof {
                    lemma_before_prompt_first(line@, j as int);
                }
                m = j;
                done = true;
            }
            None => {
                proof {
                    lemma_before_prompt_none(line@);
                }
                m = line.len();
                done = false;
            }
        }
        assert(before_prompt(line@) =~= line@.subrange(0, m as int));
        let mut i: usize = 0;
        while i < m
            invariant
                m <= line@.len(),
                i <= m,
                self.buf@ == buf0 + line@.subrange(0, i as int),
            decreases m - i,
        {
            let b = line[i];
            self.buf.push(b);
            assert(buf0 + line@.subrange(0, i + 1 as int) =~= (buf0 + line@.subrange(
                0,
                i as int,
            )).push(b));
            i = i + 1;
        }
        done
    }

    /// The completed frame: the accumulated text with leading and trailing
    /// whitespace removed.
    pub fn finish(&self) -> (r: Vec<u8>)
        ensures
            r@ == trimmed(self@),
    {
        trim_bytes(&self.buf)
    }
}

/// The raw text of one frame, given the lines the external program wrote:
/// whole lines accumulate until the first line that carries the prompt
/// literal, which contributes only its bytes before the literal; when no
/// line carries it, everything up to end-of-stream accumulates.
pub open spec fn framed(lines: Seq<Seq<u8>>) -> Seq<u8>
    decreases lines.len(),
{
    if lines.len() == 0 {
        Seq::empty()
    } else if has_prompt(lines[0]) {
        before_prompt(lines[0])
    } else {
        lines[0] + framed(lines.drop_first())
    }
}

/// The framed response: the raw frame with leading and trailing whitespace
/// removed.
pub open spec fn response_of(lines: Seq<Seq<u8>>) -> Seq<u8> {
    trimmed(framed(lines))
}

/// All of `lines` joined into one byte sequence.
pub open spec fn joined(lines: Seq<Seq<u8>>) -> Seq<u8>
    decreases lines.len(),
{
    if lines.len() == 0 {
        Seq::empty()
    } else {
        lines[0] + joined(lines.drop_first())
    }
}

/// A frame splits around any point that no earlier line reached the prompt:
/// the lines before it contribute whole, the rest frame on their own.
pub proof fn lemma_framed_split(lines: Seq<Seq<u8>>, i: int)
    requires
        0 <= i <= lines.len(),
        forall|k: int| 0 <= k < i ==> !has_prompt(lines[k]),
    ensures
        framed(lines) == framed(lines.take(i)) + framed(lines.skip(i)),
    decreases i,
{
    if i == 0 {
        assert(lines.take(0) =~= Seq::<Seq<u8>>::empty());
        assert(lines.skip(0) =~= lines);
        assert(framed(lines.take(0)) + framed(lines) =~= framed(lines));
    } else {
        assert(!has_prompt(lines[0]));
        let t = lines.drop_first();
        assert forall|k: int| 0 <= k < i - 1 implies !has_prompt(t[k]) by {
            assert(t[k] == lines[k + 1]);
        }
        lemma_framed_split(t, i - 1);
        assert(t.skip(i - 1) =~= lines.skip(i));
        assert(lines.take(i).drop_first() =~= t.take(i - 1));
        assert(framed(lines.take(i)) == lines[0] + framed(t.take(i - 1)));
        assert((lines[0] + framed(t.take(i - 1))) + framed(lines.skip(i)) =~= lines[0] + (framed(
            t.take(i - 1),
        ) + framed(lines.skip(i))));
    }
}

/// Where no line carries the prompt literal, the frame is everything the
/// external program wrote before closing its output.
pub proof fn lemma_framed_is_joined(lines: Seq<Seq<u8>>)
    requires
        forall|k: int| 0 <= k < lines.len() ==> !has_prompt(lines[k]),
    ensures
        framed(lines) == joined(lines),
    decreases lines.len(),
{
    if lines.len() > 0 {
        assert(!has_prompt(lines[0]));
        let t = lines.drop_first();
        assert forall|k: int| 0 <= k < t.len() implies !has_prompt(t[k]) by {
            assert(t[k] == lines[k + 1]);
        }
        lemma_framed_is_joined(t);
    }
}

/// A prompt literal that appears mid-line still ends the frame there: the
/// response is the text before the literal's first occurrence, trimmed, and
/// the rest of the line is discarded.
pub proof fn lemma_prompt_mid_line_truncates(line: Seq<u8>, j: int)
    requires
        is_prompt_at(line, j),
        forall|k: int| 0 <= k < j ==> !is_prompt_at(line, k),
    ensures
        response_of(seq![line]) == trimmed(line.subrange(0, j)),
{
    assert(has_prompt(line));
    lemma_before_prompt_first(line, j);
    assert(seq![line][0] == line);
}

/// When the external program's output ends without ever showing the prompt,
/// the response is everything the program wrote, trimmed: end-of-stream
/// closes the frame in place of the prompt.
pub proof fn lemma_eof_yields_partial_output(lines: Seq<Seq<u8>>)
    requires
        forall|k: int| 0 <= k < lines.len() ==> !has_prompt(lines[k]),
    ensures
        response_of(lines) == trimmed(joined(lines)),
{
    lemma_framed_is_joined(lines);
}

/// How many line-feed bytes `s` holds.
pub open spec fn newline_count(s: Seq<u8>) -> nat
    decreases s.len(),
{
    if s.len() == 0 {
        0
    } else {
        (if s[0] == 10u8 {
            1nat
        } else {
            0nat
        }) + newline_count(s.drop_first())
    }
}

/// A sequence without line-feed bytes has none to count.
pub proof fn lemma_newline_count_zero(s: Seq<u8>)
    requires
        forall|k: int| 0 <= k < s.len() ==> s[k] != 10u8,
    ensures
        newline_count(s) == 0,
    decreases s.len(),
{
    if s.len() > 0 {
        let t = s.drop_first();
        lemma_newline_count_zero(t);
    }
}

/// Appending one byte adds one to the count exactly when it is a line feed.
pub proof fn lemma_newline_count_push(s: Seq<u8>, b: u8)
    ensures
        newline_count(s.push(b)) == newline_count(s) + (if b == 10u8 {
            1nat
        } else {
            0nat
        }),
    decreases s.len(),
{
    if s.len() == 0 {
        assert(s.push(b).drop_first() =~= s);
    } else {
        assert(s.push(b)[0] == s[0]);
        assert(s.push(b).drop_first() =~= s.drop_first().push(b));
        lemma_newline_count_push(s.drop_first(), b);
    }
}

/// The views of a vector of byte lines.
pub open spec fn line_views(lines: Seq<Vec<u8>>) -> Seq<Seq<u8>> {
    Seq::new(lines.len(), |i: int| lines[i]@)
}

/// Frame one complete response out of the lines the external program wrote
/// before its output ended: the whole read-until-prompt computation on a
/// recorded sequence of lines.
pub fn frame_response(lines: &Vec<Vec<u8>>) -> (r: Vec<u8>)
    ensures
        r@ == response_of(line_views(lines@)),
{
    let ghost ls = line_views(lines@);
    let mut acc = FrameAccumulator::new();
    let mut finished = false;
    let mut i: usize = 0;
    while i < lines.len() && !finished
        invariant
            ls == line_views(lines@),
            ls.len() == lines@.len(),
            i <= lines@.len(),
            !finished ==> forall|k: int| 0 <= k < i ==> !has_prompt(ls[k]),
            !finished ==> acc@ == framed(ls.take(i as int)),
            finished ==> acc@ == framed(ls),
        decreases lines@.len() - i,
    {
        let done = acc.feed_line(&lines[i]);
        proof {
            assert(ls[i as int] == lines@[i as int]@);
            if done {
                lemma_framed_split(ls, i as int);
                assert(ls.skip(i as int)[0] == ls[i as int]);
                assert(framed(ls.skip(i as int)) == before_prompt(ls[i as int]));
            } else {
                lemma_framed_split(ls.take(i + 1), i as int);
                assert(ls.take(i + 1).take(i as int) =~= ls.take(i as int));
                let rest = ls.take(i + 1).skip(i as int);
                assert(rest.len() == 1 && rest[0] == ls[i as int]);
                assert(rest.drop_first() =~= Seq::<Seq<u8>>::empty());
                assert(framed(rest) == ls[i as int] + framed(Seq::<Seq<u8>>::empty()));
                assert(ls[i as int] + Seq::<u8>::empty() =~= ls[i as int]);
                lemma_before_prompt_none(ls[i as int]);
            }
        }
        if done {
            finished = true;
        }
        i = i + 1;
    }
    proof {
        if !finished {
            assert(ls.take(ls.len() as int) =~= ls);
        }
    }
    acc.finish()
}

} // verus!
