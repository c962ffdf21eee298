//! Line splitting and whitespace trimming over text, with exact
//! specifications. Both author discovery and history extraction work
//! line by line over raw command output.

use vstd::prelude::*;
use vstd::string::StrSliceExecFns;

verus! {

/// Whitespace characters recognized by trimming.
pub open spec fn is_space(c: char) -> bool {
    c == ' ' || c == '\t' || c == '\r' || c == '\n' || c == '\u{b}' || c == '\u{c}'
}

/// The lines of a text: the segments between newline characters, with the
/// newline characters themselves removed. A text with no newline is one
/// line; a trailing newline yields a final empty line.
pub open spec fn spec_lines(s: Seq<char>) -> Seq<Seq<char>>
    decreases s.len(),
{
    if s.len() == 0 {
        seq![Seq::<char>::empty()]
    } else if s[0] == '\n' {
        seq![Seq::<char>::empty()] + spec_lines(s.drop_first())
    } else {
        let rest = spec_lines(s.drop_first());
        seq![seq![s[0]] + rest[0]] + rest.skip(1)
    }
}

/// A text always has at least one line.
pub proof fn lemma_spec_lines_nonempty(s: Seq<char>)
    ensures
        spec_lines(s).len() >= 1,
    decreases s.len(),
{
    if s.len() != 0 {
        lemma_spec_lines_nonempty(s.drop_first());
    }
}

/// The text with its leading whitespace removed.
pub open spec fn drop_leading_spaces(s: Seq<char>) -> Seq<char>
    decreases s.len(),
{
    if s.len() > 0 && is_space(s[0]) {
        drop_leading_spaces(s.drop_first())
    } else {
        s
    }
}

/// The text with its trailing whitespace removed.
pub open spec fn drop_trailing_spaces(s: Seq<char>) -> Seq<char>
    decreases s.len(),
{
    if s.len() > 0 && is_space(s.last()) {
        drop_trailing_spaces(s.drop_last())
    } else {
        s
    }
}

/// The text with both leading and trailing whitespace removed.
pub open spec fn spec_trim(s: Seq<char>) -> Seq<char> {
    drop_trailing_spaces(drop_leading_spaces(s))
}

/// Decides whether a character counts as whitespace for trimming.
pub fn char_is_space(c: char) -> (b: bool)
    ensures
        b == is_space(c),
{
    c == ' ' || c == '\t' || c == '\r' || c == '\n' || c == '\u{b}' || c == '\u{c}'
}

/// Returns the input with leading and trailing whitespace removed.
pub fn trim_str(s: &str) -> (t: String)
    ensures
        t@ == spec_trim(s@),
{
    let n: usize = s.unicode_len();
    let mut lo: usize = 0;
    proof {
        assert(s@.skip(0) =~= s@);
    }
    while lo < n && char_is_space(s.get_char(lo))
        invariant
            n == s@.len(),
            0 <= lo <= n,
            drop_leading_spaces(s@) == drop_leading_spaces(s@.skip(lo as int)),
        decreases n - lo,
    {
        proof {
            let tail = s@.skip(lo as int);
            assert(tail[0] == s@[lo as int]);
            assert(tail.drop_first() =~= s@.skip(lo as int + 1));
        }
        lo = lo + 1;
    }
    proof {
        if lo < n {
            assert(s@.skip(lo as int)[0] == s@[lo as int]);
        } else {
            assert(s@.skip(lo as int) =~= Seq::<char>::empty());
        }
        assert(drop_leading_spaces(s@) == s@.skip(lo as int));
        assert(s@.skip(lo as int) =~= s@.subrange(lo as int, n as int));
    }
    let mut hi: usize = n;
    while hi > lo && char_is_space(s.get_char(hi - 1))
        invariant
            n == s@.len(),
            0 <= lo <= hi <= n,
            drop_trailing_spaces(s@.skip(lo as int)) == drop_trailing_spaces(
                s@.subrange(lo as int, hi as int),
            ),
        decreases hi,
    {
        proof {
            let sub = s@.subrange(lo as int, hi as int);
            assert(sub.last() == s@[hi as int - 1]);
            assert(sub.drop_last() =~= s@.subrange(lo as int, hi as int - 1));
        }
        hi = hi - 1;
    }
    proof {
        let sub = s@.subrange(lo as int, hi as int);
        if hi > lo {
            assert(sub.last() == s@[hi as int - 1]);
        }
        assert(drop_trailing_spaces(s@.subrange(lo as int, hi as int)) == sub);
    }
    let piece: &str = s.substring_char(lo, hi);
    piece.to_owned()
}

/// Splits a text into its lines, the newline separators removed.
pub fn split_lines(s: &str) -> (lines: Vec<String>)
    ensures
        lines@.len() == spec_lines(s@).len(),
        forall|k: int| 0 <= k < lines@.len() ==> lines@[k]@ == spec_lines(s@)[k],
{
    let n: usize = s.unicode_len();
    let mut out: Vec<String> = Vec::new();
    let mut start: usize = 0;
    let mut i: usize = 0;
    proof {
        lemma_spec_lines_nonempty(s@);
        assert(s@.skip(0) =~= s@);
        assert(s@.subrange(0, 0) + spec_lines(s@)[0] =~= spec_lines(s@)[0]);
    }
    while i < n
        invariant
            n == s@.len(),
            0 <= start <= i <= n,
            spec_lines(s@).len() == out@.len() + spec_lines(s@.skip(i as int)).len(),
            forall|k: int| 0 <= k < out@.len() ==> spec_lines(s@)[k] == out@[k]@,
            spec_lines(s@)[out@.len() as int] == s@.subrange(start as int, i as int)
                + spec_lines(s@.skip(i as int))[0],
            forall|k: int|
                1 <= k < spec_lines(s@.skip(i as int)).len() ==> spec_lines(s@)[out@.len() + k]
                    == spec_lines(s@.skip(i as int))[k],
        decreases n - i,
    {
        let ghost i0 = i as int;
        let ghost start0 = start as int;
        let ghost out0 = out@;
        let ghost rest = spec_lines(s@.skip(i0));
        let ghost rest1 = spec_lines(s@.skip(i0 + 1));
        proof {
            assert(s@.skip(i0)[0] == s@[i0]);
            assert(s@.skip(i0).drop_first() =~= s@.skip(i0 + 1));
            lemma_spec_lines_nonempty(s@.skip(i0 + 1));
        }
        let c: char = s.get_char(i);
        if c == '\n' {
            let piece: &str = s.substring_char(start, i);
            out.push(piece.to_owned());
            start = i + 1;
            proof {
                assert(rest == seq![Seq::<char>::empty()] + rest1);
                assert(rest[0] =~= Seq::<char>::empty());
                assert(s@.subrange(start0, i0) + rest[0] =~= s@.subrange(start0, i0));
                assert(out@ == out0.push(out@[out0.len() as int]));
                assert(out@[out0.len() as int]@ == s@.subrange(start0, i0));
                assert(spec_lines(s@)[out0.len() as int] == out@[out0.len() as int]@);
                assert(rest.len() >= 2);
                assert(spec_lines(s@)[out@.len() as int] == rest[1]);
                assert(rest[1] == rest1[0]);
                assert(s@.subrange(start as int, i0 + 1) =~= Seq::<char>::empty());
                assert(Seq::<char>::empty() + rest1[0] =~= rest1[0]);
                assert(spec_lines(s@)[out@.len() as int] == s@.subrange(start as int, i0 + 1)
                    + rest1[0]);
                assert forall|k: int| 1 <= k < rest1.len() implies spec_lines(s@)[out@.len() + k]
                    == rest1[k] by {
                    assert(spec_lines(s@)[out0.len() + (k + 1)] == rest[k + 1]);
                    assert(rest[k + 1] == rest1[k]);
                }
            }
        } else {
            proof {
                assert(rest == seq![seq![s@[i0]] + rest1[0]] + rest1.skip(1));
                assert(rest.len() == rest1.len());
                assert(rest[0] == seq![s@[i0]] + rest1[0]);
                assert(s@.subrange(start0, i0 + 1) =~= s@.subrange(start0, i0) + seq![s@[i0]]);
                assert(s@.subrange(start0, i0) + rest[0] =~= s@.subrange(start0, i0 + 1)
                    + rest1[0]);
                assert forall|k: int| 1 <= k < rest1.len() implies spec_lines(s@)[out@.len() + k]
                    == rest1[k] by {
                    assert(rest[k] == rest1.skip(1)[k - 1]);
                    assert(rest1.skip(1)[k - 1] == rest1[k]);
                    assert(spec_lines(s@)[out@.len() + k] == rest[k]);
                }
            }
        }
        i = i + 1;
    }
    proof {
        assert(s@.skip(n as int) =~= Seq::<char>::empty());
        assert(spec_lines(s@.skip(n as int)) == seq![Seq::<char>::empty()]);
        assert(spec_lines(s@)[out@.len() as int] =~= s@.subrange(start as int, n as int));
    }
    let piece: &str = s.substring_char(start, n);
    out.push(piece.to_owned());
    out
}

} // verus!
