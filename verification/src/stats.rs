//! Stat extraction: parsing the free-form history text of one author into
//! accumulated numeric totals.
//!
//! A history line contributes when it contains a summary of the shape
//! `<n> file(s) changed, <n> insertion(s)(+), <n> deletion(s)(-)`, with
//! both the singular and the plural wording accepted; the leftmost such
//! occurrence in the line supplies the three numbers. All other lines
//! (commit headers, messages, blank lines) contribute nothing.

use vstd::prelude::*;
use vstd::string::StrSliceExecFns;
use vstd::string::StringExecFns;
use crate::text::{spec_lines, split_lines};

verus! {

/// One author's accumulated totals over their whole history.
#[derive(Debug)]
pub struct AuthorStats {
    pub author: String,
    pub files_changed: u64,
    pub lines_inserted: u64,
    pub lines_deleted: u64,
}

/// The three numbers of one matched summary line.
#[derive(PartialEq, Eq, Structural, Clone, Copy, Debug)]
pub struct CommitDelta {
    pub files_changed: u64,
    pub insertions: u64,
    pub deletions: u64,
}

/// The one fatal condition extraction itself can meet: a matched numeric
/// group, or the accumulated total, does not fit the result type. The
/// digit-only groups of real history output never come near this.
#[derive(PartialEq, Eq, Structural, Clone, Copy, Debug)]
pub enum StatsError {
    ParseInvariantViolation,
}

/// Decimal digit.
pub open spec fn is_digit(c: char) -> bool {
    '0' <= c <= '9'
}

/// Numeric value of one decimal digit.
pub open spec fn digit_val(c: char) -> nat {
    (c as int - '0' as int) as nat
}

/// Numeric value of a digit sequence read in base ten.
pub open spec fn digits_val(s: Seq<char>) -> nat
    decreases s.len(),
{
    if s.len() == 0 {
        0
    } else {
        digits_val(s.drop_last()) * 10 + digit_val(s.last())
    }
}

/// Position right after the run of digits starting at `i`.
pub open spec fn digit_run_end(s: Seq<char>, i: int) -> int
    decreases s.len() - i,
        when 0 <= i <= s.len()
{
    if i < s.len() && is_digit(s[i]) {
        digit_run_end(s, i + 1)
    } else {
        i
    }
}

proof fn lemma_digit_run_end_bounds(s: Seq<char>, i: int)
    requires
        0 <= i <= s.len(),
    ensures
        i <= digit_run_end(s, i) <= s.len(),
    decreases s.len() - i,
{
    if i < s.len() && is_digit(s[i]) {
        lemma_digit_run_end_bounds(s, i + 1);
    }
}

/// The literal `lit` occurs in `s` at position `i`.
pub open spec fn lit_at(s: Seq<char>, i: int, lit: Seq<char>) -> bool {
    0 <= i && i + lit.len() <= s.len() && s.subrange(i, i + lit.len()) == lit
}

/// Position after one pattern word starting at `i`: the given stem, then an
/// optional plural 's', then the given tail. `None` when the text differs.
pub open spec fn word_end(s: Seq<char>, i: int, stem: Seq<char>, tail: Seq<char>) -> Option<int> {
    if !lit_at(s, i, stem) {
        Option::None
    } else {
        let j = i + stem.len();
        if j < s.len() && s[j] == 's' {
            if lit_at(s, j + 1, tail) {
                Option::Some(j + 1 + tail.len())
            } else {
                Option::None
            }
        } else {
            if lit_at(s, j, tail) {
                Option::Some(j + tail.len())
            } else {
                Option::None
            }
        }
    }
}

/// The number starting at `i`: its value and the position after its digits,
/// or `None` when no digit stands at `i`.
pub open spec fn num_at(s: Seq<char>, i: int) -> Option<(nat, int)> {
    if 0 <= i <= s.len() {
        let e = digit_run_end(s, i);
        if e > i {
            Option::Some((digits_val(s.subrange(i, e)), e))
        } else {
            Option::None
        }
    } else {
        Option::None
    }
}

/// The three numbers of a summary pattern beginning exactly at `i`:
/// files changed, insertions, deletions.
pub open spec fn match_at(s: Seq<char>, i: int) -> Option<(nat, nat, nat)> {
    match num_at(s, i) {
        Option::None => Option::None,
        Option::Some(f) => match word_end(s, f.1, " file"@, " changed, "@) {
            Option::None => Option::None,
            Option::Some(j1) => match num_at(s, j1) {
                Option::None => Option::None,
                Option::Some(ins) => match word_end(s, ins.1, " insertion"@, "(+), "@) {
                    Option::None => Option::None,
                    Option::Some(j2) => match num_at(s, j2) {
                        Option::None => Option::None,
                        Option::Some(d) => match word_end(s, d.1, " deletion"@, "(-)"@) {
                            Option::None => Option::None,
                            Option::Some(_) => Option::Some((f.0, ins.0, d.0)),
                        },
                    },
                },
            },
        },
    }
}

/// The leftmost summary match at or after position `i`.
pub open spec fn first_match_from(s: Seq<char>, i: int) -> Option<(nat, nat, nat)>
    decreases s.len() - i,
        when 0 <= i <= s.len()
{
    if i >= s.len() {
        Option::None
    } else {
        match match_at(s, i) {
            Option::Some(t) => Option::Some(t),
            Option::None => first_match_from(s, i + 1),
        }
    }
}

/// The numbers one line of history output contributes: those of its
/// leftmost summary match, or nothing when no match occurs in it.
pub open spec fn line_delta(line: Seq<char>) -> Option<(nat, nat, nat)> {
    first_match_from(line, 0)
}

/// A line's contribution to the totals.
pub open spec fn delta_or_zero(line: Seq<char>) -> (nat, nat, nat) {
    match line_delta(line) {
        Option::Some(t) => t,
        Option::None => (0nat, 0nat, 0nat),
    }
}

/// Sum of the per-line contributions, componentwise: files changed,
/// insertions, deletions.
pub open spec fn totals(lines: Seq<Seq<char>>) -> (nat, nat, nat)
    decreases lines.len(),
{
    if lines.len() == 0 {
        (0nat, 0nat, 0nat)
    } else {
        let h = delta_or_zero(lines[0]);
        let r = totals(lines.drop_first());
        (h.0 + r.0, h.1 + r.1, h.2 + r.2)
    }
}

/// The totals of a whole raw history text.
pub open spec fn raw_totals(raw: Seq<char>) -> (nat, nat, nat) {
    totals(spec_lines(raw))
}

/// Whether a summary's numbers fit the result type.
pub open spec fn fits_u64(t: (nat, nat, nat)) -> bool {
    t.0 <= u64::MAX && t.1 <= u64::MAX && t.2 <= u64::MAX
}

/// Everything extraction promises: the result is `Ok` exactly when the
/// totals fit the result type, and then carries the queried author and the
/// componentwise sums over the matching lines of the raw text.
pub open spec fn extract_post(
    author: Seq<char>,
    raw: Seq<char>,
    r: Result<AuthorStats, StatsError>,
) -> bool {
    let t = raw_totals(raw);
    if fits_u64(t) {
        &&& r is Ok
        &&& r->Ok_0.author@ == author
        &&& r->Ok_0.files_changed == t.0
        &&& r->Ok_0.lines_inserted == t.1
        &&& r->Ok_0.lines_deleted == t.2
    } else {
        r == Result::<AuthorStats, StatsError>::Err(StatsError::ParseInvariantViolation)
    }
}

/// Decides whether a character is a decimal digit.
fn char_is_digit(c: char) -> (b: bool)
    ensures
        b == is_digit(c),
{
    c >= '0' && c <= '9'
}

/// Decides whether the literal occurs in `s` at position `i`.
fn lit_at_exec(s: &str, i: usize, lit: &str) -> (b: bool)
    ensures
        b == lit_at(s@, i as int, lit@),
{
    let n: usize = s.unicode_len();
    let l: usize = lit.unicode_len();
    if i > n || l > n - i {
        return false;
    }
    let mut k: usize = 0;
    while k < l
        invariant
            n == s@.len(),
            l == lit@.len(),
            i + l <= n,
            0 <= k <= l,
            forall|m: int| 0 <= m < k ==> s@[i + m] == lit@[m],
        decreases l - k,
    {
        if s.get_char(i + k) != lit.get_char(k) {
            proof {
                if s@.subrange(i as int, i as int + lit@.len()) == lit@ {
                    assert(s@.subrange(i as int, i as int + lit@.len())[k as int] == lit@[
                        k as int
                    ]);
                }
            }
            return false;
        }
        k = k + 1;
    }
    proof {
        assert(s@.subrange(i as int, i as int + lit@.len()) =~= lit@);
    }
    true
}

/// Scans the digit run starting at `i`: the run's value when it fits the
/// result type, a flag saying it did not, and the position after the run.
fn scan_number(s: &str, i: usize) -> (r: Option<(u64, bool, usize)>)
    requires
        i <= s@.len(),
    ensures
        r is Some <==> num_at(s@, i as int) is Some,
        r is Some ==> {
            let ve = num_at(s@, i as int)->Some_0;
            &&& r->Some_0.2 == ve.1
            &&& (r->Some_0.1 <==> ve.0 > u64::MAX)
            &&& (!r->Some_0.1 ==> r->Some_0.0 == ve.0)
        },
{
    let n: usize = s.unicode_len();
    let mut e: usize = i;
    let mut v: u64 = 0;
    let mut ovf: bool = false;
    proof {
        assert(s@.subrange(i as int, i as int) =~= Seq::<char>::empty());
    }
    while e < n && char_is_digit(s.get_char(e))
        invariant
            n == s@.len(),
            i <= e <= n,
            digit_run_end(s@, i as int) == digit_run_end(s@, e as int),
            ovf <==> digits_val(s@.subrange(i as int, e as int)) > u64::MAX,
            !ovf ==> v == digits_val(s@.subrange(i as int, e as int)),
        decreases n - e,
    {
        let c: char = s.get_char(e);
        let ghost pre = s@.subrange(i as int, e as int);
        proof {
            assert(s@.subrange(i as int, e as int + 1).drop_last() =~= pre);
            assert(s@.subrange(i as int, e as int + 1).last() == s@[e as int]);
            assert(digits_val(s@.subrange(i as int, e as int + 1)) == digits_val(pre) * 10
                + digit_val(s@[e as int]));
        }
        let d: u64 = (c as u32 - 48) as u64;
        proof {
            assert(d as nat == digit_val(c));
        }
        if !ovf {
            let v10: Option<u64> = v.checked_mul(10);
            match v10 {
                Option::Some(w) => {
                    let w1: Option<u64> = w.checked_add(d);
                    match w1 {
                        Option::Some(nv) => {
                            v = nv;
                        },
                        Option::None => {
                            ovf = true;
                        },
                    }
                },
                Option::None => {
                    ovf = true;
                },
            }
        } else {
            proof {
                assert(digits_val(pre) * 10 >= digits_val(pre));
            }
        }
        e = e + 1;
    }
    proof {
        assert(digit_run_end(s@, e as int) == e as int);
    }
    if e == i {
        Option::None
    } else {
        Option::Some((v, ovf, e))
    }
}

/// Matches one pattern word at `i`: the stem, an optional plural 's', then
/// the tail; returns the position after it.
fn word_end_exec(s: &str, i: usize, stem: &str, tail: &str) -> (r: Option<usize>)
    requires
        i <= s@.len(),
    ensures
        r is Some <==> word_end(s@, i as int, stem@, tail@) is Some,
        r is Some ==> r->Some_0 as int == word_end(s@, i as int, stem@, tail@)->Some_0,
        r is Some ==> i <= r->Some_0 <= s@.len(),
{
    let n: usize = s.unicode_len();
    if !lit_at_exec(s, i, stem) {
        return Option::None;
    }
    let j: usize = i + stem.unicode_len();
    if j < n && s.get_char(j) == 's' {
        if lit_at_exec(s, j + 1, tail) {
            Option::Some(j + 1 + tail.unicode_len())
        } else {
            Option::None
        }
    } else {
        if lit_at_exec(s, j, tail) {
            Option::Some(j + tail.unicode_len())
        } else {
            Option::None
        }
    }
}

/// Attempts the full summary pattern at position `i`: the three numbers and
/// a flag saying some matched group does not fit the result type.
fn try_match_at(s: &str, i: usize) -> (r: Option<(u64, u64, u64, bool)>)
    requires
        i <= s@.len(),
    ensures
        r is Some <==> match_at(s@, i as int) is Some,
        r is Some ==> {
            let t = match_at(s@, i as int)->Some_0;
            &&& (r->Some_0.3 <==> !fits_u64(t))
            &&& (!r->Some_0.3 ==> r->Some_0.0 == t.0 && r->Some_0.1 == t.1 && r->Some_0.2
                == t.2)
        },
{
    match scan_number(s, i) {
        Option::None => Option::None,
        Option::Some((files, fo, p1)) => {
            proof {
                lemma_digit_run_end_bounds(s@, i as int);
            }
            match word_end_exec(s, p1, " file", " changed, ") {
                Option::None => Option::None,
                Option::Some(p2) => match scan_number(s, p2) {
                    Option::None => Option::None,
                    Option::Some((ins, io, p3)) => {
                        proof {
                            lemma_digit_run_end_bounds(s@, p2 as int);
                        }
                        match word_end_exec(s, p3, " insertion", "(+), ") {
                            Option::None => Option::None,
                            Option::Some(p4) => match scan_number(s, p4) {
                                Option::None => Option::None,
                                Option::Some((dels, dl, p5)) => {
                                    proof {
                                        lemma_digit_run_end_bounds(s@, p4 as int);
                                    }
                                    match word_end_exec(s, p5, " deletion", "(-)") {
                                        Option::None => Option::None,
                                        Option::Some(_) => Option::Some(
                                            (files, ins, dels, fo || io || dl),
                                        ),
                                    }
                                },
                            },
                        }
                    },
                },
            }
        },
    }
}

/// What matching one line promises: `Ok(None)` exactly on lines without a
/// summary match, `Ok(Some(..))` with the leftmost match's numbers when they
/// fit the result type, and the fatal parse error otherwise.
pub open spec fn match_line_post(line: Seq<char>, r: Result<Option<CommitDelta>, StatsError>) -> bool {
    match line_delta(line) {
        Option::None => r == Result::<Option<CommitDelta>, StatsError>::Ok(
            Option::<CommitDelta>::None,
        ),
        Option::Some(t) => if fits_u64(t) {
            &&& r is Ok
            &&& r->Ok_0 is Some
            &&& r->Ok_0->Some_0.files_changed == t.0
            &&& r->Ok_0->Some_0.insertions == t.1
            &&& r->Ok_0->Some_0.deletions == t.2
        } else {
            r == Result::<Option<CommitDelta>, StatsError>::Err(StatsError::ParseInvariantViolation)
        },
    }
}

/// Finds the leftmost summary match in one line of history output.
pub fn match_summary_line(line: &str) -> (r: Result<Option<CommitDelta>, StatsError>)
    ensures
        match_line_post(line@, r),
{
    let n: usize = line.unicode_len();
    let mut i: usize = 0;
    while i < n
        invariant
            n == line@.len(),
            0 <= i <= n,
            first_match_from(line@, 0) == first_match_from(line@, i as int),
        decreases n - i,
    {
        match try_match_at(line, i) {
            Option::Some((files, ins, dels, ovf)) => {
                if ovf {
                    return Result::Err(StatsError::ParseInvariantViolation);
                } else {
                    return Result::Ok(
                        Option::Some(
                            CommitDelta { files_changed: files, insertions: ins, deletions: dels },
                        ),
                    );
                }
            },
            Option::None => {},
        }
        i = i + 1;
    }
    Result::Ok(Option::None)
}

/// Builds the per-author history query, with the author name embedded as a
/// quoted argument.
pub fn author_history_query(author: &str) -> (q: String)
    ensures
        q@ == "git log --shortstat --author=\""@ + author@ + "\""@,
{
    let mut q: String = "git log --shortstat --author=\"".to_owned();
    q.append(author);
    q.append("\"");
    q
}

/// Accumulates the summary totals of one author's raw history text.
///
/// The result is a pure function of the two inputs: it carries the queried
/// author, never anything read from the raw text, and the componentwise
/// sums over exactly the lines matching the summary pattern.
pub fn extract_from_text(author: &str, raw: &str) -> (r: Result<AuthorStats, StatsError>)
    ensures
        extract_post(author@, raw@, r),
{
    let lines: Vec<String> = split_lines(raw);
    let ghost lv = spec_lines(raw@);
    let mut files: u64 = 0;
    let mut ins: u64 = 0;
    let mut dels: u64 = 0;
    let mut i: usize = 0;
    proof {
        assert(lv.skip(0) =~= lv);
    }
    while i < lines.len()
        invariant
            lv == spec_lines(raw@),
            lines@.len() == lv.len(),
            forall|k: int| 0 <= k < lv.len() ==> lines@[k]@ == lv[k],
            0 <= i <= lv.len(),
            totals(lv).0 == files + totals(lv.skip(i as int)).0,
            totals(lv).1 == ins + totals(lv.skip(i as int)).1,
            totals(lv).2 == dels + totals(lv.skip(i as int)).2,
        decreases lv.len() - i,
    {
        let ghost i0 = i as int;
        let ghost rest = totals(lv.skip(i0));
        let ghost rest1 = totals(lv.skip(i0 + 1));
        let ghost h = delta_or_zero(lv[i0]);
        proof {
            assert(lv.skip(i0)[0] == lv[i0]);
            assert(lv.skip(i0).drop_first() =~= lv.skip(i0 + 1));
            assert(rest.0 == h.0 + rest1.0);
            assert(rest.1 == h.1 + rest1.1);
            assert(rest.2 == h.2 + rest1.2);
        }
        let line_r: Result<Option<CommitDelta>, StatsError> = match_summary_line(
            lines[i].as_str(),
        );
        proof {
            assert(lines@[i0]@ == lv[i0]);
            assert(match_line_post(lv[i0], line_r));
            assert(totals(lv).0 == files + h.0 + rest1.0);
            assert(totals(lv).1 == ins + h.1 + rest1.1);
            assert(totals(lv).2 == dels + h.2 + rest1.2);
        }
        match line_r {
            Result::Err(_) => {
                proof {
                    assert(line_delta(lv[i0]) is Some);
                    assert(h == line_delta(lv[i0])->Some_0);
                    assert(!fits_u64(h));
                    assert(!fits_u64(raw_totals(raw@)));
                }
                return Result::Err(StatsError::ParseInvariantViolation);
            },
            Result::Ok(Option::None) => {
                proof {
                    assert(h == (0nat, 0nat, 0nat));
                }
            },
            Result::Ok(Option::Some(cd)) => {
                proof {
                    assert(line_delta(lv[i0]) is Some);
                    assert(h == line_delta(lv[i0])->Some_0);
                    assert(h.0 == cd.files_changed);
                    assert(h.1 == cd.insertions);
                    assert(h.2 == cd.deletions);
                }
                match files.checked_add(cd.files_changed) {
                    Option::Some(nf) => {
                        files = nf;
                    },
                    Option::None => {
                        proof {
                            assert(totals(lv).0 > u64::MAX);
                            assert(!fits_u64(raw_totals(raw@)));
                        }
                        return Result::Err(StatsError::ParseInvariantViolation);
                    },
                }
                match ins.checked_add(cd.insertions) {
                    Option::Some(ni) => {
                        ins = ni;
                    },
                    Option::None => {
                        proof {
                            assert(totals(lv).1 > u64::MAX);
                            assert(!fits_u64(raw_totals(raw@)));
                        }
                        return Result::Err(StatsError::ParseInvariantViolation);
                    },
                }
                match dels.checked_add(cd.deletions) {
                    Option::Some(nd) => {
                        dels = nd;
                    },
                    Option::None => {
                        proof {
                            assert(totals(lv).2 > u64::MAX);
                            assert(!fits_u64(raw_totals(raw@)));
                        }
                        return Result::Err(StatsError::ParseInvariantViolation);
                    },
                }
            },
        }
        i = i + 1;
    }
    proof {
        assert(lv.skip(lv.len() as int) =~= Seq::<Seq<char>>::empty());
        assert(totals(lv.skip(lv.len() as int)) == (0nat, 0nat, 0nat));
    }
    Result::Ok(
        AuthorStats {
            author: author.to_owned(),
            files_changed: files,
            lines_inserted: ins,
            lines_deleted: dels,
        },
    )
}

/// The lines of a history text that match the summary pattern, in order.
pub open spec fn matching_lines(lines: Seq<Seq<char>>) -> Seq<Seq<char>>
    decreases lines.len(),
{
    if lines.len() == 0 {
        Seq::<Seq<char>>::empty()
    } else {
        let rest = matching_lines(lines.drop_first());
        if line_delta(lines[0]) is Some {
            seq![lines[0]] + rest
        } else {
            rest
        }
    }
}

/// The totals are the sums over exactly the lines matching the summary
/// pattern: lines without a match never contribute.
pub proof fn lemma_totals_from_matching_lines_only(lines: Seq<Seq<char>>)
    ensures
        totals(lines) == totals(matching_lines(lines)),
    decreases lines.len(),
{
    if lines.len() > 0 {
        lemma_totals_from_matching_lines_only(lines.drop_first());
        let rest = matching_lines(lines.drop_first());
        if line_delta(lines[0]) is Some {
            let m = seq![lines[0]] + rest;
            assert(m[0] == lines[0]);
            assert(m.drop_first() =~= rest);
        } else {
            assert(delta_or_zero(lines[0]) == (0nat, 0nat, 0nat));
        }
    }
}

/// The extractor is a pure function of its inputs: any two results allowed
/// for the same author and raw text agree in every field.
pub proof fn lemma_extract_deterministic(
    author: Seq<char>,
    raw: Seq<char>,
    r1: Result<AuthorStats, StatsError>,
    r2: Result<AuthorStats, StatsError>,
)
    requires
        extract_post(author, raw, r1),
        extract_post(author, raw, r2),
    ensures
        r1 is Ok <==> r2 is Ok,
        r1 is Ok ==> {
            &&& r1->Ok_0.author@ == r2->Ok_0.author@
            &&& r1->Ok_0.files_changed == r2->Ok_0.files_changed
            &&& r1->Ok_0.lines_inserted == r2->Ok_0.lines_inserted
            &&& r1->Ok_0.lines_deleted == r2->Ok_0.lines_deleted
        },
        r1 is Err ==> r1 == r2,
{
}

} // verus!
