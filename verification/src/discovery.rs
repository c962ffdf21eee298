//! Author discovery: turning the raw output of a "list distinct authors"
//! query into an ordered sequence of unique, trimmed author identifiers.
//!
//! The raw text is split on line breaks, each line is trimmed, empty lines
//! are discarded, and duplicates are dropped keeping the first occurrence,
//! so the order produced by the underlying sort is preserved.

use vstd::prelude::*;
use crate::text::{spec_lines, spec_trim, split_lines, trim_str};

verus! {

/// The lines each trimmed, with lines that trim to nothing dropped.
pub open spec fn cleaned_lines(lines: Seq<Seq<char>>) -> Seq<Seq<char>>
    decreases lines.len(),
{
    if lines.len() == 0 {
        Seq::<Seq<char>>::empty()
    } else {
        let t = spec_trim(lines[0]);
        let rest = cleaned_lines(lines.drop_first());
        if t.len() == 0 {
            rest
        } else {
            seq![t] + rest
        }
    }
}

/// The sequence with duplicates removed, keeping each element's first
/// occurrence in place.
pub open spec fn dedup_keep_first(items: Seq<Seq<char>>) -> Seq<Seq<char>>
    decreases items.len(),
{
    if items.len() == 0 {
        Seq::<Seq<char>>::empty()
    } else {
        let pre = dedup_keep_first(items.drop_last());
        if pre.contains(items.last()) {
            pre
        } else {
            pre.push(items.last())
        }
    }
}

/// What author discovery returns for a given raw author-list text.
pub open spec fn spec_discover(raw: Seq<char>) -> Seq<Seq<char>> {
    dedup_keep_first(cleaned_lines(spec_lines(raw)))
}

/// Deduplication leaves no duplicate elements.
pub proof fn lemma_dedup_no_duplicates(items: Seq<Seq<char>>)
    ensures
        dedup_keep_first(items).no_duplicates(),
    decreases items.len(),
{
    if items.len() > 0 {
        lemma_dedup_no_duplicates(items.drop_last());
    }
}

/// Discovered author identifiers are pairwise distinct, whatever the raw
/// text held: blank lines and repeated entries never yield duplicates.
pub proof fn lemma_discovered_authors_distinct(raw: Seq<char>)
    ensures
        spec_discover(raw).no_duplicates(),
{
    lemma_dedup_no_duplicates(cleaned_lines(spec_lines(raw)));
}

/// The query whose output lists every distinct commit author, one name per
/// line, sorted and de-duplicated by the external tool.
pub fn list_authors_query() -> (q: String)
    ensures
        q@ == "git log --format='%aN' | Sort-Object -Unique"@,
{
    "git log --format='%aN' | Sort-Object -Unique".to_owned()
}

/// Parses raw author-list output into the ordered sequence of distinct,
/// trimmed, non-empty author identifiers.
pub fn parse_authors(raw: &str) -> (authors: Vec<String>)
    ensures
        authors@.len() == spec_discover(raw@).len(),
        forall|k: int| 0 <= k < authors@.len() ==> authors@[k]@ == spec_discover(raw@)[k],
        forall|i: int, j: int|
            0 <= i < j < authors@.len() ==> authors@[i]@ != authors@[j]@,
{
    proof {
        lemma_discovered_authors_distinct(raw@);
    }
    let lines: Vec<String> = split_lines(raw);
    let ghost lv = spec_lines(raw@);

    let mut cleaned: Vec<String> = Vec::new();
    let mut i: usize = 0;
    proof {
        assert(lv.skip(0) =~= lv);
    }
    while i < lines.len()
        invariant
            lines@.len() == lv.len(),
            forall|k: int| 0 <= k < lv.len() ==> lines@[k]@ == lv[k],
            0 <= i <= lines@.len(),
            cleaned_lines(lv).len() == cleaned@.len() + cleaned_lines(lv.skip(i as int)).len(),
            forall|k: int| 0 <= k < cleaned@.len() ==> cleaned_lines(lv)[k] == cleaned@[k]@,
            forall|k: int|
                0 <= k < cleaned_lines(lv.skip(i as int)).len() ==> cleaned_lines(lv)[cleaned@.len()
                    + k] == cleaned_lines(lv.skip(i as int))[k],
        decreases lines@.len() - i,
    {
        let ghost i0 = i as int;
        let ghost cl0 = cleaned@;
        let ghost rest = cleaned_lines(lv.skip(i0));
        let ghost rest1 = cleaned_lines(lv.skip(i0 + 1));
        proof {
            assert(lv.skip(i0)[0] == lv[i0]);
            assert(lv.skip(i0).drop_first() =~= lv.skip(i0 + 1));
        }
        let t: String = trim_str(lines[i].as_str());
        if t.as_str().unicode_len() > 0 {
            cleaned.push(t);
            proof {
                assert(rest == seq![spec_trim(lv[i0])] + rest1);
                assert(cleaned_lines(lv)[cl0.len() as int] == rest[0]);
                assert(rest[0] == spec_trim(lv[i0]));
                assert forall|k: int| 0 <= k < rest1.len() implies cleaned_lines(lv)[cleaned@.len()
                    + k] == rest1[k] by {
                    assert(cleaned_lines(lv)[cl0.len() + (k + 1)] == rest[k + 1]);
                    assert(rest[k + 1] == rest1[k]);
                }
            }
        } else {
            proof {
                assert(spec_trim(lv[i0]).len() == 0);
                assert(rest == rest1);
            }
        }
        i = i + 1;
    }
    proof {
        assert(lv.skip(lines@.len() as int) =~= Seq::<Seq<char>>::empty());
        assert(cleaned_lines(lv.skip(lines@.len() as int)).len() == 0);
    }

    let ghost cv = Seq::new(cleaned@.len() as nat, |k: int| cleaned@[k]@);
    proof {
        assert(cv =~= cleaned_lines(lv));
    }
    let mut authors: Vec<String> = Vec::new();
    let mut j: usize = 0;
    proof {
        assert(cv.take(0) =~= Seq::<Seq<char>>::empty());
    }
    while j < cleaned.len()
        invariant
            cv == Seq::new(cleaned@.len() as nat, |k: int| cleaned@[k]@),
            0 <= j <= cleaned@.len(),
            authors@.len() == dedup_keep_first(cv.take(j as int)).len(),
            forall|k: int| 0 <= k < authors@.len() ==> authors@[k]@ == dedup_keep_first(
                cv.take(j as int),
            )[k],
        decreases cleaned@.len() - j,
    {
        let ghost pre = dedup_keep_first(cv.take(j as int));
        let mut found: bool = false;
        let mut m: usize = 0;
        while m < authors.len()
            invariant
                0 <= m <= authors@.len(),
                j < cleaned@.len(),
                found <==> exists|k: int| 0 <= k < m && authors@[k]@ == cleaned@[j as int]@,
            decreases authors@.len() - m,
        {
            if authors[m] == cleaned[j] {
                found = true;
            }
            m = m + 1;
        }
        proof {
            assert(cv.take(j as int + 1).drop_last() =~= cv.take(j as int));
            assert(cv.take(j as int + 1).last() == cv[j as int]);
            assert(cv[j as int] == cleaned@[j as int]@);
            if found {
                let k = choose|k: int| 0 <= k < authors@.len() && authors@[k]@ == cleaned@[
                    j as int
                ]@;
                assert(pre[k] == cv[j as int]);
                assert(pre.contains(cv[j as int]));
            } else {
                if pre.contains(cv[j as int]) {
                    let k = choose|k: int| 0 <= k < pre.len() && pre[k] == cv[j as int];
                    assert(authors@[k]@ == cleaned@[j as int]@);
                }
                assert(!pre.contains(cv[j as int]));
            }
        }
        if !found {
            let a: String = cleaned[j].clone();
            authors.push(a);
        }
        j = j + 1;
    }
    proof {
        assert(cv.take(cleaned@.len() as int) =~= cv);
        assert forall|i: int, j: int| 0 <= i < j < authors@.len() implies authors@[i]@
            != authors@[j]@ by {
            assert(authors@[i]@ == spec_discover(raw@)[i]);
            assert(authors@[j]@ == spec_discover(raw@)[j]);
            assert(spec_discover(raw@)[i] != spec_discover(raw@)[j]);
        }
    }
    authors
}

} // verus!
