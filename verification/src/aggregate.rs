//! Merging per-author extraction results into one aggregated mapping.
//!
//! Each worker owns one author's result; after all workers have finished,
//! the results are merged into a mapping keyed by author. The mapping is
//! insensitive to the order in which the results arrive.

use vstd::prelude::*;
use vstd::seq_lib::group_to_multiset_ensures;
use vstd::multiset::group_multiset_axioms;
use crate::palette::{color_for_index, spec_palette, Rgb};
use crate::stats::AuthorStats;

verus! {

/// One author paired with the display color of its discovery-order index,
/// ready to be handed to an independent unit of work.
pub struct WorkItem {
    pub author: String,
    pub color: Rgb,
}

/// One finished unit of work: an author's extracted totals and its color.
pub struct ExtractionResult {
    pub stats: AuthorStats,
    pub color: Rgb,
}

/// One entry of the aggregated mapping.
pub struct AggEntry {
    pub author: String,
    pub lines_inserted: u64,
    pub color: Rgb,
}

/// The aggregated mapping from author to insertion count and color,
/// exactly one entry per distinct author.
pub struct AggregatedStats {
    pub entries: Vec<AggEntry>,
}

/// No two results carry the same author.
pub open spec fn distinct_authors(rs: Seq<ExtractionResult>) -> bool {
    forall|i: int, j: int|
        0 <= i < j < rs.len() ==> rs[i].stats.author@ != rs[j].stats.author@
}

/// The mapping the results denote: each result writes its author's entry,
/// a later occurrence of the same author winning.
pub open spec fn results_map(rs: Seq<ExtractionResult>) -> Map<Seq<char>, (u64, Rgb)>
    decreases rs.len(),
{
    if rs.len() == 0 {
        Map::<Seq<char>, (u64, Rgb)>::empty()
    } else {
        results_map(rs.drop_last()).insert(
            rs.last().stats.author@,
            (rs.last().stats.lines_inserted, rs.last().color),
        )
    }
}

/// The mapping the aggregated entries denote.
pub open spec fn entries_map(es: Seq<AggEntry>) -> Map<Seq<char>, (u64, Rgb)>
    decreases es.len(),
{
    if es.len() == 0 {
        Map::<Seq<char>, (u64, Rgb)>::empty()
    } else {
        entries_map(es.drop_last()).insert(
            es.last().author@,
            (es.last().lines_inserted, es.last().color),
        )
    }
}

impl View for AggregatedStats {
    type V = Map<Seq<char>, (u64, Rgb)>;

    open spec fn view(&self) -> Map<Seq<char>, (u64, Rgb)> {
        entries_map(self.entries@)
    }
}

impl AggregatedStats {
    /// Entries are keyed by pairwise-distinct authors.
    pub open spec fn wf(&self) -> bool {
        forall|i: int, j: int|
            0 <= i < j < self.entries@.len() ==> self.entries@[i].author@
                != self.entries@[j].author@
    }

    /// Number of entries in the mapping.
    pub fn len(&self) -> (n: usize)
        ensures
            n == self.entries@.len(),
    {
        self.entries.len()
    }
}

/// Pairs each author with the palette color of its position in the
/// discovery sequence, one work item per author.
pub fn assign_colors(authors: &Vec<String>) -> (plan: Vec<WorkItem>)
    ensures
        plan@.len() == authors@.len(),
        forall|k: int|
            0 <= k < plan@.len() ==> (#[trigger] plan@[k]).author@ == authors@[k]@
                && plan@[k].color == spec_palette(k),
{
    let mut plan: Vec<WorkItem> = Vec::new();
    let mut i: usize = 0;
    while i < authors.len()
        invariant
            0 <= i <= authors@.len(),
            plan@.len() == i,
            forall|k: int|
                0 <= k < i ==> (#[trigger] plan@[k]).author@ == authors@[k]@ && plan@[k].color
                    == spec_palette(k),
        decreases authors@.len() - i,
    {
        let ghost plan0 = plan@;
        let author: String = authors[i].clone();
        let color: Rgb = color_for_index(i);
        proof {
            assert(author@ == authors@[i as int]@);
            assert(color == spec_palette(i as int));
        }
        plan.push(WorkItem { author, color });
        proof {
            assert(plan@ == plan0.push(plan@[i as int]));
            assert(plan@[i as int].author@ == authors@[i as int]@);
            assert(plan@[i as int].color == spec_palette(i as int));
            assert(forall|k: int| 0 <= k < i ==> plan@[k] == plan0[k]);
        }
        i = i + 1;
    }
    plan
}

/// Merges the finished results into the aggregated mapping: exactly one
/// complete entry per result, in the order given, each keyed by its
/// distinct author.
pub fn aggregate_results(results: Vec<ExtractionResult>) -> (agg: AggregatedStats)
    requires
        distinct_authors(results@),
    ensures
        agg.wf(),
        agg.entries@.len() == results@.len(),
        forall|k: int|
            0 <= k < results@.len() ==> agg.entries@[k].author@ == results@[k].stats.author@
                && agg.entries@[k].lines_inserted == results@[k].stats.lines_inserted
                && agg.entries@[k].color == results@[k].color,
        agg@ == results_map(results@),
{
    let mut entries: Vec<AggEntry> = Vec::new();
    let mut i: usize = 0;
    proof {
        assert(results@.take(0) =~= Seq::<ExtractionResult>::empty());
    }
    while i < results.len()
        invariant
            0 <= i <= results@.len(),
            entries@.len() == i,
            forall|k: int|
                0 <= k < i ==> entries@[k].author@ == results@[k].stats.author@
                    && entries@[k].lines_inserted == results@[k].stats.lines_inserted
                    && entries@[k].color == results@[k].color,
            entries_map(entries@) == results_map(results@.take(i as int)),
        decreases results@.len() - i,
    {
        let ghost es0 = entries@;
        let r = &results[i];
        let entry = AggEntry {
            author: r.stats.author.clone(),
            lines_inserted: r.stats.lines_inserted,
            color: r.color,
        };
        entries.push(entry);
        proof {
            assert(entries@.drop_last() =~= es0);
            assert(results@.take(i as int + 1).drop_last() =~= results@.take(i as int));
            assert(results@.take(i as int + 1).last() == results@[i as int]);
        }
        i = i + 1;
    }
    proof {
        assert(results@.take(results@.len() as int) =~= results@);
    }
    AggregatedStats { entries }
}

/// With distinct authors, the mapping holds exactly one entry per result:
/// its keys are exactly the authors, and each author's entry carries that
/// author's insertion count and color.
pub proof fn lemma_results_map_characterization(rs: Seq<ExtractionResult>)
    requires
        distinct_authors(rs),
    ensures
        forall|k: Seq<char>|
            #[trigger] results_map(rs).contains_key(k) <==> exists|i: int|
                0 <= i < rs.len() && #[trigger] rs[i].stats.author@ == k,
        forall|i: int|
            0 <= i < rs.len() ==> results_map(rs).contains_key(#[trigger] rs[i].stats.author@)
                && results_map(rs)[rs[i].stats.author@] == (
                rs[i].stats.lines_inserted,
                rs[i].color,
            ),
    decreases rs.len(),
{
    if rs.len() > 0 {
        let pre = rs.drop_last();
        assert(distinct_authors(pre)) by {
            assert(forall|i: int| 0 <= i < pre.len() ==> pre[i] == rs[i]);
        }
        lemma_results_map_characterization(pre);
        assert forall|k: Seq<char>| #[trigger] results_map(rs).contains_key(k) implies exists|
            i: int,
        | 0 <= i < rs.len() && #[trigger] rs[i].stats.author@ == k by {
            if k == rs.last().stats.author@ {
                assert(rs[rs.len() - 1].stats.author@ == k);
            } else {
                assert(results_map(pre).contains_key(k));
                let i = choose|i: int| 0 <= i < pre.len() && #[trigger] pre[i].stats.author@
                    == k;
                assert(rs[i].stats.author@ == k);
            }
        }
        assert forall|i: int| 0 <= i < rs.len() implies results_map(rs).contains_key(
            #[trigger] rs[i].stats.author@,
        ) && results_map(rs)[rs[i].stats.author@] == (
            rs[i].stats.lines_inserted,
            rs[i].color,
        ) by {
            if i == rs.len() - 1 {
                assert(rs.last() == rs[i]);
            } else {
                assert(pre[i] == rs[i]);
                assert(rs[i].stats.author@ != rs.last().stats.author@);
            }
        }
    }
}

/// Pairwise-distinct authors carry over to any reordering of the results.
proof fn lemma_distinct_authors_permuted(r1: Seq<ExtractionResult>, r2: Seq<ExtractionResult>)
    requires
        r1.to_multiset() == r2.to_multiset(),
        distinct_authors(r1),
    ensures
        distinct_authors(r2),
{
    broadcast use group_to_multiset_ensures;
    broadcast use group_multiset_axioms;

    assert(r1.no_duplicates()) by {
        assert forall|i: int, j: int|
            0 <= i < r1.len() && 0 <= j < r1.len() && i != j implies r1[i] != r1[j] by {
            if i < j {
                assert(r1[i].stats.author@ != r1[j].stats.author@);
            } else {
                assert(r1[j].stats.author@ != r1[i].stats.author@);
            }
        }
    }
    r1.lemma_multiset_has_no_duplicates();
    assert forall|i: int, j: int| 0 <= i < j < r2.len() implies r2[i].stats.author@
        != r2[j].stats.author@ by {
        let x = r2[i];
        let y = r2[j];
        if x == y {
            assert(r2.remove(j).to_multiset() =~= r2.to_multiset().remove(y));
            assert(r2.remove(j)[i] == x);
            assert(r2.remove(j).contains(x));
            assert(r2.remove(j).to_multiset().count(x) > 0);
            assert(r2.to_multiset().count(x) >= 2);
            assert(r1.to_multiset().count(x) >= 2);
            assert(r1.contains(x));
            assert(r1.to_multiset().count(x) == 1);
            assert(false);
        } else if x.stats.author@ == y.stats.author@ {
            assert(r2.contains(x) && r2.contains(y));
            assert(r1.to_multiset().count(x) > 0 && r1.to_multiset().count(y) > 0);
            assert(r1.contains(x) && r1.contains(y));
            let a = choose|a: int| 0 <= a < r1.len() && r1[a] == x;
            let b = choose|b: int| 0 <= b < r1.len() && r1[b] == y;
            assert(a != b);
            if a < b {
                assert(r1[a].stats.author@ != r1[b].stats.author@);
            } else {
                assert(r1[b].stats.author@ != r1[a].stats.author@);
            }
            assert(false);
        }
    }
}

/// The aggregated mapping does not depend on the order in which the
/// workers' results arrive: merging any reordering of the same results
/// yields the same mapping.
pub proof fn lemma_aggregation_order_irrelevant(
    r1: Seq<ExtractionResult>,
    r2: Seq<ExtractionResult>,
)
    requires
        r1.to_multiset() == r2.to_multiset(),
        distinct_authors(r1),
    ensures
        results_map(r1) == results_map(r2),
{
    broadcast use group_to_multiset_ensures;

    lemma_distinct_authors_permuted(r1, r2);
    lemma_results_map_characterization(r1);
    lemma_results_map_characterization(r2);
    assert forall|k: Seq<char>| results_map(r1).contains_key(k) implies results_map(
        r2,
    ).contains_key(k) && results_map(r2)[k] == results_map(r1)[k] by {
        let i = choose|i: int| 0 <= i < r1.len() && #[trigger] r1[i].stats.author@ == k;
        let x = r1[i];
        assert(r1.contains(x));
        assert(r1.to_multiset().count(x) > 0);
        assert(r2.contains(x));
        let j = choose|j: int| 0 <= j < r2.len() && r2[j] == x;
        assert(r2[j].stats.author@ == k);
        assert(results_map(r2)[k] == (x.stats.lines_inserted, x.color));
        assert(results_map(r1)[k] == (x.stats.lines_inserted, x.color));
    }
    assert forall|k: Seq<char>| results_map(r2).contains_key(k) implies results_map(
        r1,
    ).contains_key(k) by {
        let j = choose|j: int| 0 <= j < r2.len() && #[trigger] r2[j].stats.author@ == k;
        let y = r2[j];
        assert(r2.contains(y));
        assert(r2.to_multiset().count(y) > 0);
        assert(r1.contains(y));
        let i = choose|i: int| 0 <= i < r1.len() && r1[i] == y;
        assert(r1[i].stats.author@ == k);
    }
    assert(results_map(r1) =~= results_map(r2));
}

} // verus!
