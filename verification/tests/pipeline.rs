use git_code_stats::aggregate::{
    aggregate_results, assign_colors, AggregatedStats, ExtractionResult,
};
use git_code_stats::palette::{color_for_index, Rgb, PALETTE_SIZE};
use git_code_stats::present::{to_chart_records, FILL_GLYPH};
use git_code_stats::stats::AuthorStats;

fn result_for(author: &str, inserted: u64, index: usize) -> ExtractionResult {
    ExtractionResult {
        stats: AuthorStats {
            author: author.to_string(),
            files_changed: 1,
            lines_inserted: inserted,
            lines_deleted: 0,
        },
        color: color_for_index(index),
    }
}

#[test]
fn palette_colors_distinct_within_size() {
    for i in 0..PALETTE_SIZE {
        for j in (i + 1)..PALETTE_SIZE {
            assert_ne!(color_for_index(i), color_for_index(j));
        }
    }
}

#[test]
fn palette_wraps_with_period_equal_to_size() {
    for i in 0..(3 * PALETTE_SIZE) {
        assert_eq!(color_for_index(i + PALETTE_SIZE), color_for_index(i));
    }
    assert_eq!(color_for_index(0), Rgb { red: 255, green: 0, blue: 0 });
}

#[test]
fn assign_colors_pairs_authors_with_indexed_colors() {
    let authors = vec!["a".to_string(), "b".to_string(), "c".to_string()];
    let plan = assign_colors(&authors);
    assert_eq!(plan.len(), 3);
    for (i, item) in plan.iter().enumerate() {
        assert_eq!(item.author, authors[i]);
        assert_eq!(item.color, color_for_index(i));
    }
}

#[test]
fn aggregate_yields_one_entry_per_author() {
    let results = vec![
        result_for("alice", 10, 0),
        result_for("bob", 0, 1),
        result_for("carol", 7, 2),
    ];
    let agg = aggregate_results(results);
    assert_eq!(agg.len(), 3);
    assert_eq!(agg.entries[0].author, "alice");
    assert_eq!(agg.entries[0].lines_inserted, 10);
    assert_eq!(agg.entries[0].color, color_for_index(0));
    assert_eq!(agg.entries[1].author, "bob");
    assert_eq!(agg.entries[1].lines_inserted, 0);
    assert_eq!(agg.entries[2].author, "carol");
    assert_eq!(agg.entries[2].lines_inserted, 7);
}

#[test]
fn aggregate_is_insensitive_to_arrival_order() {
    let one = aggregate_results(vec![
        result_for("alice", 10, 0),
        result_for("bob", 3, 1),
    ]);
    let two = aggregate_results(vec![
        result_for("bob", 3, 1),
        result_for("alice", 10, 0),
    ]);
    assert_eq!(one.len(), two.len());
    for entry in &one.entries {
        let twin = two
            .entries
            .iter()
            .find(|e| e.author == entry.author)
            .expect("author present in both mappings");
        assert_eq!(twin.lines_inserted, entry.lines_inserted);
        assert_eq!(twin.color, entry.color);
    }
}

#[test]
fn empty_author_list_flows_to_empty_chart() {
    let agg: AggregatedStats = aggregate_results(Vec::new());
    assert_eq!(agg.len(), 0);
    let records = to_chart_records(&agg);
    assert!(records.is_empty());
}

#[test]
fn chart_records_mirror_the_aggregated_entries() {
    let agg = aggregate_results(vec![
        result_for("alice", 11, 0),
        result_for("zero", 0, 1),
    ]);
    let records = to_chart_records(&agg);
    assert_eq!(records.len(), 2);
    assert_eq!(records[0].label, "alice");
    assert_eq!(records[0].value, 11);
    assert_eq!(records[0].color, color_for_index(0));
    assert_eq!(records[0].fill, FILL_GLYPH);
    assert_eq!(records[1].label, "zero");
    assert_eq!(records[1].value, 0);
    assert_eq!(records[1].color, color_for_index(1));
    assert_eq!(records[1].fill, '\u{2022}');
}
