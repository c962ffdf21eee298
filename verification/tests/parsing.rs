use git_code_stats::discovery::{list_authors_query, parse_authors};
use git_code_stats::stats::{
    author_history_query, extract_from_text, match_summary_line, StatsError,
};

#[test]
fn discovery_dedups_in_order() {
    let authors = parse_authors("alice\nbob\nbob\n");
    assert_eq!(authors.len(), 2);
    assert_eq!(authors[0], "alice");
    assert_eq!(authors[1], "bob");
}

#[test]
fn discovery_drops_blank_lines_and_duplicates() {
    let authors = parse_authors("\n\nbob\n   \nbob\nbob\n\n");
    assert_eq!(authors.len(), 1);
    assert_eq!(authors[0], "bob");
}

#[test]
fn discovery_trims_each_line() {
    let authors = parse_authors("  carol \t\r\ncarol\ndave\n");
    assert_eq!(authors.len(), 2);
    assert_eq!(authors[0], "carol");
    assert_eq!(authors[1], "dave");
}

#[test]
fn discovery_empty_text_yields_no_authors() {
    let authors = parse_authors("");
    assert_eq!(authors.len(), 0);
}

#[test]
fn extract_sums_two_matching_lines() {
    let raw = "3 files changed, 10 insertions(+), 2 deletions(-)\n\
               1 file changed, 1 insertion(+), 0 deletions(-)\n";
    let stats = extract_from_text("alice", raw).unwrap();
    assert_eq!(stats.author, "alice");
    assert_eq!(stats.files_changed, 4);
    assert_eq!(stats.lines_inserted, 11);
    assert_eq!(stats.lines_deleted, 2);
}

#[test]
fn extract_zero_matches_yields_zero_totals() {
    let raw = "commit 1234abcd\nAuthor: someone\n\n    a message\n";
    let stats = extract_from_text("dana", raw).unwrap();
    assert_eq!(stats.author, "dana");
    assert_eq!(stats.files_changed, 0);
    assert_eq!(stats.lines_inserted, 0);
    assert_eq!(stats.lines_deleted, 0);
}

#[test]
fn extract_author_field_is_the_input() {
    let raw = "Author: somebody else\n1 file changed, 2 insertions(+), 3 deletions(-)\n";
    let stats = extract_from_text("erin", raw).unwrap();
    assert_eq!(stats.author, "erin");
    assert_eq!(stats.lines_inserted, 2);
}

#[test]
fn extract_is_a_pure_function_of_its_input() {
    let raw = "2 files changed, 7 insertions(+), 1 deletion(-)\nnoise\n";
    let first = extract_from_text("frank", raw).unwrap();
    let second = extract_from_text("frank", raw).unwrap();
    assert_eq!(first.author, second.author);
    assert_eq!(first.files_changed, second.files_changed);
    assert_eq!(first.lines_inserted, second.lines_inserted);
    assert_eq!(first.lines_deleted, second.lines_deleted);
}

#[test]
fn extract_accepts_singular_wording() {
    let raw = "1 file changed, 1 insertion(+), 1 deletion(-)\n";
    let stats = extract_from_text("gia", raw).unwrap();
    assert_eq!(stats.files_changed, 1);
    assert_eq!(stats.lines_inserted, 1);
    assert_eq!(stats.lines_deleted, 1);
}

#[test]
fn extract_skips_partial_summaries() {
    let raw = "2 files changed, 5 deletions(-)\n2 files changed, 5 insertions(+)\n";
    let stats = extract_from_text("hal", raw).unwrap();
    assert_eq!(stats.files_changed, 0);
    assert_eq!(stats.lines_inserted, 0);
    assert_eq!(stats.lines_deleted, 0);
}

#[test]
fn extract_handles_crlf_line_endings() {
    let raw = "3 files changed, 4 insertions(+), 5 deletions(-)\r\nnoise\r\n";
    let stats = extract_from_text("ida", raw).unwrap();
    assert_eq!(stats.files_changed, 3);
    assert_eq!(stats.lines_inserted, 4);
    assert_eq!(stats.lines_deleted, 5);
}

#[test]
fn extract_overflowing_group_is_a_parse_invariant_violation() {
    let raw = "99999999999999999999999999 files changed, 1 insertion(+), 1 deletion(-)\n";
    let r = extract_from_text("jon", raw);
    assert!(matches!(r, Err(StatsError::ParseInvariantViolation)));
}

#[test]
fn match_line_takes_leftmost_summary() {
    let line = " 3 files changed, 10 insertions(+), 2 deletions(-)";
    let delta = match_summary_line(line).unwrap().unwrap();
    assert_eq!(delta.files_changed, 3);
    assert_eq!(delta.insertions, 10);
    assert_eq!(delta.deletions, 2);
}

#[test]
fn match_line_inside_other_text() {
    let line = "x 1 file changed, 2 insertions(+), 3 deletions(-) trailing";
    let delta = match_summary_line(line).unwrap().unwrap();
    assert_eq!(delta.files_changed, 1);
    assert_eq!(delta.insertions, 2);
    assert_eq!(delta.deletions, 3);
}

#[test]
fn match_line_without_summary_is_none() {
    assert!(match_summary_line("hello world").unwrap().is_none());
    assert!(match_summary_line("").unwrap().is_none());
    assert!(match_summary_line("12 files changed").unwrap().is_none());
}

#[test]
fn queries_have_the_expected_shape() {
    assert_eq!(
        list_authors_query(),
        "git log --format='%aN' | Sort-Object -Unique"
    );
    assert_eq!(
        author_history_query("bob"),
        "git log --shortstat --author=\"bob\""
    );
}
