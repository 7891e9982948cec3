use std::cmp::Ordering;

use exact_criterion::AttrCount;
use exact_criterion::Exact;
use exact_criterion::FieldsCounts;
use exact_criterion::RawDocument;
use exact_criterion::number_exact_matches;

fn fields_counts(entries: Vec<AttrCount>) -> FieldsCounts {
    FieldsCounts::new(entries).unwrap()
}

fn document(
    query_index: Vec<u32>,
    attribute: Vec<u16>,
    is_exact: Vec<bool>,
    entries: Vec<AttrCount>,
) -> RawDocument {
    RawDocument {
        query_index,
        attribute,
        is_exact,
        fields_counts: fields_counts(entries),
    }
}

// typing: "soulier"
//
// doc0: "Soulier bleu"
// doc1: "souliereres rouge"
#[test]
fn easy_case() {
    let doc0 = {
        let query_index = &[0];
        let attribute = &[0];
        let is_exact = &[true];
        let fields_counts = fields_counts(vec![AttrCount { attr: 0, count: 2 }]);

        number_exact_matches(query_index, attribute, is_exact, &fields_counts)
    };

    let doc1 = {
        let query_index = &[0];
        let attribute = &[0];
        let is_exact = &[false];
        let fields_counts = fields_counts(vec![AttrCount { attr: 0, count: 2 }]);

        number_exact_matches(query_index, attribute, is_exact, &fields_counts)
    };

    assert_eq!(doc0.cmp(&doc1).reverse(), Ordering::Less);
}

// typing: "soulier"
//
// doc0: { 0. "soulier" }
// doc1: { 0. "soulier bleu et blanc" }
#[test]
fn basic() {
    let doc0 = {
        let query_index = &[0];
        let attribute = &[0];
        let is_exact = &[true];
        let fields_counts = fields_counts(vec![AttrCount { attr: 0, count: 1 }]);

        number_exact_matches(query_index, attribute, is_exact, &fields_counts)
    };

    let doc1 = {
        let query_index = &[0];
        let attribute = &[0];
        let is_exact = &[true];
        let fields_counts = fields_counts(vec![AttrCount { attr: 0, count: 4 }]);

        number_exact_matches(query_index, attribute, is_exact, &fields_counts)
    };

    assert_eq!(doc0.cmp(&doc1).reverse(), Ordering::Less);
}

#[test]
fn exact_match_scores_one() {
    let fc = fields_counts(vec![AttrCount { attr: 0, count: 2 }]);
    let score = number_exact_matches(&[0], &[0], &[true], &fc);
    assert_eq!(score, 1);
}

#[test]
fn fuzzy_match_scores_zero() {
    let fc = fields_counts(vec![AttrCount { attr: 0, count: 2 }]);
    let score = number_exact_matches(&[0], &[0], &[false], &fc);
    assert_eq!(score, 0);
}

#[test]
fn exact_doc_ranks_ahead_of_fuzzy_doc() {
    let doc0 = document(vec![0], vec![0], vec![true], vec![AttrCount { attr: 0, count: 2 }]);
    let doc1 = document(vec![0], vec![0], vec![false], vec![AttrCount { attr: 0, count: 2 }]);
    assert_eq!(Exact.evaluate(&doc0, &doc1), Ordering::Less);
    assert_eq!(Exact.evaluate(&doc1, &doc0), Ordering::Greater);
}

#[test]
fn one_word_field_gives_sentinel() {
    let fc = fields_counts(vec![AttrCount { attr: 0, count: 1 }]);
    let score = number_exact_matches(&[0], &[0], &[true], &fc);
    assert_eq!(score, usize::MAX);
}

#[test]
fn sentinel_doc_ranks_ahead_of_plain_exact_doc() {
    let doc0 = document(vec![0], vec![0], vec![true], vec![AttrCount { attr: 0, count: 1 }]);
    let doc1 = document(vec![0], vec![0], vec![true], vec![AttrCount { attr: 0, count: 4 }]);
    assert_eq!(Exact.evaluate(&doc0, &doc1), Ordering::Less);
}

#[test]
fn sentinel_overrides_other_runs() {
    // The one-word field is hit in the middle of a longer match array.
    let fc = fields_counts(vec![
        AttrCount { attr: 0, count: 3 },
        AttrCount { attr: 1, count: 1 },
    ]);
    let score = number_exact_matches(
        &[0, 1, 2],
        &[0, 1, 0],
        &[true, true, true],
        &fc,
    );
    assert_eq!(score, usize::MAX);
}

#[test]
fn fuzzy_match_in_one_word_field_is_no_sentinel() {
    let fc = fields_counts(vec![AttrCount { attr: 0, count: 1 }]);
    let score = number_exact_matches(&[0], &[0], &[false], &fc);
    assert_eq!(score, 0);
}

#[test]
fn same_word_in_two_fields_counts_once() {
    let fc = fields_counts(vec![
        AttrCount { attr: 0, count: 5 },
        AttrCount { attr: 1, count: 5 },
    ]);
    let score = number_exact_matches(&[0, 0], &[0, 1], &[true, true], &fc);
    assert_eq!(score, 1);
}

#[test]
fn empty_matches_score_zero() {
    let fc = fields_counts(vec![AttrCount { attr: 0, count: 2 }]);
    let score = number_exact_matches(&[], &[], &[], &fc);
    assert_eq!(score, 0);
}

#[test]
fn empty_doc_ranks_behind_scoring_doc() {
    let doc0 = document(vec![], vec![], vec![], vec![AttrCount { attr: 0, count: 2 }]);
    let doc1 = document(vec![0], vec![0], vec![true], vec![AttrCount { attr: 0, count: 2 }]);
    assert_eq!(Exact.evaluate(&doc0, &doc1), Ordering::Greater);
}

#[test]
fn more_exact_words_rank_higher() {
    let doc0 = document(
        vec![0, 1],
        vec![0, 0],
        vec![true, true],
        vec![AttrCount { attr: 0, count: 3 }],
    );
    let doc1 = document(vec![0, 1], vec![0, 0], vec![true, false], vec![AttrCount {
        attr: 0,
        count: 3,
    }]);
    let s0 = number_exact_matches(&[0, 1], &[0, 0], &[true, true], &doc0.fields_counts);
    let s1 = number_exact_matches(&[0, 1], &[0, 0], &[true, false], &doc1.fields_counts);
    assert_eq!(s0, 2);
    assert_eq!(s1, 1);
    assert_eq!(Exact.evaluate(&doc0, &doc1), Ordering::Less);
}

#[test]
fn equal_scores_tie() {
    let doc0 = document(vec![0], vec![0], vec![true], vec![AttrCount { attr: 0, count: 2 }]);
    let doc1 = document(vec![0], vec![1], vec![true], vec![AttrCount { attr: 1, count: 6 }]);
    assert_eq!(Exact.evaluate(&doc0, &doc1), Ordering::Equal);
}

#[test]
fn missing_field_count_still_wins_run() {
    // The matched field has no entry in the table: the run still counts
    // as won, and no sentinel fires even though another field has count 1.
    let fc = fields_counts(vec![AttrCount { attr: 0, count: 1 }]);
    let score = number_exact_matches(&[0], &[7], &[true], &fc);
    assert_eq!(score, 1);
}

#[test]
fn mixed_runs_count_won_runs_only() {
    // Three runs: word 0 won (one of two occurrences exact), word 1 lost
    // (fuzzy only), word 2 won. No field has a single word, so no sentinel.
    let fc = fields_counts(vec![
        AttrCount { attr: 0, count: 3 },
        AttrCount { attr: 1, count: 8 },
    ]);
    let score = number_exact_matches(
        &[0, 0, 1, 2, 2],
        &[0, 1, 0, 1, 1],
        &[true, false, false, true, true],
        &fc,
    );
    assert_eq!(score, 2);
}

#[test]
fn criterion_name() {
    assert_eq!(Exact.name(), "Exact");
}

#[test]
fn fields_counts_rejects_unsorted() {
    let r = FieldsCounts::new(vec![
        AttrCount { attr: 1, count: 2 },
        AttrCount { attr: 0, count: 3 },
    ]);
    assert!(r.is_none());
}

#[test]
fn fields_counts_rejects_duplicate_attr() {
    let r = FieldsCounts::new(vec![
        AttrCount { attr: 0, count: 2 },
        AttrCount { attr: 0, count: 3 },
    ]);
    assert!(r.is_none());
}

#[test]
fn count_for_finds_entries() {
    let fc = fields_counts(vec![
        AttrCount { attr: 1, count: 10 },
        AttrCount { attr: 3, count: 20 },
        AttrCount { attr: 5, count: 30 },
        AttrCount { attr: 8, count: 40 },
    ]);
    assert_eq!(fc.count_for(1), Some(10));
    assert_eq!(fc.count_for(3), Some(20));
    assert_eq!(fc.count_for(5), Some(30));
    assert_eq!(fc.count_for(8), Some(40));
    assert_eq!(fc.count_for(0), None);
    assert_eq!(fc.count_for(4), None);
    assert_eq!(fc.count_for(9), None);
}
