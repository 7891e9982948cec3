//! The ordering laws of the exact-match criterion, stated over the score
//! model and proved once for all inputs.

use core::cmp::Ordering;
use vstd::prelude::*;

use crate::exact::RawDocument;
use crate::exact::criterion_ordering;
use crate::exact::lemma_won_words_before_le;
use crate::exact::sentinel_triggered;
use crate::exact::won_words;

verus! {

/// Over fixed field-count data, the score is monotonically non-decreasing
/// in the number of distinct query words with at least one exact
/// occurrence: a document that exactly matches no more distinct query
/// words than another scores no higher than the other. The one exclusion
/// is a pair where only the lower-counting document triggers the sentinel,
/// which the sentinel is meant to put ahead regardless of counts.
pub proof fn lemma_score_monotone(fewer: RawDocument, more: RawDocument)
    requires
        fewer.wf(),
        fewer.fields_counts.counts@ == more.fields_counts.counts@,
        sentinel_triggered(fewer.attribute@, fewer.is_exact@, fewer.fields_counts.counts@)
            ==> sentinel_triggered(more.attribute@, more.is_exact@, more.fields_counts.counts@),
        won_words(fewer.query_index@, fewer.is_exact@).len() <= won_words(
            more.query_index@,
            more.is_exact@,
        ).len(),
    ensures
        fewer.score() <= more.score(),
{
    lemma_won_words_before_le(fewer.query_index@, fewer.is_exact@, fewer.query_index@.len() as int);
}

/// If any exact occurrence's field has total word count exactly one, the
/// score equals the sentinel maximum, whatever the other runs contributed.
pub proof fn lemma_sentinel_overrides(doc: RawDocument)
    requires
        sentinel_triggered(doc.attribute@, doc.is_exact@, doc.fields_counts.counts@),
    ensures
        doc.score() == usize::MAX as nat,
{
}

/// The sentinel maximum compares greater than any finite score, and the
/// criterion ranks a document achieving it strictly ahead of one that
/// does not.
pub proof fn lemma_sentinel_outranks(winner: RawDocument, other: RawDocument)
    requires
        other.wf(),
        sentinel_triggered(winner.attribute@, winner.is_exact@, winner.fields_counts.counts@),
        !sentinel_triggered(other.attribute@, other.is_exact@, other.fields_counts.counts@),
    ensures
        other.score() < winner.score(),
        criterion_ordering(winner.score(), other.score()) == Ordering::Less,
{
    lemma_won_words_before_le(other.query_index@, other.is_exact@, other.query_index@.len() as int);
}

/// Documents with equal scores tie under the criterion, deferring to
/// later criteria in the chain.
pub proof fn lemma_equal_scores_tie(lhs: RawDocument, rhs: RawDocument)
    requires
        lhs.score() == rhs.score(),
    ensures
        criterion_ordering(lhs.score(), rhs.score()) == Ordering::Equal,
{
}

} // verus!
