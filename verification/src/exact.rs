//! The exact-match scorer and the criterion comparing documents by it.

use core::cmp::Ordering;
use vstd::prelude::*;
use vstd::set_lib::lemma_len_subset;

use crate::fields::AttrCount;
use crate::fields::FieldsCounts;
use crate::fields::field_count;

verus! {

broadcast use vstd::seq_lib::seq_to_set_is_finite;

/// Ascending query-word indices: all occurrences of one query word
/// stand next to each other.
pub open spec fn sorted_by_query_index(query_index: Seq<u32>) -> bool {
    forall|i: int, j: int| 0 <= i <= j < query_index.len() ==> query_index[i] <= query_index[j]
}

/// Query word `w` has an exact occurrence among the first `n` occurrences.
pub open spec fn word_won_before(
    query_index: Seq<u32>,
    is_exact: Seq<bool>,
    n: int,
    w: u32,
) -> bool {
    exists|i: int| 0 <= i < n && query_index[i] == w && is_exact[i]
}

/// The distinct query words with an exact occurrence among the first `n`
/// occurrences.
pub open spec fn won_words_before(query_index: Seq<u32>, is_exact: Seq<bool>, n: int) -> Set<u32> {
    Set::new(|w: u32| word_won_before(query_index, is_exact, n, w))
}

/// The distinct query words with at least one exact occurrence.
pub open spec fn won_words(query_index: Seq<u32>, is_exact: Seq<bool>) -> Set<u32> {
    won_words_before(query_index, is_exact, query_index.len() as int)
}

/// Among the first `n` occurrences, some exact occurrence falls in a field
/// whose whole content is that one word.
pub open spec fn sentinel_before(
    attribute: Seq<u16>,
    is_exact: Seq<bool>,
    fields_counts: Seq<AttrCount>,
    n: int,
) -> bool {
    exists|i: int|
        0 <= i < n && is_exact[i] && field_count(fields_counts, attribute[i]) == Some(1u64)
}

/// Some exact occurrence falls in a field whose whole content is that
/// one word: the document dominates this criterion.
pub open spec fn sentinel_triggered(
    attribute: Seq<u16>,
    is_exact: Seq<bool>,
    fields_counts: Seq<AttrCount>,
) -> bool {
    sentinel_before(attribute, is_exact, fields_counts, is_exact.len() as int)
}

/// The exact-match score of a document's match data: the number of distinct
/// query words with at least one exact occurrence, or the sentinel
/// `usize::MAX` when an exact occurrence fills a one-word field completely.
pub open spec fn exact_score(
    query_index: Seq<u32>,
    attribute: Seq<u16>,
    is_exact: Seq<bool>,
    fields_counts: Seq<AttrCount>,
) -> nat {
    if sentinel_triggered(attribute, is_exact, fields_counts) {
        usize::MAX as nat
    } else {
        won_words(query_index, is_exact).len()
    }
}

/// The won-word set over a prefix is finite and has no more members than
/// the prefix has occurrences.
pub proof fn lemma_won_words_before_le(query_index: Seq<u32>, is_exact: Seq<bool>, n: int)
    requires
        0 <= n <= query_index.len(),
    ensures
        won_words_before(query_index, is_exact, n).finite(),
        won_words_before(query_index, is_exact, n).len() <= n,
{
    let ws = won_words_before(query_index, is_exact, n);
    let prefix = query_index.subrange(0, n);
    assert forall|w: u32| ws.contains(w) implies prefix.to_set().contains(w) by {
        let i = choose|i: int| 0 <= i < n && query_index[i] == w && is_exact[i];
        assert(prefix[i] == w);
        assert(prefix.contains(w));
    }
    prefix.lemma_cardinality_of_set();
    lemma_len_subset(ws, prefix.to_set());
}

/// Extending a prefix that ends on a run boundary by a whole run that has
/// an exact occurrence adds exactly the run's query word to the won words.
proof fn lemma_run_extends_won_words(
    query_index: Seq<u32>,
    is_exact: Seq<bool>,
    start: int,
    end: int,
)
    requires
        0 <= start < end <= query_index.len(),
        sorted_by_query_index(query_index),
        start == 0 || query_index[start - 1] != query_index[start],
        forall|k: int| start <= k < end ==> query_index[k] == query_index[start],
        exists|k: int| start <= k < end && is_exact[k],
    ensures
        !won_words_before(query_index, is_exact, start).contains(query_index[start]),
        won_words_before(query_index, is_exact, end) == won_words_before(
            query_index,
            is_exact,
            start,
        ).insert(query_index[start]),
{
    let w = query_index[start];
    let before = won_words_before(query_index, is_exact, start);
    let after = won_words_before(query_index, is_exact, end);
    if before.contains(w) {
        let i = choose|i: int| 0 <= i < start && query_index[i] == w && is_exact[i];
        assert(query_index[i] <= query_index[start - 1]);
        assert(query_index[start - 1] <= query_index[start]);
        assert(false);
    }
    assert forall|x: u32| after.contains(x) implies before.insert(w).contains(x) by {
        let i = choose|i: int| 0 <= i < end && query_index[i] == x && is_exact[i];
        if i < start {
            assert(before.contains(x));
        } else {
            assert(x == w);
        }
    }
    assert forall|x: u32| before.insert(w).contains(x) implies after.contains(x) by {
        if x == w {
            let k = choose|k: int| start <= k < end && is_exact[k];
            assert(0 <= k < end && query_index[k] == w && is_exact[k]);
        } else {
            let i = choose|i: int| 0 <= i < start && query_index[i] == x && is_exact[i];
            assert(0 <= i < end && query_index[i] == x && is_exact[i]);
        }
    }
    assert(after =~= before.insert(w));
}

/// Extending a prefix by a run with no exact occurrence leaves the won
/// words unchanged.
proof fn lemma_run_keeps_won_words(query_index: Seq<u32>, is_exact: Seq<bool>, start: int, end: int)
    requires
        0 <= start <= end <= query_index.len(),
        forall|k: int| start <= k < end ==> !is_exact[k],
    ensures
        won_words_before(query_index, is_exact, end) == won_words_before(
            query_index,
            is_exact,
            start,
        ),
{
    let before = won_words_before(query_index, is_exact, start);
    let after = won_words_before(query_index, is_exact, end);
    assert forall|x: u32| after.contains(x) implies before.contains(x) by {
        let i = choose|i: int| 0 <= i < end && query_index[i] == x && is_exact[i];
        assert(0 <= i < start && query_index[i] == x && is_exact[i]);
    }
    assert forall|x: u32| before.contains(x) implies after.contains(x) by {
        let i = choose|i: int| 0 <= i < start && query_index[i] == x && is_exact[i];
        assert(0 <= i < end && query_index[i] == x && is_exact[i]);
    }
    assert(after =~= before);
}

/// Scores one document's match data. The three slices describe the
/// occurrences in step: occurrence `i` matched query word `query_index[i]`
/// in field `attribute[i]`, verbatim exactly when `is_exact[i]`. The result
/// counts the distinct query words with at least one exact occurrence,
/// except that an exact occurrence in a field whose whole content is one
/// word dominates everything and yields `usize::MAX`.
pub fn number_exact_matches(
    query_index: &[u32],
    attribute: &[u16],
    is_exact: &[bool],
    fields_counts: &FieldsCounts,
) -> (score: usize)
    requires
        query_index@.len() == attribute@.len(),
        query_index@.len() == is_exact@.len(),
        query_index@.len() < usize::MAX,
        sorted_by_query_index(query_index@),
        fields_counts.wf(),
    ensures
        score as nat == exact_score(query_index@, attribute@, is_exact@, fields_counts.counts@),
{
    let len = query_index.len();
    let mut count: usize = 0;
    let mut index: usize = 0;

    proof {
        assert(won_words_before(query_index@, is_exact@, 0) =~= Set::<u32>::empty());
    }

    while index < len
        invariant
            len == query_index@.len(),
            len == attribute@.len(),
            len == is_exact@.len(),
            len < usize::MAX,
            sorted_by_query_index(query_index@),
            fields_counts.wf(),
            index <= len,
            index == 0 || index == len || query_index@[index - 1] != query_index@[index as int],
            !sentinel_before(attribute@, is_exact@, fields_counts.counts@, index as int),
            count == won_words_before(query_index@, is_exact@, index as int).len(),
            count <= index,
        decreases len - index,
    {
        // The run of the current query word: occurrences index .. end.
        let mut end: usize = index + 1;
        while end < len && query_index[end] == query_index[index]
            invariant
                len == query_index@.len(),
                index < end <= len,
                forall|k: int| index <= k < end ==> query_index@[k] == query_index@[index as int],
            decreases len - end,
        {
            end = end + 1;
        }

        let mut found_exact = false;
        let mut pos: usize = index;
        while pos < end
            invariant
                len == query_index@.len(),
                len == attribute@.len(),
                len == is_exact@.len(),
                fields_counts.wf(),
                index <= pos <= end <= len,
                found_exact == exists|k: int| index <= k < pos && is_exact@[k],
                !sentinel_before(attribute@, is_exact@, fields_counts.counts@, pos as int),
            decreases end - pos,
        {
            if is_exact[pos] {
                found_exact = true;
                if let Some(c) = fields_counts.count_for(attribute[pos]) {
                    if c == 1 {
                        proof {
                            assert(sentinel_before(
                                attribute@,
                                is_exact@,
                                fields_counts.counts@,
                                len as int,
                            )) by {
                                assert(0 <= pos < len && is_exact@[pos as int] && field_count(
                                    fields_counts.counts@,
                                    attribute@[pos as int],
                                ) == Some(1u64));
                            }
                        }
                        return usize::MAX;
                    }
                }
            }
            pos = pos + 1;
        }

        proof {
            lemma_won_words_before_le(query_index@, is_exact@, index as int);
            if found_exact {
                lemma_run_extends_won_words(query_index@, is_exact@, index as int, end as int);
                vstd::set::axiom_set_insert_len(
                    won_words_before(query_index@, is_exact@, index as int),
                    query_index@[index as int],
                );
            } else {
                lemma_run_keeps_won_words(query_index@, is_exact@, index as int, end as int);
            }
        }
        if found_exact {
            count = count + 1;
        }
        index = end;
    }
    count
}

/// A candidate document's match data, as the upstream matcher hands it
/// over: one entry per occurrence, in step across the three vectors, plus
/// the document's table of field word counts.
pub struct RawDocument {
    /// Query word index of each occurrence, ascending.
    pub query_index: Vec<u32>,
    /// Attribute id of the field each occurrence was found in.
    pub attribute: Vec<u16>,
    /// Whether each occurrence matched the query word verbatim.
    pub is_exact: Vec<bool>,
    /// The document's table of field word counts.
    pub fields_counts: FieldsCounts,
}

impl RawDocument {
    /// The upstream producer's guarantees: the occurrence vectors run in
    /// step, the query-word indices ascend, and the field-count table is
    /// strictly sorted by attribute.
    pub open spec fn wf(&self) -> bool {
        &&& self.query_index@.len() == self.attribute@.len()
        &&& self.query_index@.len() == self.is_exact@.len()
        &&& self.query_index@.len() < usize::MAX
        &&& sorted_by_query_index(self.query_index@)
        &&& self.fields_counts.wf()
    }

    /// The document's exact-match score.
    pub open spec fn score(&self) -> nat {
        exact_score(self.query_index@, self.attribute@, self.is_exact@, self.fields_counts.counts@)
    }
}

/// How the criterion orders two documents by their scores: the higher
/// score sorts earlier, equal scores tie and fall to later criteria.
pub open spec fn criterion_ordering(lhs_score: nat, rhs_score: nat) -> Ordering {
    if lhs_score > rhs_score {
        Ordering::Less
    } else if lhs_score < rhs_score {
        Ordering::Greater
    } else {
        Ordering::Equal
    }
}

/// The exact-match criterion: a stateless comparator placing the document
/// with more exactly matched distinct query words first.
#[derive(Debug, Clone, Copy)]
pub struct Exact;

impl Exact {
    /// Compares two candidate documents by exact-match score, higher
    /// score first.
    pub fn evaluate(&self, lhs: &RawDocument, rhs: &RawDocument) -> (r: Ordering)
        requires
            lhs.wf(),
            rhs.wf(),
        ensures
            r == criterion_ordering(lhs.score(), rhs.score()),
    {
        let lhs_score = number_exact_matches(
            lhs.query_index.as_slice(),
            lhs.attribute.as_slice(),
            lhs.is_exact.as_slice(),
            &lhs.fields_counts,
        );
        let rhs_score = number_exact_matches(
            rhs.query_index.as_slice(),
            rhs.attribute.as_slice(),
            rhs.is_exact.as_slice(),
            &rhs.fields_counts,
        );
        if lhs_score > rhs_score {
            Ordering::Less
        } else if lhs_score < rhs_score {
            Ordering::Greater
        } else {
            Ordering::Equal
        }
    }

    /// The criterion's stable identifying name.
    pub fn name(&self) -> (r: &'static str)
        ensures
            r@ == "Exact"@,
    {
        "Exact"
    }
}

} // verus!
