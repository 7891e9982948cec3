//! Per-document table of field word counts, keyed by attribute id.

use vstd::prelude::*;

verus! {

/// The total number of words that one field of a document holds,
/// keyed by the field's attribute id.
#[derive(Clone, Copy, Debug, PartialEq, Eq, Structural)]
pub struct AttrCount {
    /// The attribute id of the field.
    pub attr: u16,
    /// How many words the field's whole content holds.
    pub count: u64,
}

/// Strictly ascending attribute order: every attribute appears at most
/// once, and a lookup can binary-search.
pub open spec fn attrs_strictly_sorted(fc: Seq<AttrCount>) -> bool {
    forall|i: int, j: int| 0 <= i < j < fc.len() ==> fc[i].attr < fc[j].attr
}

/// What a lookup in the table finds: the count stored beside `attr`,
/// or `None` when no entry carries that attribute id. With a strictly
/// sorted table the matching entry, if any, is unique.
pub open spec fn field_count(fc: Seq<AttrCount>, attr: u16) -> Option<u64> {
    if exists|j: int| 0 <= j < fc.len() && fc[j].attr == attr {
        Some(fc[choose|j: int| 0 <= j < fc.len() && fc[j].attr == attr].count)
    } else {
        None
    }
}

/// A document's table of field word counts, one entry per counted field,
/// in strictly ascending attribute order.
pub struct FieldsCounts {
    /// The entries of the table.
    pub counts: Vec<AttrCount>,
}

impl FieldsCounts {
    /// The table invariant: entries strictly ascending by attribute id.
    pub open spec fn wf(&self) -> bool {
        attrs_strictly_sorted(self.counts@)
    }

    /// Builds a table from a vector of entries. Returns `None` exactly when
    /// the entries are not in strictly ascending attribute order.
    pub fn new(counts: Vec<AttrCount>) -> (r: Option<FieldsCounts>)
        ensures
            match r {
                Some(fc) => fc.counts@ == counts@ && fc.wf(),
                None => !attrs_strictly_sorted(counts@),
            },
    {
        let n = counts.len();
        let mut i: usize = 1;
        while i < n
            invariant
                1 <= i,
                n == counts@.len(),
                forall|p: int, q: int|
                    0 <= p < q < i && q < counts@.len() ==> counts@[p].attr < counts@[q].attr,
            decreases n - i,
        {
            if counts[i - 1].attr >= counts[i].attr {
                return None;
            }
            i = i + 1;
        }
        Some(FieldsCounts { counts })
    }

    /// Looks up the word count stored for `attr` by binary search,
    /// `None` when no entry has that attribute id.
    pub fn count_for(&self, attr: u16) -> (r: Option<u64>)
        requires
            self.wf(),
        ensures
            r == field_count(self.counts@, attr),
            match r {
                Some(c) => exists|j: int|
                    0 <= j < self.counts@.len() && self.counts@[j].attr == attr
                        && self.counts@[j].count == c,
                None => forall|j: int| 0 <= j < self.counts@.len() ==> self.counts@[j].attr != attr,
            },
    {
        let mut lo: usize = 0;
        let mut hi: usize = self.counts.len();
        while lo < hi
            invariant
                lo <= hi <= self.counts@.len(),
                self.wf(),
                forall|j: int|
                    0 <= j < self.counts@.len() && !(lo <= j < hi) ==> self.counts@[j].attr != attr,
            decreases hi - lo,
        {
            let mid = lo + (hi - lo) / 2;
            let entry = self.counts[mid];
            if entry.attr == attr {
                proof {
                    let fc = self.counts@;
                    assert(0 <= mid < fc.len() && fc[mid as int].attr == attr);
                    let jj = choose|j: int| 0 <= j < fc.len() && fc[j].attr == attr;
                    assert(jj == mid as int);
                }
                return Some(entry.count);
            } else if entry.attr < attr {
                lo = mid + 1;
            } else {
                hi = mid;
            }
        }
        None
    }
}

} // verus!
