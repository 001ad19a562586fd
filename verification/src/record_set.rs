//! Sets of records, told apart by their identity key.
//!
//! A set keeps its records in the order in which they came in. Of several
//! records that share a key, the one that came first stays.

use crate::record::{Record, RecordView};
use vstd::prelude::*;

verus! {

/// Whether some record of `s` carries the key `id`.
pub open spec fn has_id(s: Seq<RecordView>, id: Seq<char>) -> bool {
    exists|i: int| 0 <= i < s.len() && (#[trigger] s[i]).user_id == id
}

/// Whether no key occurs twice in `s`.
pub open spec fn distinct_ids(s: Seq<RecordView>) -> bool {
    forall|i: int, j: int|
        0 <= i < j < s.len() ==> (#[trigger] s[i]).user_id != (#[trigger] s[j]).user_id
}

/// What is left of `s` when its records are put into a set one after the
/// other: a record whose key the set already holds is dropped, so the first
/// record of each key stays, at its place.
pub open spec fn dedup(s: Seq<RecordView>) -> Seq<RecordView>
    decreases s.len(),
{
    if s.len() == 0 {
        s
    } else if has_id(s.drop_last(), s.last().user_id) {
        dedup(s.drop_last())
    } else {
        dedup(s.drop_last()).push(s.last())
    }
}

/// The test that a record's key does not occur in `t`.
pub open spec fn absent_from(t: Seq<RecordView>) -> spec_fn(RecordView) -> bool {
    |r: RecordView| !has_id(t, r.user_id)
}

/// The records of `s` whose key does not occur in `t`, in the order of `s`.
pub open spec fn without(s: Seq<RecordView>, t: Seq<RecordView>) -> Seq<RecordView> {
    s.filter(absent_from(t))
}

/// A set of records in which every identity key occurs once.
pub struct RecordSet {
    items: Vec<Record>,
}

impl View for RecordSet {
    type V = Seq<RecordView>;

    closed spec fn view(&self) -> Seq<RecordView> {
        self.items.deep_view()
    }
}

impl RecordSet {
    #[verifier::type_invariant]
    spec fn keys_are_distinct(&self) -> bool {
        distinct_ids(self.items.deep_view())
    }

    /// The empty set.
    pub fn new() -> (set: RecordSet)
        ensures
            set@ == Seq::<RecordView>::empty(),
    {
        let items: Vec<Record> = Vec::new();
        assert(items.deep_view() =~= Seq::<RecordView>::empty());
        RecordSet { items }
    }

    /// The number of records in the set.
    pub fn len(&self) -> (n: usize)
        ensures
            n == self@.len(),
    {
        self.items.len()
    }

    /// Whether the set holds no record.
    pub fn is_empty(&self) -> (b: bool)
        ensures
            b == (self@.len() == 0),
    {
        self.items.len() == 0
    }

    /// The records of the set, in the order in which they came in.
    pub fn records(&self) -> (records: &Vec<Record>)
        ensures
            records.deep_view() == self@,
            distinct_ids(self@),
    {
        proof {
            use_type_invariant(self);
        }
        &self.items
    }

    /// Whether the set holds a record with the key of `record`.
    pub fn contains(&self, record: &Record) -> (found: bool)
        ensures
            found == has_id(self@, record@.user_id),
    {
        let mut i: usize = 0;
        while i < self.items.len()
            invariant
                i <= self.items.len(),
                forall|j: int| 0 <= j < i ==> (#[trigger] self@[j]).user_id != record@.user_id,
            decreases self.items.len() - i,
        {
            if self.items[i].same_id(record) {
                assert(self@[i as int].user_id == record@.user_id);
                return true;
            }
            i += 1;
        }
        false
    }

    /// Puts `record` into the set unless the set holds its key already, and
    /// tells whether it went in.
    pub fn insert(&mut self, record: Record) -> (added: bool)
        ensures
            added == !has_id(old(self)@, record@.user_id),
            final(self)@ == if added {
                old(self)@.push(record@)
            } else {
                old(self)@
            },
    {
        proof {
            use_type_invariant(&*self);
        }
        if self.contains(&record) {
            return false;
        }
        // The vector grows outside the set, which thus holds distinct keys at
        // every point of this function.
        let ghost before = self.items.deep_view();
        let mut items: Vec<Record> = Vec::new();
        assert(items.deep_view() =~= Seq::<RecordView>::empty());
        std::mem::swap(&mut self.items, &mut items);
        items.push(record);
        assert(items.deep_view() =~= before.push(record@));
        self.items = items;
        true
    }

    /// The set of the records of a list.
    pub fn from_records(records: &Vec<Record>) -> (set: RecordSet)
        ensures
            set@ == dedup(records.deep_view()),
            set@.len() <= records.len(),
    {
        proof {
            lemma_dedup_keeps_ids(records.deep_view());
        }
        let mut set = RecordSet::new();
        let mut i: usize = 0;
        while i < records.len()
            invariant
                i <= records.len(),
                set@ == dedup(records.deep_view().take(i as int)),
            decreases records.len() - i,
        {
            let ghost seen = records.deep_view().take(i as int);
            let ghost next = records.deep_view().take(i + 1);
            let record = records[i].clone();
            set.insert(record);
            proof {
                assert(next.drop_last() =~= seen);
                assert(next.last() == record@);
                lemma_dedup_keeps_ids(seen);
            }
            i += 1;
        }
        assert(records.deep_view().take(i as int) =~= records.deep_view());
        set
    }

    /// The records of this set whose key `other` does not hold.
    pub fn difference(&self, other: &RecordSet) -> (rest: RecordSet)
        ensures
            rest@ == without(self@, other@),
    {
        proof {
            use_type_invariant(self);
        }
        let mut kept: Vec<Record> = Vec::new();
        let mut i: usize = 0;
        assert(self@.take(0) =~= Seq::<RecordView>::empty());
        assert(kept.deep_view() =~= Seq::<RecordView>::empty());
        proof {
            reveal(Seq::filter);
        }
        while i < self.items.len()
            invariant
                i <= self.items.len(),
                kept.deep_view() == without(self@.take(i as int), other@),
                distinct_ids(self@),
            decreases self.items.len() - i,
        {
            let ghost before = kept.deep_view();
            let ghost seen = self@.take(i as int);
            proof {
                assert(self@.take(i + 1) =~= seen.push(self@[i as int]));
                seen.lemma_filter_push(self@[i as int], absent_from(other@));
            }
            if !other.contains(&self.items[i]) {
                kept.push(self.items[i].clone());
                assert(kept.deep_view() =~= before.push(self@[i as int]));
            }
            i += 1;
        }
        assert(self@.take(i as int) =~= self@);
        proof {
            lemma_without_distinct(self@, other@);
        }
        RecordSet { items: kept }
    }
}

/// Putting records into a set loses no key, brings none in, and leaves each
/// key once; the set is no longer than the list.
pub proof fn lemma_dedup_keeps_ids(s: Seq<RecordView>)
    ensures
        distinct_ids(dedup(s)),
        dedup(s).len() <= s.len(),
        forall|id: Seq<char>|
            #![trigger has_id(dedup(s), id)]
            #![trigger has_id(s, id)]
            has_id(dedup(s), id) <==> has_id(s, id),
    decreases s.len(),
{
    if s.len() > 0 {
        let init = s.drop_last();
        let last = s.last();
        let d = dedup(s);
        let di = dedup(init);
        lemma_dedup_keeps_ids(init);
        assert forall|id: Seq<char>| has_id(d, id) <==> has_id(s, id) by {
            if has_id(d, id) {
                let k = choose|k: int| 0 <= k < d.len() && (#[trigger] d[k]).user_id == id;
                if k < di.len() {
                    assert(di[k].user_id == id);
                    assert(has_id(di, id));
                    let m = choose|m: int|
                        0 <= m < init.len() && (#[trigger] init[m]).user_id == id;
                    assert(s[m].user_id == id);
                } else {
                    assert(s[s.len() - 1].user_id == id);
                }
            }
            if has_id(s, id) {
                let m = choose|m: int| 0 <= m < s.len() && (#[trigger] s[m]).user_id == id;
                if m < init.len() {
                    assert(init[m].user_id == id);
                    assert(has_id(init, id));
                    let k = choose|k: int| 0 <= k < di.len() && (#[trigger] di[k]).user_id == id;
                    assert(d[k].user_id == id);
                } else if has_id(init, last.user_id) {
                    let k = choose|k: int| 0 <= k < di.len() && (#[trigger] di[k]).user_id == id;
                    assert(d[k].user_id == id);
                } else {
                    assert(d[d.len() - 1].user_id == id);
                }
            }
        }
        assert forall|i: int, j: int| 0 <= i < j < d.len() implies (#[trigger] d[i]).user_id != (
        #[trigger] d[j]).user_id by {
            if j < di.len() {
                assert(di[i].user_id != di[j].user_id);
            } else {
                assert(di[i].user_id == d[i].user_id);
                assert(has_id(di, d[i].user_id));
            }
        }
    }
}

/// Two rows of one list that share a key collapse: the set is shorter than
/// the list, and it holds that key.
pub proof fn lemma_shared_key_collapses(s: Seq<RecordView>, i: int, j: int)
    requires
        0 <= i < j < s.len(),
        s[i].user_id == s[j].user_id,
    ensures
        dedup(s).len() < s.len(),
        has_id(dedup(s), s[i].user_id),
    decreases s.len(),
{
    let init = s.drop_last();
    lemma_dedup_keeps_ids(s);
    lemma_dedup_keeps_ids(init);
    if j == s.len() - 1 {
        assert(init[i].user_id == s.last().user_id);
        assert(has_id(init, s.last().user_id));
    } else {
        lemma_shared_key_collapses(init, i, j);
    }
}

/// Of the rows that share a key, the first one stays: every record of the
/// set is a row of the list, and no earlier row carries its key.
pub proof fn lemma_dedup_keeps_first(s: Seq<RecordView>, k: int)
    requires
        0 <= k < dedup(s).len(),
    ensures
        exists|m: int|
            0 <= m < s.len() && #[trigger] s[m] == dedup(s)[k] && !has_id(
                s.take(m),
                s[m].user_id,
            ),
    decreases s.len(),
{
    let init = s.drop_last();
    if k < dedup(init).len() {
        lemma_dedup_keeps_first(init, k);
        let m = choose|m: int|
            0 <= m < init.len() && #[trigger] init[m] == dedup(init)[k] && !has_id(
                init.take(m),
                init[m].user_id,
            );
        assert(init.take(m) =~= s.take(m));
        assert(s[m] == dedup(s)[k]);
    } else {
        let m = s.len() - 1;
        assert(s.take(m) =~= init);
        assert(s[m] == dedup(s)[k]);
    }
}

/// Every record of `without(s, t)` is a record of `s` whose key is not in `t`,
/// and every such record of `s` is in `without(s, t)`.
pub proof fn lemma_without_members(s: Seq<RecordView>, t: Seq<RecordView>)
    ensures
        without(s, t).len() <= s.len(),
        forall|r: RecordView| #[trigger]
            without(s, t).contains(r) <==> s.contains(r) && !has_id(t, r.user_id),
{
    let kept = without(s, t);
    s.lemma_filter_len(absent_from(t));
    assert forall|r: RecordView| #[trigger]
        kept.contains(r) <==> s.contains(r) && !has_id(t, r.user_id) by {
        if kept.contains(r) {
            let k = choose|k: int| 0 <= k < kept.len() && kept[k] == r;
            s.lemma_filter_pred(absent_from(t), k);
            s.lemma_filter_contains_rev(absent_from(t), r);
        }
        if s.contains(r) && !has_id(t, r.user_id) {
            let m = choose|m: int| 0 <= m < s.len() && s[m] == r;
            s.lemma_filter_contains(absent_from(t), m);
        }
    }
}

/// Taking records away leaves the keys distinct.
pub proof fn lemma_without_distinct(s: Seq<RecordView>, t: Seq<RecordView>)
    requires
        distinct_ids(s),
    ensures
        distinct_ids(without(s, t)),
        forall|id: Seq<char>|
            #![trigger has_id(without(s, t), id)]
            #![trigger has_id(s, id)]
            has_id(without(s, t), id) <==> has_id(s, id) && !has_id(t, id),
    decreases s.len(),
{
    reveal(Seq::filter);
    if s.len() > 0 {
        let init = s.drop_last();
        let last = s.last();
        assert(distinct_ids(init));
        lemma_without_distinct(init, t);
        assert(s =~= init.push(last));
        init.lemma_filter_push(last, absent_from(t));
        let w = without(s, t);
        let wi = without(init, t);
        assert forall|id: Seq<char>| has_id(w, id) <==> has_id(s, id) && !has_id(t, id) by {
            if has_id(w, id) {
                let k = choose|k: int| 0 <= k < w.len() && (#[trigger] w[k]).user_id == id;
                if k < wi.len() {
                    assert(wi[k].user_id == id);
                    assert(has_id(wi, id));
                    let m = choose|m: int| 0 <= m < init.len() && (#[trigger] init[m]).user_id == id;
                    assert(s[m].user_id == id);
                } else {
                    assert(s[s.len() - 1].user_id == id);
                }
            }
            if has_id(s, id) && !has_id(t, id) {
                let m = choose|m: int| 0 <= m < s.len() && (#[trigger] s[m]).user_id == id;
                if m < init.len() {
                    assert(init[m].user_id == id);
                    assert(has_id(init, id));
                    let k = choose|k: int| 0 <= k < wi.len() && (#[trigger] wi[k]).user_id == id;
                    assert(w[k].user_id == id);
                } else {
                    assert(w[w.len() - 1].user_id == id);
                }
            }
        }
        assert forall|i: int, j: int| 0 <= i < j < w.len() implies (#[trigger] w[i]).user_id != (
        #[trigger] w[j]).user_id by {
            if j < wi.len() {
                assert(wi[i].user_id != wi[j].user_id);
            } else {
                assert(w[j] == last);
                assert(wi[i].user_id == w[i].user_id);
                if w[i].user_id == last.user_id {
                    assert(has_id(wi, last.user_id));
                    assert(has_id(init, last.user_id));
                    let m = choose|m: int| 0 <= m < init.len() && (#[trigger] init[m]).user_id == last.user_id;
                    assert(s[m].user_id != s[s.len() - 1].user_id);
                }
            }
        }
    }
}

} // verus!
