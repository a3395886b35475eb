//! Counting the records of a store by their types.
use crate::hnsw::DbErrorView;
use crate::json::json_strings_of;
use crate::records::type_in;
use crate::text::same_text;
use vstd::prelude::*;

verus! {

/// The record types in a column of metadata, in order. Metadata that cannot be read gives an
/// error.
pub open spec fn types_of(metadata: Seq<Seq<char>>) -> Result<Seq<Seq<char>>, DbErrorView>
    decreases metadata.len(),
{
    if metadata.len() == 0 {
        Ok(Seq::empty())
    } else {
        match types_of(metadata.drop_last()) {
            Err(e) => Err(e),
            Ok(before) => match json_strings_of(metadata.last()) {
                Err(reason) => Err(DbErrorView::BadColumn { column: 0, blob: false, reason }),
                Ok(m) => Ok(before.push(type_in(m))),
            },
        }
    }
}

/// How often `t` stands in the sequence.
pub open spec fn count_of(types: Seq<Seq<char>>, t: Seq<char>) -> nat
    decreases types.len(),
{
    if types.len() == 0 {
        0
    } else {
        count_of(types.drop_last(), t) + (if types.last() == t {
            1nat
        } else {
            0nat
        })
    }
}

/// `counts` names every type that stands in the sequence, once, with how often it stands there.
pub open spec fn counts_are(counts: Seq<(String, u64)>, types: Seq<Seq<char>>) -> bool {
    &&& forall|i: int|
        0 <= i < counts.len() ==> (#[trigger] counts[i]).1 == count_of(types, counts[i].0@)
            && counts[i].1 > 0
    &&& forall|i: int, j: int|
        0 <= i < j < counts.len() ==> (#[trigger] counts[i]).0@ != (#[trigger] counts[j]).0@
    &&& forall|t: Seq<char>|
        count_of(types, t) > 0 ==> exists|i: int|
            0 <= i < counts.len() && (#[trigger] counts[i]).0@ == t
}

/// An error in the first part of the column is the error of the whole column.
pub proof fn lemma_types_of_error(metadata: Seq<Seq<char>>, i: int, e: DbErrorView)
    requires
        0 <= i <= metadata.len(),
        types_of(metadata.take(i)) == Err::<Seq<Seq<char>>, _>(e),
    ensures
        types_of(metadata) == Err::<Seq<Seq<char>>, _>(e),
    decreases metadata.len() - i,
{
    if i < metadata.len() {
        assert(metadata.take(i + 1).drop_last() =~= metadata.take(i));
        lemma_types_of_error(metadata, i + 1, e);
    } else {
        assert(metadata.take(i) =~= metadata);
    }
}

proof fn lemma_count_bound(types: Seq<Seq<char>>, t: Seq<char>)
    ensures
        count_of(types, t) <= types.len(),
    decreases types.len(),
{
    if types.len() > 0 {
        lemma_count_bound(types.drop_last(), t);
    }
}

/// Counts one more record of the type `kind`.
pub(crate) fn count_one(counts: &mut Vec<(String, u64)>, kind: String, Ghost(types): Ghost<Seq<Seq<char>>>)
    requires
        counts_are(old(counts)@, types),
        types.len() < u64::MAX,
    ensures
        counts_are(final(counts)@, types.push(kind@)),
{
    let ghost more = types.push(kind@);
    let ghost old_counts = counts@;
    assert(more.drop_last() =~= types);
    assert(forall|t: Seq<char>|
        #[trigger] count_of(more, t) == count_of(types, t) + (if t == kind@ {
            1nat
        } else {
            0nat
        }));
    let mut i: usize = 0;
    while i < counts.len()
        invariant
            counts@ == old_counts,
            counts_are(old_counts, types),
            types.len() < u64::MAX,
            more.drop_last() == types,
            more == types.push(kind@),
            forall|t: Seq<char>|
                #[trigger] count_of(more, t) == count_of(types, t) + (if t == kind@ {
                    1nat
                } else {
                    0nat
                }),
            i <= counts@.len(),
            forall|j: int| 0 <= j < i ==> (#[trigger] counts@[j]).0@ != kind@,
        decreases counts@.len() - i,
    {
        if same_text(counts[i].0.as_str(), kind.as_str()) {
            proof {
                lemma_count_bound(types, kind@);
                assert(old_counts[i as int].1 == count_of(types, old_counts[i as int].0@));
            }
            let n: u64 = counts[i].1 + 1;
            counts.set(i, (kind, n));
            assert(counts@ == old_counts.update(i as int, (kind, n)));
            assert forall|t: Seq<char>| count_of(more, t) > 0 implies exists|j: int|
                0 <= j < counts@.len() && (#[trigger] counts@[j]).0@ == t by {
                if t == kind@ {
                    assert(counts@[i as int].0@ == t);
                } else {
                    let j = choose|j: int|
                        0 <= j < old_counts.len() && (#[trigger] old_counts[j]).0@ == t;
                    assert(counts@[j].0@ == t);
                }
            }
            return ;
        }
        i += 1;
    }
    counts.push((kind, 1));
    assert(count_of(types, kind@) == 0) by {
        if count_of(types, kind@) > 0 {
            let j = choose|j: int|
                0 <= j < old_counts.len() && (#[trigger] old_counts[j]).0@ == kind@;
            assert(old_counts[j].0@ != kind@);
        }
    }
    assert forall|t: Seq<char>| count_of(more, t) > 0 implies exists|j: int|
        0 <= j < counts@.len() && (#[trigger] counts@[j]).0@ == t by {
        if t == kind@ {
            assert(counts@[old_counts.len() as int].0@ == t);
        } else {
            let j = choose|j: int| 0 <= j < old_counts.len() && (#[trigger] old_counts[j]).0@ == t;
            assert(counts@[j].0@ == t);
        }
    }
}

/// A value of the statistics.
#[derive(Debug, Clone, PartialEq, Eq)]
pub enum StatValue {
    Number(u64),
    Text(String),
}

/// What a value of the statistics holds.
pub enum StatView {
    Number(u64),
    Text(Seq<char>),
}

impl View for StatValue {
    type V = StatView;

    open spec fn view(&self) -> StatView {
        match self {
            StatValue::Number(n) => StatView::Number(*n),
            StatValue::Text(s) => StatView::Text(s@),
        }
    }
}

/// The statistics of a store.
#[derive(Debug, Clone)]
pub struct StoreStats {
    pub total_records: usize,
    pub dimension: usize,
    pub db_path: String,
    pub total_tools: u64,
    pub type_counts: Vec<(String, u64)>,
}

/// Entries of the statistics by their views.
pub open spec fn stat_views(entries: Seq<(String, StatValue)>) -> Seq<(Seq<char>, StatView)> {
    Seq::new(entries.len(), |i: int| (entries[i].0@, entries[i].1@))
}

impl StoreStats {
    /// The statistics under their names: the totals, and one count for each record type.
    pub open spec fn named(&self) -> Seq<(Seq<char>, StatView)> {
        seq![
            ("total_records"@, StatView::Number(self.total_records as u64)),
            ("dimension"@, StatView::Number(self.dimension as u64)),
            ("db_path"@, StatView::Text(self.db_path@)),
            ("total_tools"@, StatView::Number(self.total_tools)),
        ] + Seq::new(
            self.type_counts@.len(),
            |i: int|
                (self.type_counts@[i].0@ + "_count"@, StatView::Number(self.type_counts@[i].1)),
        )
    }

    /// The statistics under their names: the totals, and one count for each record type.
    pub fn entries(&self) -> (res: Vec<(String, StatValue)>)
        ensures
            stat_views(res@) == self.named(),
    {
        let mut out: Vec<(String, StatValue)> = Vec::new();
        out.push(("total_records".to_owned(), StatValue::Number(self.total_records as u64)));
        out.push(("dimension".to_owned(), StatValue::Number(self.dimension as u64)));
        out.push(("db_path".to_owned(), StatValue::Text(self.db_path.clone())));
        out.push(("total_tools".to_owned(), StatValue::Number(self.total_tools)));
        let mut i: usize = 0;
        while i < self.type_counts.len()
            invariant
                i <= self.type_counts@.len(),
                stat_views(out@) =~= self.named().take(4 + i),
            decreases self.type_counts@.len() - i,
        {
            let ghost before = stat_views(out@);
            let name = self.type_counts[i].0.clone().concat("_count");
            out.push((name, StatValue::Number(self.type_counts[i].1)));
            assert(stat_views(out@) =~= before.push(self.named()[4 + i]));
            i += 1;
        }
        assert(self.named().take(self.named().len() as int) =~= self.named());
        out
    }
}

} // verus!
