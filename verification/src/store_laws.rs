//! What holds of the vector store as a whole.
use crate::hnsw::{loaded_points, point_of, DbErrorView, StoredEmbedding};
use crate::matching::{
    match_with_id, matches_from, matches_of, passes, record_at, row_with_id, IndexedView,
};
use crate::records::{is_of_type, restored_of, type_in, StorageView, StoredRecord};
use crate::sqlite_vectordb::{
    indexed_row, indexed_rows, lemma_row_round_trip, loads_row, row_keeps, SqliteVectorDB,
    StoredRow,
};
use crate::stats::{count_of, counts_are};
use vstd::prelude::*;

verus! {

/// `x` is the record of one of the rows, and it satisfies the filter.
pub open spec fn comes_from(
    rows: Seq<IndexedView>,
    filter: Option<Map<Seq<char>, Seq<char>>>,
    x: StorageView,
) -> bool {
    &&& exists|j: int| 0 <= j < rows.len() && (#[trigger] rows[j]).record == Some(x)
    &&& passes(filter, x)
}

proof fn lemma_row_with_id(rows: Seq<IndexedView>, id: Seq<char>, i: int)
    requires
        0 <= i,
    ensures
        match row_with_id(rows, id, i) {
            Some(row) => row.id == id && exists|j: int|
                i <= j < rows.len() && #[trigger] rows[j] == row,
            None => forall|j: int| i <= j < rows.len() ==> (#[trigger] rows[j]).id != id,
        },
    decreases rows.len() - i,
{
    if i < rows.len() && rows[i].id != id {
        lemma_row_with_id(rows, id, i + 1);
    }
}

/// A search gives back only records that are stored and satisfy the filter, no more of them than
/// were asked for, and at most one for each neighbour.
pub proof fn lemma_search_sound(
    rows: Seq<IndexedView>,
    neighbors: Seq<usize>,
    limit: usize,
    filter: Option<Map<Seq<char>, Seq<char>>>,
)
    ensures
        ({
            let res = matches_of(rows, neighbors, limit, filter);
            &&& forall|k: int| 0 <= k < res.len() ==> comes_from(rows, filter, #[trigger] res[k])
            &&& limit > 0 ==> res.len() <= limit
            &&& res.len() <= neighbors.len()
        }),
{
    lemma_sound_from(rows, neighbors, limit, filter, 0, Seq::empty());
}

proof fn lemma_sound_from(
    rows: Seq<IndexedView>,
    neighbors: Seq<usize>,
    limit: usize,
    filter: Option<Map<Seq<char>, Seq<char>>>,
    i: int,
    found: Seq<StorageView>,
)
    requires
        0 <= i <= neighbors.len(),
        forall|k: int| 0 <= k < found.len() ==> comes_from(rows, filter, #[trigger] found[k]),
    ensures
        ({
            let res = matches_from(rows, neighbors, limit, filter, i, found);
            &&& forall|k: int| 0 <= k < res.len() ==> comes_from(rows, filter, #[trigger] res[k])
            &&& found.len() < limit ==> res.len() <= limit
            &&& res.len() <= found.len() + neighbors.len() - i
        }),
    decreases neighbors.len() - i,
{
    if i < neighbors.len() {
        match record_at(rows, neighbors[i], 0) {
            Err(_) => {
                lemma_sound_from(rows, neighbors, limit, filter, i + 1, found);
            },
            Ok(id) => {
                lemma_row_with_id(rows, id, 0);
                let more = match match_with_id(rows, id, filter) {
                    Some(r) => found.push(r),
                    None => found,
                };
                if more.len() < limit {
                    lemma_sound_from(rows, neighbors, limit, filter, i + 1, more);
                }
            },
        }
    }
}

/// The record at the neighbour `k` is among the results, if it satisfies the filter and fewer
/// neighbours stand before it than records are asked for.
pub proof fn lemma_search_finds(
    rows: Seq<IndexedView>,
    neighbors: Seq<usize>,
    limit: usize,
    filter: Option<Map<Seq<char>, Seq<char>>>,
    k: int,
    r: StorageView,
)
    requires
        0 <= k < neighbors.len(),
        k < limit,
        record_at(rows, neighbors[k], 0) matches Ok(id) && match_with_id(
            rows,
            id,
            filter,
        ) == Some(r),
    ensures
        matches_of(rows, neighbors, limit, filter).contains(r),
{
    lemma_finds_from(rows, neighbors, limit, filter, 0, Seq::empty(), k, r);
}

proof fn lemma_finds_from(
    rows: Seq<IndexedView>,
    neighbors: Seq<usize>,
    limit: usize,
    filter: Option<Map<Seq<char>, Seq<char>>>,
    i: int,
    found: Seq<StorageView>,
    k: int,
    r: StorageView,
)
    requires
        0 <= i <= k < neighbors.len(),
        k < limit,
        found.len() <= i,
        record_at(rows, neighbors[k], 0) matches Ok(id) && match_with_id(
            rows,
            id,
            filter,
        ) == Some(r),
    ensures
        matches_from(rows, neighbors, limit, filter, i, found).contains(r),
    decreases k - i,
{
    match record_at(rows, neighbors[i], 0) {
        Err(_) => {
            lemma_finds_from(rows, neighbors, limit, filter, i + 1, found, k, r);
        },
        Ok(id) => {
            let more = match match_with_id(rows, id, filter) {
                Some(x) => found.push(x),
                None => found,
            };
            if i == k {
                assert(more.last() == r);
                if more.len() < limit {
                    lemma_keeps(rows, neighbors, limit, filter, i + 1, more);
                    let res = matches_from(
                        rows,
                        neighbors,
                        limit,
                        filter,
                        i + 1,
                        more,
                    );
                    assert(res[more.len() - 1] == r);
                } else {
                    assert(more[more.len() - 1] == r);
                }
            } else {
                lemma_finds_from(rows, neighbors, limit, filter, i + 1, more, k, r);
            }
        },
    }
}

proof fn lemma_keeps(
    rows: Seq<IndexedView>,
    neighbors: Seq<usize>,
    limit: usize,
    filter: Option<Map<Seq<char>, Seq<char>>>,
    i: int,
    found: Seq<StorageView>,
)
    requires
        0 <= i,
    ensures
        ({
            let res = matches_from(rows, neighbors, limit, filter, i, found);
            &&& found.len() <= res.len()
            &&& forall|k: int| 0 <= k < found.len() ==> res[k] == #[trigger] found[k]
        }),
    decreases neighbors.len() - i,
{
    if i < neighbors.len() {
        match record_at(rows, neighbors[i], 0) {
            Err(_) => {
                lemma_keeps(rows, neighbors, limit, filter, i + 1, found);
            },
            Ok(id) => {
                let more = match match_with_id(rows, id, filter) {
                    Some(x) => found.push(x),
                    None => found,
                };
                assert(forall|k: int| 0 <= k < found.len() ==> #[trigger] found[k] == more[k]);
                if more.len() < limit {
                    lemma_keeps(rows, neighbors, limit, filter, i + 1, more);
                }
            },
        }
    }
}

/// The records that satisfy the filter, in order.
pub open spec fn passing(
    filter: Map<Seq<char>, Seq<char>>,
    records: Seq<StorageView>,
) -> Seq<StorageView>
    decreases records.len(),
{
    if records.len() == 0 {
        Seq::empty()
    } else {
        let before = passing(filter, records.drop_last());
        if passes(Some(filter), records.last()) {
            before.push(records.last())
        } else {
            before
        }
    }
}

proof fn lemma_passing_push(
    filter: Map<Seq<char>, Seq<char>>,
    records: Seq<StorageView>,
    r: StorageView,
)
    ensures
        passing(filter, records.push(r)) == (if passes(Some(filter), r) {
            passing(filter, records).push(r)
        } else {
            passing(filter, records)
        }),
{
    assert(records.push(r).drop_last() =~= records);
}

proof fn lemma_passing(filter: Map<Seq<char>, Seq<char>>, records: Seq<StorageView>)
    ensures
        passing(filter, records).len() <= records.len(),
        filter.dom().is_empty() ==> passing(filter, records) == records,
    decreases records.len(),
{
    if records.len() > 0 {
        lemma_passing(filter, records.drop_last());
        if filter.dom().is_empty() {
            assert(forall|k: Seq<char>| !filter.dom().contains(k));
            assert(passes(Some(filter), records.last()));
            assert(records.drop_last().push(records.last()) =~= records);
        }
    }
}

/// A search with a filter gives what the search without it gives, without the records that fail
/// the filter; it fails where that search fails. A filter without entries changes nothing. This
/// holds where the index names no more neighbours than it was asked for, and otherwise where the
/// search without the filter looked at all of them, having found fewer records than it may give.
/// Else records further away could take the place of those that are left out.
pub proof fn lemma_filtered_search(
    db: SqliteVectorDB,
    query_len: nat,
    limit: usize,
    filter: Map<Seq<char>, Seq<char>>,
    neighbors: Option<Vec<usize>>,
    rows: Seq<StoredRow>,
)
    requires
        neighbors matches Some(n) ==> n@.len() <= limit || limit == 0 || matches_of(
            indexed_rows(rows, db.max_elements),
            n@,
            limit,
            None,
        ).len() < limit,
    ensures
        db.search_result(query_len, limit, Some(filter), neighbors, rows) == (match db.search_result(
            query_len,
            limit,
            None,
            neighbors,
            rows,
        ) {
            Ok(records) => Ok(passing(filter, records)),
            Err(e) => Err(e),
        }),
        filter.dom().is_empty() ==> db.search_result(
            query_len,
            limit,
            Some(filter),
            neighbors,
            rows,
        ) == db.search_result(query_len, limit, None, neighbors, rows),
{
    match neighbors {
        Some(n) => {
            let seen = indexed_rows(rows, db.max_elements);
            assert(passing(filter, Seq::<StorageView>::empty()) =~= Seq::empty());
            lemma_filtered_from(seen, n@, limit, filter, 0, Seq::empty());
            lemma_passing(filter, matches_of(seen, n@, limit, None));
        },
        None => {},
    }
}

proof fn lemma_filtered_from(
    rows: Seq<IndexedView>,
    neighbors: Seq<usize>,
    limit: usize,
    filter: Map<Seq<char>, Seq<char>>,
    i: int,
    found: Seq<StorageView>,
)
    requires
        0 <= i <= neighbors.len(),
        limit == 0 || found.len() + neighbors.len() - i <= limit || matches_from(
            rows,
            neighbors,
            limit,
            None,
            i,
            found,
        ).len() < limit,
    ensures
        matches_from(rows, neighbors, limit, Some(filter), i, passing(filter, found)) == passing(
            filter,
            matches_from(rows, neighbors, limit, None, i, found),
        ),
    decreases neighbors.len() - i,
{
    if i < neighbors.len() {
        match record_at(rows, neighbors[i], 0) {
            Err(_) => {
                lemma_filtered_from(rows, neighbors, limit, filter, i + 1, found);
            },
            Ok(id) => {
                let more = match match_with_id(rows, id, None) {
                    Some(r) => {
                        lemma_passing_push(filter, found, r);
                        found.push(r)
                    },
                    None => found,
                };
                lemma_passing(filter, more);
                if limit > 0 && (more.len() < limit || i + 1 == neighbors.len()) {
                    lemma_filtered_from(rows, neighbors, limit, filter, i + 1, more);
                }
            },
        }
    }
}

proof fn lemma_record_at(rows: Seq<IndexedView>, k: int, i: int)
    requires
        0 <= i <= k < rows.len(),
        forall|j: int| 0 <= j <= k ==> (#[trigger] rows[j]).point is Ok,
        forall|j: int| 0 <= j < k ==> (#[trigger] rows[j]).point != rows[k].point,
    ensures
        record_at(rows, rows[k].point->Ok_0, i) == Ok::<_, DbErrorView>(rows[k].id),
    decreases k - i,
{
    assert(rows[i].point is Ok);
    if i < k {
        assert(rows[i].point != rows[k].point);
        lemma_record_at(rows, k, i + 1);
    }
}

/// What was written is found: a search whose neighbours name the point of a stored record gives
/// that record back as it was written, if it satisfies the filter and fewer neighbours stand
/// before it than records are asked for. This holds where identifiers are unique, and where the
/// rows before it can be read and lie at other points.
pub proof fn lemma_written_is_found(
    rows: Seq<StoredRow>,
    j: int,
    r: StorageView,
    neighbors: Seq<usize>,
    k: int,
    limit: usize,
    filter: Option<Map<Seq<char>, Seq<char>>>,
    max_elements: usize,
)
    requires
        0 <= j < rows.len(),
        row_keeps(rows[j], r),
        r.embedding.len() <= u64::MAX,
        forall|i: int|
            0 <= i < j ==> (#[trigger] indexed_row(rows[i], max_elements)).point is Ok,
        forall|i: int|
            0 <= i < j ==> (#[trigger] indexed_row(rows[i], max_elements)).point != Ok::<
                _,
                Seq<char>,
            >(point_of(r.content, type_in(r.metadata), max_elements)),
        forall|a: int, b: int|
            0 <= a < b < rows.len() ==> (#[trigger] rows[a]).id@ != (#[trigger] rows[b]).id@,
        0 <= k < neighbors.len(),
        k < limit,
        neighbors[k] == point_of(r.content, type_in(r.metadata), max_elements),
        passes(filter, r),
    ensures
        matches_of(indexed_rows(rows, max_elements), neighbors, limit, filter).contains(r),
{
    let seen = indexed_rows(rows, max_elements);
    lemma_row_round_trip(rows[j], r);
    assert(seen[j] == indexed_row(rows[j], max_elements));
    assert forall|i: int| 0 <= i < j implies (#[trigger] seen[i]).point is Ok && seen[i].point
        != seen[j].point by {
        assert(seen[i] == indexed_row(rows[i], max_elements));
    }
    lemma_record_at(seen, j, 0);
    lemma_row_with_id(seen, r.id, 0);
    assert(seen[j].id == r.id);
    assert(row_with_id(seen, r.id, 0) == Some(seen[j])) by {
        let row = row_with_id(seen, r.id, 0)->0;
        let i = choose|i: int| 0 <= i < seen.len() && #[trigger] seen[i] == row;
        assert(rows[i].id@ == r.id && rows[j].id@ == r.id);
    }
    lemma_search_finds(seen, neighbors, limit, filter, k, r);
}

/// What was removed is not found: no result has an identifier that no row has.
pub proof fn lemma_removed_is_not_found(
    rows: Seq<StoredRow>,
    id: Seq<char>,
    neighbors: Seq<usize>,
    limit: usize,
    filter: Option<Map<Seq<char>, Seq<char>>>,
    max_elements: usize,
)
    requires
        forall|i: int| 0 <= i < rows.len() ==> (#[trigger] rows[i]).id@ != id,
    ensures
        ({
            let res = matches_of(indexed_rows(rows, max_elements), neighbors, limit, filter);
            forall|k: int| 0 <= k < res.len() ==> (#[trigger] res[k]).id != id
        }),
{
    let seen = indexed_rows(rows, max_elements);
    lemma_search_sound(seen, neighbors, limit, filter);
    let res = matches_of(seen, neighbors, limit, filter);
    assert forall|k: int| 0 <= k < res.len() implies (#[trigger] res[k]).id != id by {
        assert(comes_from(seen, filter, res[k]));
        let j = choose|j: int| 0 <= j < seen.len() && (#[trigger] seen[j]).record == Some(res[k]);
        assert(seen[j] == indexed_row(rows[j], max_elements));
        assert(rows[j].id@ != id);
    }
}

/// In a store that was cleared, a search finds nothing, whatever the index names.
pub proof fn lemma_cleared_is_empty(
    neighbors: Seq<usize>,
    limit: usize,
    filter: Option<Map<Seq<char>, Seq<char>>>,
    max_elements: usize,
)
    ensures
        matches_of(
            indexed_rows(Seq::<StoredRow>::empty(), max_elements),
            neighbors,
            limit,
            filter,
        ) == Seq::<StorageView>::empty(),
{
    let seen = indexed_rows(Seq::<StoredRow>::empty(), max_elements);
    lemma_nothing_from(seen, neighbors, limit, filter, 0);
}

proof fn lemma_nothing_from(
    rows: Seq<IndexedView>,
    neighbors: Seq<usize>,
    limit: usize,
    filter: Option<Map<Seq<char>, Seq<char>>>,
    i: int,
)
    requires
        0 <= i,
        rows.len() == 0,
    ensures
        matches_from(rows, neighbors, limit, filter, i, Seq::empty()) == Seq::<
            StorageView,
        >::empty(),
    decreases neighbors.len() - i,
{
    if i < neighbors.len() {
        lemma_nothing_from(rows, neighbors, limit, filter, i + 1);
    }
}

/// A record that was written lies at the same point after the store is opened again: among the
/// points that are loaded is the one at which adding the record put it, with its embedding.
pub proof fn lemma_reloaded_at_same_point(
    rows: Seq<StoredRow>,
    loaded: Seq<StoredEmbedding>,
    j: int,
    r: StorageView,
    dimension: usize,
    max_elements: usize,
)
    requires
        loaded.len() == rows.len(),
        forall|i: int| 0 <= i < rows.len() ==> loads_row(rows[i], #[trigger] loaded[i]),
        0 <= j < rows.len(),
        row_keeps(rows[j], r),
        r.embedding.len() == dimension,
    ensures
        loaded_points(loaded, dimension, max_elements).contains(
            (point_of(r.content, type_in(r.metadata), max_elements), r.embedding),
        ),
{
    lemma_row_round_trip(rows[j], r);
    assert(loads_row(rows[j], loaded[j]));
    lemma_loaded_point(loaded, j, dimension, max_elements);
}

proof fn lemma_loaded_point(
    loaded: Seq<StoredEmbedding>,
    j: int,
    dimension: usize,
    max_elements: usize,
)
    requires
        0 <= j < loaded.len(),
        loaded[j].embedding@.len() == dimension,
    ensures
        loaded_points(loaded, dimension, max_elements).contains(
            (
                point_of(loaded[j].content@, loaded[j].record_type@, max_elements),
                loaded[j].embedding@,
            ),
        ),
    decreases loaded.len(),
{
    let p = (
        point_of(loaded[j].content@, loaded[j].record_type@, max_elements),
        loaded[j].embedding@,
    );
    let before = loaded_points(loaded.drop_last(), dimension, max_elements);
    let all = loaded_points(loaded, dimension, max_elements);
    if j == loaded.len() - 1 {
        assert(all[all.len() - 1] == p);
    } else {
        assert(loaded.drop_last()[j] == loaded[j]);
        lemma_loaded_point(loaded.drop_last(), j, dimension, max_elements);
        let i = choose|i: int| 0 <= i < before.len() && before[i] == p;
        assert(all[i] == p);
    }
}

/// Records of another type are left out of the records of a kind.
pub proof fn lemma_kinds_do_not_mix<T: StoredRecord>(records: Seq<StorageView>)
    requires
        forall|i: int| 0 <= i < records.len() ==> !is_of_type(#[trigger] records[i], T::kind()),
    ensures
        restored_of::<T>(records) == Seq::<T::Held>::empty(),
    decreases records.len(),
{
    if records.len() > 0 {
        let rest = records.drop_last();
        assert forall|i: int| 0 <= i < rest.len() implies !is_of_type(
            #[trigger] rest[i],
            T::kind(),
        ) by {
            assert(rest[i] == records[i]);
        }
        lemma_kinds_do_not_mix::<T>(rest);
        assert(!is_of_type(records[records.len() - 1], T::kind()));
    }
}

/// A record of a kind that was stored is among the records of that kind that are read back.
pub proof fn lemma_kind_is_kept<T: StoredRecord>(records: Seq<StorageView>, held: T::Held)
    requires
        records.contains(T::stored(held)),
    ensures
        restored_of::<T>(records).contains(T::restored(T::stored(held))),
    decreases records.len(),
{
    T::lemma_stored_kind(held);
    let s = T::stored(held);
    let all = restored_of::<T>(records);
    let rest = records.drop_last();
    if records.last() == s {
        assert(all[all.len() - 1] == T::restored(s));
    } else {
        let j = choose|j: int| 0 <= j < records.len() && records[j] == s;
        assert(rest[j] == s);
        lemma_kind_is_kept::<T>(rest, held);
        let before = restored_of::<T>(rest);
        let i = choose|i: int| 0 <= i < before.len() && before[i] == T::restored(s);
        assert(all[i] == T::restored(s));
    }
}

/// The sum of the counts.
pub open spec fn sum_of(counts: Seq<(String, u64)>) -> nat
    decreases counts.len(),
{
    if counts.len() == 0 {
        0
    } else {
        sum_of(counts.drop_last()) + counts.last().1 as nat
    }
}

/// The counts by type add up to the number of records.
pub proof fn lemma_counts_add_up(counts: Seq<(String, u64)>, types: Seq<Seq<char>>)
    requires
        counts_are(counts, types),
    ensures
        sum_of(counts) == types.len(),
    decreases counts.len(),
{
    if counts.len() == 0 {
        if types.len() > 0 {
            assert(count_of(types, types.last()) > 0);
        }
    } else {
        let t = counts.last().0@;
        let fewer = counts.drop_last();
        let others = without(types, t);
        lemma_without(types, t);
        assert forall|i: int| 0 <= i < fewer.len() implies (#[trigger] fewer[i]).1 == count_of(
            others,
            fewer[i].0@,
        ) && fewer[i].1 > 0 by {
            assert(fewer[i] == counts[i]);
            assert(counts[i].0@ != counts[counts.len() - 1].0@);
        }
        assert forall|i: int, j: int| 0 <= i < j < fewer.len() implies (#[trigger] fewer[i]).0@ != (
        #[trigger] fewer[j]).0@ by {
            assert(counts[i].0@ != counts[j].0@);
        }
        assert forall|u: Seq<char>| count_of(others, u) > 0 implies exists|i: int|
            0 <= i < fewer.len() && (#[trigger] fewer[i]).0@ == u by {
            assert(u != t);
            assert(count_of(types, u) > 0);
            let i = choose|i: int| 0 <= i < counts.len() && (#[trigger] counts[i]).0@ == u;
            assert(fewer[i].0@ == u);
        }
        lemma_counts_add_up(fewer, others);
        assert(counts[counts.len() - 1].1 == count_of(types, t));
    }
}

spec fn without(types: Seq<Seq<char>>, t: Seq<char>) -> Seq<Seq<char>>
    decreases types.len(),
{
    if types.len() == 0 {
        Seq::empty()
    } else if types.last() == t {
        without(types.drop_last(), t)
    } else {
        without(types.drop_last(), t).push(types.last())
    }
}

proof fn lemma_without(types: Seq<Seq<char>>, t: Seq<char>)
    ensures
        without(types, t).len() + count_of(types, t) == types.len(),
        forall|u: Seq<char>|
            #[trigger] count_of(without(types, t), u) == (if u == t {
                0
            } else {
                count_of(types, u)
            }),
    decreases types.len(),
{
    if types.len() > 0 {
        let rest = types.drop_last();
        lemma_without(rest, t);
        if types.last() != t {
            assert(without(types, t).drop_last() =~= without(rest, t));
            assert forall|u: Seq<char>| #[trigger] count_of(without(types, t), u) == (if u == t {
                0
            } else {
                count_of(types, u)
            }) by {
                assert(count_of(without(rest, t), u) == (if u == t {
                    0
                } else {
                    count_of(rest, u)
                }));
            }
        } else {
            assert forall|u: Seq<char>| #[trigger] count_of(without(types, t), u) == (if u == t {
                0
            } else {
                count_of(types, u)
            }) by {
                assert(count_of(without(rest, t), u) == (if u == t {
                    0
                } else {
                    count_of(rest, u)
                }));
            }
        }
    }
}

} // verus!
