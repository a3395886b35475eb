//! What holds of a search: which records it gives, and in which order.
use crate::codec::blob_embedding;
use crate::hnsw::{content_to_point_id, VectorDbError};
use crate::json::json_strings_of;
use crate::matching::{
    filter_view, id_at_point, indexed_views, match_with_id, matches_from, matches_of, record_at,
    row_with_id, select_matches, storage_views, IndexedRow, IndexedView,
};
use crate::metadata::Metadata;
use crate::records::{StorageView, VectorStorageRecord};
use crate::sqlite_vectordb::{indexed_row, indexed_rows, SqliteVectorDB, StoredRow};
use vstd::prelude::*;

verus! {

/// The places are in order, none of them twice, and each is a place among `n` things.
pub open spec fn in_order(places: Seq<int>, n: int) -> bool {
    &&& forall|k: int| 0 <= k < places.len() ==> 0 <= #[trigger] places[k] < n
    &&& forall|j: int, k: int|
        0 <= j < k < places.len() ==> #[trigger] places[j] < #[trigger] places[k]
}

// ---------------------------------------------------------------------------------------------
// Over rows as a search sees them
// ---------------------------------------------------------------------------------------------
/// The record that a search has for a point: that of the first row at the point, if no row before
/// it lacks a point, if it can be read and if it has the entries of the filter.
spec fn hit(
    rows: Seq<IndexedView>,
    point: usize,
    filter: Option<Map<Seq<char>, Seq<char>>>,
) -> Option<StorageView> {
    match record_at(rows, point, 0) {
        Ok(id) => match_with_id(rows, id, filter),
        Err(_) => None,
    }
}

/// The results are the hits of the neighbours at the places, in order; a hit that is missing
/// comes behind all of them, when there are enough.
spec fn hits_at(
    rows: Seq<IndexedView>,
    neighbors: Seq<usize>,
    limit: usize,
    filter: Option<Map<Seq<char>, Seq<char>>>,
    upto: int,
    res: Seq<StorageView>,
    places: Seq<int>,
) -> bool {
    &&& in_order(places, upto)
    &&& places.len() == res.len()
    &&& forall|k: int|
        0 <= k < res.len() ==> hit(rows, neighbors[#[trigger] places[k]], filter) == Some(res[k])
    &&& forall|t: int|
        0 <= t < upto && hit(rows, #[trigger] neighbors[t], filter) is Some && !places.contains(t)
            ==> res.len() >= limit && forall|k: int|
            0 <= k < places.len() ==> #[trigger] places[k] < t
}

proof fn lemma_hits_from(
    rows: Seq<IndexedView>,
    neighbors: Seq<usize>,
    limit: usize,
    filter: Option<Map<Seq<char>, Seq<char>>>,
    i: int,
    found: Seq<StorageView>,
    places: Seq<int>,
) -> (all: Seq<int>)
    requires
        0 <= i <= neighbors.len(),
        hits_at(rows, neighbors, limit, filter, i, found, places),
        forall|t: int|
            0 <= t < i && hit(rows, #[trigger] neighbors[t], filter) is Some ==> places.contains(t),
    ensures
        hits_at(
            rows,
            neighbors,
            limit,
            filter,
            neighbors.len() as int,
            matches_from(rows, neighbors, limit, filter, i, found),
            all,
        ),
    decreases neighbors.len() - i,
{
    if i >= neighbors.len() {
        places
    } else {
        match record_at(rows, neighbors[i], 0) {
            Err(_) => {
                assert(hits_at(rows, neighbors, limit, filter, i + 1, found, places));
                lemma_hits_from(rows, neighbors, limit, filter, i + 1, found, places)
            },
            Ok(id) => {
                match match_with_id(rows, id, filter) {
                    None => {
                        if found.len() >= limit {
                            assert forall|t: int|
                                0 <= t < neighbors.len() && hit(rows, #[trigger] neighbors[t], filter)
                                    is Some && !places.contains(t) implies found.len() >= limit
                                && forall|k: int| 0 <= k < places.len() ==> #[trigger] places[k]
                                < t by {
                                assert(t >= i);
                            }
                            places
                        } else {
                            assert(hits_at(rows, neighbors, limit, filter, i + 1, found, places));
                            lemma_hits_from(rows, neighbors, limit, filter, i + 1, found, places)
                        }
                    },
                    Some(r) => {
                        let more = found.push(r);
                        let next = places.push(i);
                        assert forall|t: int|
                            0 <= t <= i && hit(rows, #[trigger] neighbors[t], filter)
                                is Some implies next.contains(t) by {
                            if t == i {
                                assert(next[places.len() as int] == i);
                            } else {
                                let k = choose|k: int| 0 <= k < places.len() && places[k] == t;
                                assert(next[k] == t);
                            }
                        }
                        assert forall|k: int| 0 <= k < more.len() implies hit(
                            rows,
                            neighbors[#[trigger] next[k]],
                            filter,
                        ) == Some(more[k]) by {
                            if k < found.len() {
                                assert(next[k] == places[k]);
                            }
                        }
                        assert(in_order(next, i + 1));
                        if more.len() >= limit {
                            assert forall|t: int|
                                0 <= t < neighbors.len() && hit(rows, #[trigger] neighbors[t], filter)
                                    is Some && !next.contains(t) implies more.len() >= limit
                                && forall|k: int| 0 <= k < next.len() ==> #[trigger] next[k] < t by {
                                assert(t > i);
                            }
                            next
                        } else {
                            lemma_hits_from(rows, neighbors, limit, filter, i + 1, more, next)
                        }
                    },
                }
            },
        }
    }
}

proof fn lemma_record_at_first(rows: Seq<IndexedView>, point: usize, i: int)
    requires
        0 <= i,
    ensures
        match record_at(rows, point, i) {
            Ok(id) => exists|j: int|
                {
                    &&& i <= j < rows.len()
                    &&& (#[trigger] rows[j]).id == id
                    &&& rows[j].point == Ok::<usize, Seq<char>>(point)
                    &&& forall|h: int|
                        i <= h < j ==> (#[trigger] rows[h]).point is Ok && rows[h].point->Ok_0
                            != point
                },
            Err(_) => forall|j: int|
                i <= j < rows.len() && (#[trigger] rows[j]).point == Ok::<usize, Seq<char>>(point)
                    ==> exists|h: int| i <= h < j && (#[trigger] rows[h]).point is Err,
        },
    decreases rows.len() - i,
{
    if i < rows.len() {
        match rows[i].point {
            Err(_) => {
                assert forall|j: int|
                    i <= j < rows.len() && (#[trigger] rows[j]).point == Ok::<usize, Seq<char>>(
                        point,
                    ) implies exists|h: int| i <= h < j && (#[trigger] rows[h]).point is Err by {
                    assert(rows[i].point is Err && i < j);
                }
            },
            Ok(p) => {
                if p == point {
                    assert(rows[i].id == record_at(rows, point, i)->Ok_0);
                } else {
                    lemma_record_at_first(rows, point, i + 1);
                    match record_at(rows, point, i + 1) {
                        Ok(id) => {
                            let j = choose|j: int|
                                {
                                    &&& i + 1 <= j < rows.len()
                                    &&& (#[trigger] rows[j]).id == id
                                    &&& rows[j].point == Ok::<usize, Seq<char>>(point)
                                    &&& forall|h: int|
                                        i + 1 <= h < j ==> (#[trigger] rows[h]).point is Ok
                                            && rows[h].point->Ok_0 != point
                                };
                            assert(rows[j].id == id);
                        },
                        Err(_) => {
                            assert forall|j: int|
                                i <= j < rows.len() && (#[trigger] rows[j]).point == Ok::<
                                    usize,
                                    Seq<char>,
                                >(point) implies exists|h: int|
                                i <= h < j && (#[trigger] rows[h]).point is Err by {
                                let h = choose|h: int|
                                    i + 1 <= h < j && (#[trigger] rows[h]).point is Err;
                                assert(rows[h].point is Err);
                            }
                        },
                    }
                }
            },
        }
    }
}

proof fn lemma_row_with_id_first(rows: Seq<IndexedView>, id: Seq<char>, i: int)
    requires
        0 <= i,
    ensures
        match row_with_id(rows, id, i) {
            Some(row) => exists|j: int|
                {
                    &&& i <= j < rows.len()
                    &&& #[trigger] rows[j] == row
                    &&& row.id == id
                    &&& forall|h: int| i <= h < j ==> (#[trigger] rows[h]).id != id
                },
            None => forall|j: int| i <= j < rows.len() ==> (#[trigger] rows[j]).id != id,
        },
    decreases rows.len() - i,
{
    if i < rows.len() {
        if rows[i].id != id {
            lemma_row_with_id_first(rows, id, i + 1);
            match row_with_id(rows, id, i + 1) {
                Some(row) => {
                    let j = choose|j: int|
                        {
                            &&& i + 1 <= j < rows.len()
                            &&& #[trigger] rows[j] == row
                            &&& row.id == id
                            &&& forall|h: int| i + 1 <= h < j ==> (#[trigger] rows[h]).id != id
                        };
                    assert(rows[j] == row);
                },
                None => {},
            }
        } else {
            assert(rows[i] == row_with_id(rows, id, i)->0);
        }
    }
}

// ---------------------------------------------------------------------------------------------
// Over the rows of the table
// ---------------------------------------------------------------------------------------------
/// The row lies at the point of an index of the given size: its metadata can be read, and the
/// hash of its type and its content, cut down to the size of the index, is the point.
pub open spec fn lies_at(row: StoredRow, point: usize, max_elements: usize) -> bool {
    json_strings_of(row.metadata@) matches Ok(m) && {
        let kind = if m.dom().contains("record_type"@) {
            m["record_type"@]
        } else {
            "unknown"@
        };
        crate::codec::farmhash64(vstd::utf8::encode_utf8(kind + ":"@ + row.content@)) as int
            % max_elements as int == point
    }
}

/// The row is the first one at the point, and the metadata of all rows before it can be read.
pub open spec fn first_at(rows: Seq<StoredRow>, j: int, point: usize, max_elements: usize) -> bool {
    &&& 0 <= j < rows.len()
    &&& lies_at(rows[j], point, max_elements)
    &&& forall|h: int|
        0 <= h < j ==> json_strings_of((#[trigger] rows[h]).metadata@) is Ok && !lies_at(
            rows[h],
            point,
            max_elements,
        )
}

/// The record is what the row holds: its identifier, its content, the embedding in its bytes and
/// the metadata in its JSON text.
pub open spec fn is_in(r: StorageView, row: StoredRow) -> bool {
    &&& r.id == row.id@
    &&& r.content == row.content@
    &&& blob_embedding(row.embedding@) == Some(r.embedding)
    &&& json_strings_of(row.metadata@) == Ok::<_, Seq<char>>(r.metadata)
}

/// The record has every entry of the filter.
pub open spec fn has_all(r: StorageView, filter: Option<Map<Seq<char>, Seq<char>>>) -> bool {
    filter matches Some(f) ==> forall|k: Seq<char>| #[trigger]
        f.dom().contains(k) ==> r.metadata.dom().contains(k) && r.metadata[k] == f[k]
}

/// The record is that of the first row at the point, and it has every entry of the filter.
pub open spec fn found_at(
    rows: Seq<StoredRow>,
    point: usize,
    max_elements: usize,
    filter: Option<Map<Seq<char>, Seq<char>>>,
    r: StorageView,
) -> bool {
    has_all(r, filter) && exists|j: int| #[trigger]
        first_at(rows, j, point, max_elements) && is_in(r, rows[j])
}

/// The results are the records at the points of the neighbours at the given places.
pub open spec fn results_at(
    rows: Seq<StoredRow>,
    max_elements: usize,
    neighbors: Seq<usize>,
    limit: usize,
    filter: Option<Map<Seq<char>, Seq<char>>>,
    res: Seq<StorageView>,
    places: Seq<int>,
) -> bool {
    &&& in_order(places, neighbors.len() as int)
    &&& places.len() == res.len()
    &&& forall|k: int|
        0 <= k < res.len() ==> found_at(
            rows,
            neighbors[#[trigger] places[k]],
            max_elements,
            filter,
            res[k],
        )
    &&& forall|t: int, r: StorageView|
        0 <= t < neighbors.len() && #[trigger] found_at(
            rows,
            neighbors[t],
            max_elements,
            filter,
            r,
        ) && !places.contains(t) ==> res.len() >= limit && forall|k: int|
            0 <= k < places.len() ==> #[trigger] places[k] < t
}

/// The results are the records at the points of neighbours in order, and none is missing unless
/// enough come before it.
pub open spec fn gives(
    rows: Seq<StoredRow>,
    max_elements: usize,
    neighbors: Seq<usize>,
    limit: usize,
    filter: Option<Map<Seq<char>, Seq<char>>>,
    res: Seq<StorageView>,
) -> bool {
    exists|places: Seq<int>| #[trigger]
        results_at(rows, max_elements, neighbors, limit, filter, res, places)
}

/// The point of a hash is what is left of it when it is divided by the size of the index.
pub proof fn lemma_remainder(h: u64, max_elements: usize)
    requires
        max_elements > 0,
    ensures
        crate::hnsw::hash_point(h, max_elements) == (h as int) % (max_elements as int),
{
    let m = max_elements as int;
    let r = (h as int) % m;
    assert(0 <= r < m) by (nonlinear_arith)
        requires
            m > 0,
            r == (h as int) % m,
    ;
}

proof fn lemma_point_of_row(row: StoredRow, point: usize, max_elements: usize)
    requires
        max_elements > 0,
    ensures
        lies_at(row, point, max_elements) <==> indexed_row(row, max_elements).point == Ok::<
            usize,
            Seq<char>,
        >(point),
        indexed_row(row, max_elements).point is Ok <==> json_strings_of(row.metadata@) is Ok,
        indexed_row(row, max_elements).id == row.id@,
{
    match json_strings_of(row.metadata@) {
        Ok(m) => {
            let kind = if m.dom().contains("record_type"@) {
                m["record_type"@]
            } else {
                "unknown"@
            };
            let h = crate::codec::farmhash64(
                vstd::utf8::encode_utf8(kind + ":"@ + row.content@),
            );
            lemma_remainder(h, max_elements);
        },
        Err(_) => {},
    }
}

proof fn lemma_hit_is_found(
    rows: Seq<StoredRow>,
    point: usize,
    max_elements: usize,
    filter: Option<Map<Seq<char>, Seq<char>>>,
    r: StorageView,
)
    requires
        max_elements > 0,
        forall|a: int, b: int|
            0 <= a < b < rows.len() ==> (#[trigger] rows[a]).id@ != (#[trigger] rows[b]).id@,
    ensures
        hit(indexed_rows(rows, max_elements), point, filter) == Some(r) <==> found_at(
            rows,
            point,
            max_elements,
            filter,
            r,
        ),
{
    let seen = indexed_rows(rows, max_elements);
    assert forall|j: int| 0 <= j < rows.len() implies #[trigger] seen[j] == indexed_row(
        rows[j],
        max_elements,
    ) && (lies_at(rows[j], point, max_elements) <==> seen[j].point == Ok::<usize, Seq<char>>(
        point,
    )) && (seen[j].point is Ok <==> json_strings_of(rows[j].metadata@) is Ok) && seen[j].id
        == rows[j].id@ by {
        lemma_point_of_row(rows[j], point, max_elements);
    }
    lemma_record_at_first(seen, point, 0);
    match record_at(seen, point, 0) {
        Ok(id) => {
            let j = choose|j: int|
                {
                    &&& 0 <= j < seen.len()
                    &&& (#[trigger] seen[j]).id == id
                    &&& seen[j].point == Ok::<usize, Seq<char>>(point)
                    &&& forall|h: int|
                        0 <= h < j ==> (#[trigger] seen[h]).point is Ok && seen[h].point->Ok_0
                            != point
                };
            assert(first_at(rows, j, point, max_elements)) by {
                assert forall|h: int| 0 <= h < j implies json_strings_of(
                    (#[trigger] rows[h]).metadata@,
                ) is Ok && !lies_at(rows[h], point, max_elements) by {
                    assert(seen[h].point is Ok && seen[h].point->Ok_0 != point);
                }
            }
            lemma_row_with_id_first(seen, id, 0);
            assert(row_with_id(seen, id, 0) == Some(seen[j])) by {
                assert(seen[j].id == id);
                let row = row_with_id(seen, id, 0)->0;
                let i = choose|i: int|
                    {
                        &&& 0 <= i < seen.len()
                        &&& #[trigger] seen[i] == row
                        &&& row.id == id
                        &&& forall|h: int| 0 <= h < i ==> (#[trigger] seen[h]).id != id
                    };
                assert(rows[i].id@ == rows[j].id@);
            }
            assert forall|x: StorageView| is_in(x, rows[j]) <==> seen[j].record == Some(x) by {
                if seen[j].record == Some(x) {
                } else if is_in(x, rows[j]) {
                    assert(seen[j].record->0 =~= x);
                }
            }
            assert forall|x: StorageView| has_all(x, filter) <==> crate::matching::passes(
                filter,
                x,
            ) by {}
            if found_at(rows, point, max_elements, filter, r) {
                let i = choose|i: int| #[trigger]
                    first_at(rows, i, point, max_elements) && is_in(r, rows[i]);
                if i < j {
                    assert(lies_at(rows[i], point, max_elements));
                    assert(seen[i].point->Ok_0 != point);
                }
                if j < i {
                    assert(!lies_at(rows[j], point, max_elements));
                }
                assert(i == j);
            }
        },
        Err(_) => {
            if found_at(rows, point, max_elements, filter, r) {
                let i = choose|i: int| #[trigger]
                    first_at(rows, i, point, max_elements) && is_in(r, rows[i]);
                assert(seen[i].point == Ok::<usize, Seq<char>>(point));
                let h = choose|h: int| 0 <= h < i && (#[trigger] seen[h]).point is Err;
                assert(json_strings_of(rows[h].metadata@) is Ok);
            }
        },
    }
}

proof fn lemma_results(
    rows: Seq<StoredRow>,
    max_elements: usize,
    neighbors: Seq<usize>,
    limit: usize,
    filter: Option<Map<Seq<char>, Seq<char>>>,
) -> (places: Seq<int>)
    requires
        max_elements > 0,
        forall|a: int, b: int|
            0 <= a < b < rows.len() ==> (#[trigger] rows[a]).id@ != (#[trigger] rows[b]).id@,
    ensures
        results_at(
            rows,
            max_elements,
            neighbors,
            limit,
            filter,
            matches_of(indexed_rows(rows, max_elements), neighbors, limit, filter),
            places,
        ),
{
    let seen = indexed_rows(rows, max_elements);
    let res = matches_of(seen, neighbors, limit, filter);
    let places = lemma_hits_from(seen, neighbors, limit, filter, 0, Seq::empty(), Seq::empty());
    assert forall|k: int| 0 <= k < res.len() implies found_at(
        rows,
        neighbors[#[trigger] places[k]],
        max_elements,
        filter,
        res[k],
    ) by {
        lemma_hit_is_found(rows, neighbors[places[k]], max_elements, filter, res[k]);
    }
    assert forall|t: int, r: StorageView|
        0 <= t < neighbors.len() && #[trigger] found_at(
            rows,
            neighbors[t],
            max_elements,
            filter,
            r,
        ) && !places.contains(t) implies res.len() >= limit && forall|k: int|
        0 <= k < places.len() ==> #[trigger] places[k] < t by {
        lemma_hit_is_found(rows, neighbors[t], max_elements, filter, r);
    }
    places
}

/// A search is refused where the query has the wrong length or there is no index. Else its
/// results stand in the order of the neighbours: each is the record of the first row at the point
/// of its neighbour, with every entry of the filter, and the neighbours of later results are
/// further behind. No such record is missing, unless enough of them come before it. This holds of
/// a table in which no identifier stands twice.
pub proof fn lemma_search_results(
    db: &SqliteVectorDB,
    query: &Vec<u32>,
    limit: usize,
    filter: Option<&Metadata>,
    neighbors: Option<Vec<usize>>,
    rows: &Vec<StoredRow>,
    res: Result<Vec<VectorStorageRecord>, VectorDbError>,
)
    requires
        call_ensures(
            SqliteVectorDB::search_storage_records,
            (db, query, limit, filter, neighbors, rows),
            res,
        ),
        db.max_elements > 0,
        forall|a: int, b: int|
            0 <= a < b < rows@.len() ==> (#[trigger] rows@[a]).id@ != (#[trigger] rows@[b]).id@,
    ensures
        query@.len() != db.dimension ==> res == Err::<Vec<VectorStorageRecord>, _>(
            VectorDbError::QueryDimensionMismatch {
                expected: db.dimension,
                got: query@.len() as usize,
            },
        ),
        query@.len() == db.dimension && neighbors is None ==> res == Err::<
            Vec<VectorStorageRecord>,
            _,
        >(VectorDbError::NotInitialized),
        query@.len() == db.dimension && neighbors is Some ==> res is Ok && gives(
            rows@,
            db.max_elements,
            neighbors->0@,
            limit,
            match filter {
                Some(m) => Some(m@),
                None => None,
            },
            Seq::new(res->Ok_0@.len(), |i: int| res->Ok_0@[i]@),
        ),
        res is Ok && limit > 0 ==> res->Ok_0@.len() <= limit,
{
    if query@.len() == db.dimension && neighbors is Some {
        let places = lemma_results(
            rows@,
            db.max_elements,
            neighbors->0@,
            limit,
            filter_view(filter),
        );
        let shown = Seq::new(res->Ok_0@.len(), |i: int| res->Ok_0@[i]@);
        assert(storage_views(res->Ok_0@) =~= shown);
        assert(results_at(
            rows@,
            db.max_elements,
            neighbors->0@,
            limit,
            filter_view(filter),
            shown,
            places,
        ));
        crate::store_laws::lemma_search_sound(
            indexed_rows(rows@, db.max_elements),
            neighbors->0@,
            limit,
            filter_view(filter),
        );
        assert(shown.len() == res->Ok_0@.len());
    }
}

/// Where every neighbour's point has a readable record, and the limit is not reached before the
/// end, a search without a filter gives one record for each neighbour, the nearest first.
pub proof fn lemma_nearest_first(
    db: &SqliteVectorDB,
    query: &Vec<u32>,
    limit: usize,
    neighbors: Vec<usize>,
    rows: &Vec<StoredRow>,
    records: Seq<StorageView>,
    res: Result<Vec<VectorStorageRecord>, VectorDbError>,
)
    requires
        call_ensures(
            SqliteVectorDB::search_storage_records,
            (db, query, limit, None, Some(neighbors), rows),
            res,
        ),
        db.max_elements > 0,
        query@.len() == db.dimension,
        neighbors@.len() <= limit,
        records.len() == neighbors@.len(),
        forall|i: int|
            0 <= i < neighbors@.len() ==> found_at(
                rows@,
                neighbors@[i],
                db.max_elements,
                None,
                #[trigger] records[i],
            ),
        forall|a: int, b: int|
            0 <= a < b < rows@.len() ==> (#[trigger] rows@[a]).id@ != (#[trigger] rows@[b]).id@,
    ensures
        res is Ok,
        res->Ok_0@.len() == records.len(),
        forall|i: int| 0 <= i < records.len() ==> (#[trigger] res->Ok_0@[i])@ == records[i],
{
    lemma_search_results(db, query, limit, None, Some(neighbors), rows, res);
    let n = neighbors@.len() as int;
    let shown = Seq::new(res->Ok_0@.len(), |i: int| res->Ok_0@[i]@);
    let places = choose|places: Seq<int>| #[trigger]
        results_at(rows@, db.max_elements, neighbors@, limit, None, shown, places);
    assert forall|t: int| 0 <= t < n implies places.contains(t) by {
        if !places.contains(t) {
            assert(found_at(rows@, neighbors@[t], db.max_elements, None, records[t]));
            assert(shown.len() >= limit);
            lemma_places_bound(places, t);
        }
    }
    lemma_all_places(places, n);
    assert forall|i: int| 0 <= i < n implies (#[trigger] res->Ok_0@[i])@ == records[i] by {
        assert(places[i] == i);
        assert(shown[i] == res->Ok_0@[i]@);
        assert(found_at(rows@, neighbors@[i], db.max_elements, None, shown[i]));
        assert(found_at(rows@, neighbors@[i], db.max_elements, None, records[i]));
        lemma_hit_is_found(rows@, neighbors@[i], db.max_elements, None, shown[i]);
        lemma_hit_is_found(rows@, neighbors@[i], db.max_elements, None, records[i]);
    }
}

/// Places in order that all lie before `t` are at most `t` many.
proof fn lemma_places_bound(places: Seq<int>, t: int)
    requires
        forall|k: int| 0 <= k < places.len() ==> 0 <= #[trigger] places[k] < t,
        forall|j: int, k: int|
            0 <= j < k < places.len() ==> #[trigger] places[j] < #[trigger] places[k],
        0 <= t,
    ensures
        places.len() <= t,
    decreases t,
{
    if places.len() > 0 {
        let rest = places.drop_last();
        assert(places[places.len() - 1] < t);
        assert forall|k: int| 0 <= k < rest.len() implies 0 <= #[trigger] rest[k] < t - 1 by {
            assert(places[k] < places[places.len() - 1]);
        }
        assert forall|j: int, k: int| 0 <= j < k < rest.len() implies #[trigger] rest[j]
            < #[trigger] rest[k] by {
            assert(places[j] < places[k]);
        }
        lemma_places_bound(rest, t - 1);
    }
}

/// Places in order among `n` that leave none out are all of them, each at its own place.
proof fn lemma_all_places(places: Seq<int>, n: int)
    requires
        0 <= n,
        in_order(places, n),
        forall|t: int| 0 <= t < n ==> #[trigger] places.contains(t),
    ensures
        places.len() == n,
        forall|i: int| 0 <= i < n ==> #[trigger] places[i] == i,
    decreases n,
{
    if n > 0 {
        assert(places.contains(n - 1));
        let k = choose|k: int| 0 <= k < places.len() && places[k] == n - 1;
        if k < places.len() - 1 {
            assert(places[k] < places[places.len() - 1]);
        }
        let rest = places.drop_last();
        assert(in_order(rest, n - 1)) by {
            assert forall|i: int| 0 <= i < rest.len() implies 0 <= #[trigger] rest[i] < n - 1 by {
                assert(places[i] < places[places.len() - 1]);
            }
            assert forall|i: int, j: int| 0 <= i < j < rest.len() implies #[trigger] rest[i]
                < #[trigger] rest[j] by {
                assert(places[i] < places[j]);
            }
        }
        assert forall|t: int| 0 <= t < n - 1 implies #[trigger] rest.contains(t) by {
            assert(places.contains(t));
            let i = choose|i: int| 0 <= i < places.len() && places[i] == t;
            assert(rest[i] == t);
        }
        lemma_all_places(rest, n - 1);
        assert forall|i: int| 0 <= i < n implies #[trigger] places[i] == i by {
            if i < n - 1 {
                assert(rest[i] == i);
            }
        }
    } else {
        if places.len() > 0 {
            assert(places[0] < n);
        }
    }
}

/// The point of content of a type is the hash of the type, a colon and the content, cut down to
/// the size of the index.
pub proof fn lemma_content_point(content: &str, kind: &str, max_elements: usize, res: usize)
    requires
        call_ensures(content_to_point_id, (content, kind, max_elements), res),
        max_elements > 0,
    ensures
        res as int == crate::codec::farmhash64(
            vstd::utf8::encode_utf8(kind@ + ":"@ + content@),
        ) as int % max_elements as int,
{
    let h = crate::codec::farmhash64(vstd::utf8::encode_utf8(kind@ + ":"@ + content@));
    lemma_remainder(h, max_elements);
}

// ---------------------------------------------------------------------------------------------
// Over rows that have been placed
// ---------------------------------------------------------------------------------------------
/// The row is the first one at the point, and all rows before it have a point.
pub open spec fn first_placed(rows: Seq<IndexedRow>, j: int, point: usize) -> bool {
    &&& 0 <= j < rows.len()
    &&& rows[j].point matches Ok(p) && p == point
    &&& forall|h: int|
        0 <= h < j ==> (#[trigger] rows[h]).point is Ok && rows[h].point->Ok_0 != point
}

/// The record is that of the first row at the point, and it has every entry of the filter.
pub open spec fn found_placed(
    rows: Seq<IndexedRow>,
    point: usize,
    filter: Option<Map<Seq<char>, Seq<char>>>,
    r: StorageView,
) -> bool {
    has_all(r, filter) && exists|j: int| #[trigger]
        first_placed(rows, j, point) && rows[j].record is Some && rows[j].record->0@ == r
}

/// The results are the records at the points of the neighbours at the given places.
pub open spec fn selected_at(
    rows: Seq<IndexedRow>,
    neighbors: Seq<usize>,
    limit: usize,
    filter: Option<Map<Seq<char>, Seq<char>>>,
    res: Seq<VectorStorageRecord>,
    places: Seq<int>,
) -> bool {
    &&& in_order(places, neighbors.len() as int)
    &&& places.len() == res.len()
    &&& forall|k: int|
        0 <= k < res.len() ==> found_placed(
            rows,
            neighbors[#[trigger] places[k]],
            filter,
            res[k]@,
        )
    &&& forall|t: int, r: StorageView|
        0 <= t < neighbors.len() && #[trigger] found_placed(rows, neighbors[t], filter, r)
            && !places.contains(t) ==> res.len() >= limit && forall|k: int|
            0 <= k < places.len() ==> #[trigger] places[k] < t
}

proof fn lemma_hit_is_placed(
    rows: Seq<IndexedRow>,
    point: usize,
    filter: Option<Map<Seq<char>, Seq<char>>>,
    r: StorageView,
)
    requires
        forall|a: int, b: int|
            0 <= a < b < rows.len() ==> (#[trigger] rows[a]).id@ != (#[trigger] rows[b]).id@,
    ensures
        hit(indexed_views(rows), point, filter) == Some(r) <==> found_placed(
            rows,
            point,
            filter,
            r,
        ),
        record_at(indexed_views(rows), point, 0) is Ok <==> exists|j: int| #[trigger]
            first_placed(rows, j, point),
        forall|j: int| #[trigger]
            first_placed(rows, j, point) ==> record_at(indexed_views(rows), point, 0) == Ok::<
                _,
                crate::hnsw::DbErrorView,
            >(rows[j].id@),
{
    let seen = indexed_views(rows);
    assert forall|j: int| 0 <= j < rows.len() implies #[trigger] seen[j] == rows[j]@ by {}
    lemma_record_at_first(seen, point, 0);
    assert forall|x: StorageView| has_all(x, filter) <==> crate::matching::passes(filter, x) by {}
    match record_at(seen, point, 0) {
        Ok(id) => {
            let j = choose|j: int|
                {
                    &&& 0 <= j < seen.len()
                    &&& (#[trigger] seen[j]).id == id
                    &&& seen[j].point == Ok::<usize, Seq<char>>(point)
                    &&& forall|h: int|
                        0 <= h < j ==> (#[trigger] seen[h]).point is Ok && seen[h].point->Ok_0
                            != point
                };
            assert(first_placed(rows, j, point)) by {
                assert forall|h: int| 0 <= h < j implies (#[trigger] rows[h]).point is Ok
                    && rows[h].point->Ok_0 != point by {
                    assert(seen[h].point is Ok && seen[h].point->Ok_0 != point);
                }
            }
            assert forall|i: int| #[trigger] first_placed(rows, i, point) implies i == j by {
                if i < j {
                    assert(seen[i].point->Ok_0 != point);
                }
                if j < i {
                    assert(rows[j].point->Ok_0 != point);
                }
            }
            lemma_row_with_id_first(seen, id, 0);
            assert(row_with_id(seen, id, 0) == Some(seen[j])) by {
                assert(seen[j].id == id);
                let row = row_with_id(seen, id, 0)->0;
                let i = choose|i: int|
                    {
                        &&& 0 <= i < seen.len()
                        &&& #[trigger] seen[i] == row
                        &&& row.id == id
                        &&& forall|h: int| 0 <= h < i ==> (#[trigger] seen[h]).id != id
                    };
                assert(rows[i].id@ == rows[j].id@);
            }
        },
        Err(_) => {
            assert forall|i: int| !#[trigger] first_placed(rows, i, point) by {
                if first_placed(rows, i, point) {
                    assert(seen[i].point == Ok::<usize, Seq<char>>(point));
                    let h = choose|h: int| 0 <= h < i && (#[trigger] seen[h]).point is Err;
                    assert(rows[h].point is Ok);
                }
            }
        },
    }
}

/// The records that are selected stand in the order of the neighbours: each is the record of the
/// first row at the point of its neighbour, with every entry of the filter, and the neighbours of
/// later records are further behind. None is missing, unless enough of them come before it. This
/// holds of rows of which no two have the same identifier.
pub proof fn lemma_selected(
    rows: &Vec<IndexedRow>,
    neighbors: &Vec<usize>,
    limit: usize,
    filter: Option<&Metadata>,
    res: Vec<VectorStorageRecord>,
) -> (places: Seq<int>)
    requires
        call_ensures(select_matches, (rows, neighbors, limit, filter), res),
        forall|a: int, b: int|
            0 <= a < b < rows@.len() ==> (#[trigger] rows@[a]).id@ != (#[trigger] rows@[b]).id@,
    ensures
        selected_at(
            rows@,
            neighbors@,
            limit,
            match filter {
                Some(m) => Some(m@),
                None => None,
            },
            res@,
            places,
        ),
        limit > 0 ==> res@.len() <= limit,
{
    let seen = indexed_views(rows@);
    let f = filter_view(filter);
    let shown = storage_views(res@);
    assert(shown.len() == res@.len());
    let places = lemma_hits_from(seen, neighbors@, limit, f, 0, Seq::empty(), Seq::empty());
    assert forall|k: int| 0 <= k < res@.len() implies found_placed(
        rows@,
        neighbors@[#[trigger] places[k]],
        f,
        res@[k]@,
    ) by {
        assert(shown[k] == res@[k]@);
        lemma_hit_is_placed(rows@, neighbors@[places[k]], f, res@[k]@);
    }
    assert forall|t: int, r: StorageView|
        0 <= t < neighbors@.len() && #[trigger] found_placed(rows@, neighbors@[t], f, r)
            && !places.contains(t) implies res@.len() >= limit && forall|k: int|
        0 <= k < places.len() ==> #[trigger] places[k] < t by {
        lemma_hit_is_placed(rows@, neighbors@[t], f, r);
    }
    crate::store_laws::lemma_search_sound(seen, neighbors@, limit, f);
    places
}

/// With a limit of none, the first neighbour whose point has a row decides: its record is the one
/// result, if it can be read and has every entry of the filter.
pub proof fn lemma_limit_of_none(
    rows: &Vec<IndexedRow>,
    neighbors: &Vec<usize>,
    filter: Option<&Metadata>,
    res: Vec<VectorStorageRecord>,
    t: int,
    j: int,
)
    requires
        call_ensures(select_matches, (rows, neighbors, 0, filter), res),
        forall|a: int, b: int|
            0 <= a < b < rows@.len() ==> (#[trigger] rows@[a]).id@ != (#[trigger] rows@[b]).id@,
        0 <= t < neighbors@.len(),
        first_placed(rows@, j, neighbors@[t]),
        forall|s: int, i: int|
            0 <= s < t ==> !#[trigger] first_placed(rows@, i, neighbors@[s]),
    ensures
        ({
            let f = match filter {
                Some(m) => Some(m@),
                None => None,
            };
            let record = rows@[j].record;
            &&& record is Some && has_all(record->0@, f) ==> res@.len() == 1 && res@[0]@
                == record->0@
            &&& !(record is Some && has_all(record->0@, f)) ==> res@.len() == 0
        }),
{
    let seen = indexed_views(rows@);
    let f = filter_view(filter);
    let shown = storage_views(res@);
    assert(shown.len() == res@.len());
    lemma_passed_over(rows@, neighbors@, f, 0, t);
    let record = rows@[j].record;
    if record is Some {
        lemma_hit_is_placed(rows@, neighbors@[t], f, record->0@);
    } else {
        lemma_hit_is_placed(rows@, neighbors@[t], f, arbitrary());
    }
    assert(record_at(seen, neighbors@[t], 0) is Ok);
    let h = hit(seen, neighbors@[t], f);
    if h is Some {
        lemma_hit_is_placed(rows@, neighbors@[t], f, h->0);
        let i = choose|i: int| #[trigger]
            first_placed(rows@, i, neighbors@[t]) && rows@[i].record is Some
                && rows@[i].record->0@ == h->0;
        if i < j {
            assert(rows@[i].point->Ok_0 != neighbors@[t]);
        }
        if j < i {
            assert(rows@[j].point->Ok_0 != neighbors@[t]);
        }
        assert(shown == Seq::<StorageView>::empty().push(h->0));
        assert(shown[0] == res@[0]@);
    } else {
        assert(shown == Seq::<StorageView>::empty());
    }
}

proof fn lemma_passed_over(
    rows: Seq<IndexedRow>,
    neighbors: Seq<usize>,
    filter: Option<Map<Seq<char>, Seq<char>>>,
    i: int,
    t: int,
)
    requires
        0 <= i <= t < neighbors.len(),
        forall|a: int, b: int|
            0 <= a < b < rows.len() ==> (#[trigger] rows[a]).id@ != (#[trigger] rows[b]).id@,
        forall|s: int, j: int| 0 <= s < t ==> !#[trigger] first_placed(rows, j, neighbors[s]),
    ensures
        matches_from(indexed_views(rows), neighbors, 0, filter, i, Seq::empty()) == matches_from(
            indexed_views(rows),
            neighbors,
            0,
            filter,
            t,
            Seq::empty(),
        ),
    decreases t - i,
{
    if i < t {
        lemma_hit_is_placed(rows, neighbors[i], filter, arbitrary());
        lemma_passed_over(rows, neighbors, filter, i + 1, t);
    }
}

/// The identifier at a point is that of the first row there. A row before it without a point ends
/// the search with its reason; where there is no row at the point, the error names the point.
pub proof fn lemma_identifier_at_point(
    rows: &Vec<IndexedRow>,
    point: usize,
    res: Result<String, VectorDbError>,
)
    requires
        call_ensures(id_at_point, (rows, point), res),
    ensures
        res matches Ok(id) ==> exists|j: int| #[trigger]
            first_placed(rows@, j, point) && rows@[j].id@ == id@,
        res matches Err(e) ==> {
            ||| e == (VectorDbError::NoRecord { point_id: point }) && forall|j: int|
                0 <= j < rows@.len() ==> (#[trigger] rows@[j]).point is Ok && rows@[j].point->Ok_0
                    != point
            ||| e matches VectorDbError::BadMetadata { reason } && exists|j: int|
                {
                    &&& 0 <= j < rows@.len()
                    &&& (#[trigger] rows@[j]).point is Err
                    &&& rows@[j].point->Err_0@ == reason@
                    &&& forall|h: int|
                        0 <= h < j ==> (#[trigger] rows@[h]).point is Ok && rows@[h].point->Ok_0
                            != point
                }
        },
{
    let seen = indexed_views(rows@);
    assert forall|j: int| 0 <= j < rows@.len() implies #[trigger] seen[j] == rows@[j]@ by {}
    lemma_id_from(rows@, point, 0);
    if res is Err {
        let e = res->Err_0;
        match record_at(seen, point, 0) {
            Ok(_) => {},
            Err(x) => {
                assert(x == e@);
            },
        }
    }
}

proof fn lemma_id_from(rows: Seq<IndexedRow>, point: usize, i: int)
    requires
        0 <= i <= rows.len(),
        forall|h: int|
            0 <= h < i ==> (#[trigger] rows[h]).point is Ok && rows[h].point->Ok_0 != point,
    ensures
        match record_at(indexed_views(rows), point, i) {
            Ok(id) => exists|j: int| #[trigger]
                first_placed(rows, j, point) && rows[j].id@ == id,
            Err(crate::hnsw::DbErrorView::NoRecord { point_id }) => point_id == point && forall|j:
                int| 0 <= j < rows.len() ==> (#[trigger] rows[j]).point is Ok
                && rows[j].point->Ok_0 != point,
            Err(crate::hnsw::DbErrorView::BadMetadata { reason }) => exists|j: int|
                {
                    &&& 0 <= j < rows.len()
                    &&& (#[trigger] rows[j]).point is Err
                    &&& rows[j].point->Err_0@ == reason
                    &&& forall|h: int|
                        0 <= h < j ==> (#[trigger] rows[h]).point is Ok && rows[h].point->Ok_0
                            != point
                },
            Err(_) => false,
        },
    decreases rows.len() - i,
{
    if i < rows.len() {
        assert(indexed_views(rows)[i] == rows[i]@);
        match rows[i].point {
            Err(reason) => {
                assert(rows[i].point is Err);
            },
            Ok(p) => {
                if p == point {
                    assert(first_placed(rows, i, point));
                } else {
                    lemma_id_from(rows, point, i + 1);
                }
            },
        }
    }
}

/// The identifier at a point of the index is that of the first row whose content lies there.
pub proof fn lemma_record_of_point(
    db: &SqliteVectorDB,
    point: usize,
    rows: &Vec<StoredRow>,
    res: Result<String, VectorDbError>,
)
    requires
        call_ensures(SqliteVectorDB::point_id_to_record_id, (db, point, rows), res),
        db.max_elements > 0,
    ensures
        res is Ok <==> exists|j: int| #[trigger] first_at(rows@, j, point, db.max_elements),
        forall|j: int| #[trigger]
            first_at(rows@, j, point, db.max_elements) ==> res is Ok && res->Ok_0@ == rows@[j].id@,
{
    let seen = indexed_rows(rows@, db.max_elements);
    assert forall|j: int| 0 <= j < rows@.len() implies #[trigger] seen[j] == indexed_row(
        rows@[j],
        db.max_elements,
    ) && (lies_at(rows@[j], point, db.max_elements) <==> seen[j].point == Ok::<usize, Seq<char>>(
        point,
    )) && (seen[j].point is Ok <==> json_strings_of(rows@[j].metadata@) is Ok) && seen[j].id
        == rows@[j].id@ by {
        lemma_point_of_row(rows@[j], point, db.max_elements);
    }
    lemma_record_at_first(seen, point, 0);
    match record_at(seen, point, 0) {
        Ok(id) => {
            let j = choose|j: int|
                {
                    &&& 0 <= j < seen.len()
                    &&& (#[trigger] seen[j]).id == id
                    &&& seen[j].point == Ok::<usize, Seq<char>>(point)
                    &&& forall|h: int|
                        0 <= h < j ==> (#[trigger] seen[h]).point is Ok && seen[h].point->Ok_0
                            != point
                };
            assert(first_at(rows@, j, point, db.max_elements)) by {
                assert forall|h: int| 0 <= h < j implies json_strings_of(
                    (#[trigger] rows@[h]).metadata@,
                ) is Ok && !lies_at(rows@[h], point, db.max_elements) by {
                    assert(seen[h].point is Ok && seen[h].point->Ok_0 != point);
                }
            }
            assert forall|i: int| #[trigger] first_at(
                rows@,
                i,
                point,
                db.max_elements,
            ) implies i == j by {
                if i < j {
                    assert(seen[i].point->Ok_0 != point);
                }
                if j < i {
                    assert(!lies_at(rows@[j], point, db.max_elements));
                }
            }
        },
        Err(_) => {
            assert forall|i: int| !#[trigger] first_at(rows@, i, point, db.max_elements) by {
                if first_at(rows@, i, point, db.max_elements) {
                    assert(seen[i].point == Ok::<usize, Seq<char>>(point));
                    let h = choose|h: int| 0 <= h < i && (#[trigger] seen[h]).point is Err;
                    assert(json_strings_of(rows@[h].metadata@) is Ok);
                }
            }
        },
    }
}

} // verus!
