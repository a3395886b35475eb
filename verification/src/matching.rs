//! From the neighbours that the index names to the records that a search gives.
use crate::hnsw::{DbErrorView, VectorDbError};
use crate::metadata::Metadata;
use crate::records::{StorageView, VectorStorageRecord};
use crate::text::same_text;
use vstd::prelude::*;

verus! {

/// A row of the table as a search sees it: its identifier, the point in the index at which its
/// content lies, and its record. There is no point where the metadata cannot be read, but the
/// reason, and no record where the row cannot be read.
#[derive(Debug)]
pub struct IndexedRow {
    pub id: String,
    pub point: Result<usize, String>,
    pub record: Option<VectorStorageRecord>,
}

/// What a search sees of a row.
pub struct IndexedView {
    pub id: Seq<char>,
    pub point: Result<usize, Seq<char>>,
    pub record: Option<StorageView>,
}

impl View for IndexedRow {
    type V = IndexedView;

    open spec fn view(&self) -> IndexedView {
        IndexedView {
            id: self.id@,
            point: match self.point {
                Ok(p) => Ok(p),
                Err(reason) => Err(reason@),
            },
            record: match self.record {
                Some(r) => Some(r@),
                None => None,
            },
        }
    }
}

/// Rows by their views.
pub open spec fn indexed_views(rows: Seq<IndexedRow>) -> Seq<IndexedView> {
    Seq::new(rows.len(), |i: int| rows[i]@)
}

/// The records in a sequence.
pub open spec fn storage_views(records: Seq<VectorStorageRecord>) -> Seq<StorageView> {
    Seq::new(records.len(), |i: int| records[i]@)
}

/// The map of an optional filter.
pub open spec fn filter_view(filter: Option<&Metadata>) -> Option<Map<Seq<char>, Seq<char>>> {
    match filter {
        Some(m) => Some(m@),
        None => None,
    }
}

/// The identifier of the first row at `point_id`, looked for from the row `i` on. A row on the
/// way without a point ends the search.
pub open spec fn record_at(rows: Seq<IndexedView>, point_id: usize, i: int) -> Result<
    Seq<char>,
    DbErrorView,
>
    decreases rows.len() - i,
{
    if i < 0 || i >= rows.len() {
        Err(DbErrorView::NoRecord { point_id })
    } else {
        match rows[i].point {
            Err(reason) => Err(DbErrorView::BadMetadata { reason }),
            Ok(p) => if p == point_id {
                Ok(rows[i].id)
            } else {
                record_at(rows, point_id, i + 1)
            },
        }
    }
}

/// The first row with the identifier `id`, from the row `i` on.
pub open spec fn row_with_id(rows: Seq<IndexedView>, id: Seq<char>, i: int) -> Option<IndexedView>
    decreases rows.len() - i,
{
    if i < 0 || i >= rows.len() {
        None
    } else if rows[i].id == id {
        Some(rows[i])
    } else {
        row_with_id(rows, id, i + 1)
    }
}

/// The record satisfies the filter, if there is one: it has all of the filter's entries.
pub open spec fn passes(filter: Option<Map<Seq<char>, Seq<char>>>, r: StorageView) -> bool {
    filter is Some ==> filter->0.submap_of(r.metadata)
}

/// The record with the identifier `id`, if its row can be read and it satisfies the filter.
pub open spec fn match_with_id(
    rows: Seq<IndexedView>,
    id: Seq<char>,
    filter: Option<Map<Seq<char>, Seq<char>>>,
) -> Option<StorageView> {
    match row_with_id(rows, id, 0) {
        None => None,
        Some(row) => match row.record {
            None => None,
            Some(r) => if passes(filter, r) {
                Some(r)
            } else {
                None
            },
        },
    }
}

/// The records that a search gives: those at the neighbours' points, nearest first, that satisfy
/// the filter, after the records `found` and from the neighbour `i` on. It stops as soon as
/// `limit` records are found.
pub open spec fn matches_from(
    rows: Seq<IndexedView>,
    neighbors: Seq<usize>,
    limit: usize,
    filter: Option<Map<Seq<char>, Seq<char>>>,
    i: int,
    found: Seq<StorageView>,
) -> Seq<StorageView>
    decreases neighbors.len() - i,
{
    if i < 0 || i >= neighbors.len() {
        found
    } else {
        match record_at(rows, neighbors[i], 0) {
            Err(_) => matches_from(rows, neighbors, limit, filter, i + 1, found),
            Ok(id) => {
                let more = match match_with_id(rows, id, filter) {
                    Some(r) => found.push(r),
                    None => found,
                };
                if more.len() >= limit {
                    more
                } else {
                    matches_from(rows, neighbors, limit, filter, i + 1, more)
                }
            },
        }
    }
}

/// The records that a search gives.
pub open spec fn matches_of(
    rows: Seq<IndexedView>,
    neighbors: Seq<usize>,
    limit: usize,
    filter: Option<Map<Seq<char>, Seq<char>>>,
) -> Seq<StorageView> {
    matches_from(rows, neighbors, limit, filter, 0, Seq::empty())
}

/// The identifier of the first row at a point.
pub fn id_at_point(rows: &Vec<IndexedRow>, point_id: usize) -> (res: Result<String, VectorDbError>)
    ensures
        match res {
            Ok(id) => record_at(indexed_views(rows@), point_id, 0) == Ok::<_, DbErrorView>(id@),
            Err(e) => record_at(indexed_views(rows@), point_id, 0) == Err::<Seq<char>, _>(e@),
        },
{
    let ghost all = indexed_views(rows@);
    let mut i: usize = 0;
    while i < rows.len()
        invariant
            i <= rows@.len(),
            all == indexed_views(rows@),
            record_at(all, point_id, 0) == record_at(all, point_id, i as int),
        decreases rows@.len() - i,
    {
        assert(all[i as int] == rows@[i as int]@);
        match &rows[i].point {
            Err(reason) => {
                return Err(VectorDbError::BadMetadata { reason: reason.clone() });
            },
            Ok(p) => {
                if *p == point_id {
                    return Ok(rows[i].id.clone());
                }
            },
        }
        i += 1;
    }
    Err(VectorDbError::NoRecord { point_id })
}

fn matching_record(rows: &Vec<IndexedRow>, id: &str, filter: Option<&Metadata>) -> (res: Option<
    VectorStorageRecord,
>)
    ensures
        match res {
            Some(r) => match_with_id(indexed_views(rows@), id@, filter_view(filter)) == Some(r@),
            None => match_with_id(indexed_views(rows@), id@, filter_view(filter)) is None,
        },
{
    let ghost all = indexed_views(rows@);
    let mut i: usize = 0;
    while i < rows.len()
        invariant
            i <= rows@.len(),
            all == indexed_views(rows@),
            row_with_id(all, id@, 0) == row_with_id(all, id@, i as int),
        decreases rows@.len() - i,
    {
        assert(all[i as int] == rows@[i as int]@);
        if same_text(rows[i].id.as_str(), id) {
            let record = match &rows[i].record {
                Some(r) => r,
                None => return None,
            };
            let keep = match filter {
                Some(f) => record.metadata.satisfies(f),
                None => true,
            };
            return if keep {
                Some(record.clone())
            } else {
                None
            };
        }
        i += 1;
    }
    None
}

/// The records that a search gives, from the points of the neighbours, nearest first.
pub fn select_matches(
    rows: &Vec<IndexedRow>,
    neighbors: &Vec<usize>,
    limit: usize,
    filter: Option<&Metadata>,
) -> (res: Vec<VectorStorageRecord>)
    ensures
        storage_views(res@) == matches_of(
            indexed_views(rows@),
            neighbors@,
            limit,
            filter_view(filter),
        ),
{
    let ghost views = indexed_views(rows@);
    let ghost f = filter_view(filter);
    let ghost all = matches_of(views, neighbors@, limit, f);
    let mut results: Vec<VectorStorageRecord> = Vec::new();
    let mut i: usize = 0;
    assert(storage_views(results@) =~= Seq::empty());
    while i < neighbors.len()
        invariant_except_break
            i <= neighbors@.len(),
            views == indexed_views(rows@),
            f == filter_view(filter),
            all == matches_from(
                views,
                neighbors@,
                limit,
                f,
                i as int,
                storage_views(results@),
            ),
        ensures
            all == storage_views(results@),
        decreases neighbors@.len() - i,
    {
        match id_at_point(rows, neighbors[i]) {
            Err(_) => {},
            Ok(id) => {
                let ghost before = storage_views(results@);
                match matching_record(rows, id.as_str(), filter) {
                    Some(record) => {
                        let ghost r = record@;
                        results.push(record);
                        assert(storage_views(results@) =~= before.push(r));
                    },
                    None => {},
                }
                if results.len() >= limit {
                    break;
                }
            },
        }
        i += 1;
    }
    results
}

} // verus!
