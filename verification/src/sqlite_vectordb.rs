//! The vector store: the rows that keep its records, and what adding, searching, listing and
//! loading mean. Reading and writing the rows is left to the caller.
use crate::codec::{
    blob_embedding, blob_error_of, decode_embedding, embedding_blob, encode_embedding,
    lemma_embedding_round_trip,
};
use crate::hnsw::{
    content_to_point_id, hash_to_point_id, point_of, DbErrorView, HnswMessage,
    StoredEmbedding, VectorDbError,
};
use crate::json::{json_strings_of, strings_from_json, strings_to_json};
use crate::matching::{
    filter_view, id_at_point, indexed_views, matches_of, record_at, select_matches, storage_views,
    IndexedRow, IndexedView,
};
use crate::metadata::Metadata;
use crate::records::{
    has_record_type, held_of, record_type, restored_of, tool_stored, type_in, StorageView,
    StoredRecord, ToolRecord, VectorStorageRecord,
};
use crate::stats::{
    count_of, count_one, counts_are, lemma_types_of_error, types_of, StoreStats,
};
use crate::text::{same_text, views};
use std::collections::hash_map::DefaultHasher;
use std::hash::Hasher;
use vstd::prelude::*;

verus! {

/// The version of the table layout.
pub const CURRENT_SCHEMA_VERSION: u32 = 1;

// ---------------------------------------------------------------------------------------------
// Rows
// ---------------------------------------------------------------------------------------------
/// A row of the table: the record's identifier and content, its embedding as bytes and its
/// metadata as JSON text.
#[derive(Debug, Clone)]
pub struct StoredRow {
    pub id: String,
    pub content: String,
    pub embedding: Vec<u8>,
    pub metadata: String,
}

/// `row` keeps the record `r`.
pub open spec fn row_keeps(row: StoredRow, r: StorageView) -> bool {
    &&& row.id@ == r.id
    &&& row.content@ == r.content
    &&& row.embedding@ == embedding_blob(r.embedding)
    &&& json_strings_of(row.metadata@) == Ok::<_, Seq<char>>(r.metadata)
}

/// The record in a row, or the column that cannot be read and why.
pub open spec fn row_record(row: StoredRow) -> Result<StorageView, DbErrorView> {
    match (blob_embedding(row.embedding@), json_strings_of(row.metadata@)) {
        (None, _) => Err(
            DbErrorView::BadColumn {
                column: 2,
                blob: true,
                reason: blob_error_of(row.embedding@, usize::MAX),
            },
        ),
        (Some(_), Err(reason)) => Err(DbErrorView::BadColumn { column: 3, blob: false, reason }),
        (Some(embedding), Ok(metadata)) => Ok(
            StorageView { id: row.id@, content: row.content@, embedding, metadata },
        ),
    }
}

/// A record is read back from its row as it was written.
pub proof fn lemma_row_round_trip(row: StoredRow, r: StorageView)
    requires
        row_keeps(row, r),
        r.embedding.len() <= u64::MAX,
    ensures
        row_record(row) == Ok::<_, DbErrorView>(r),
{
    lemma_embedding_round_trip(r.embedding);
}

/// Reads the record in a row.
pub fn read_row(row: &StoredRow) -> (res: Result<VectorStorageRecord, VectorDbError>)
    ensures
        match res {
            Ok(r) => row_record(*row) == Ok::<_, DbErrorView>(r@),
            Err(e) => row_record(*row) == Err::<StorageView, _>(e@),
        },
{
    let embedding = match decode_embedding(&row.embedding) {
        Ok(e) => e,
        Err(reason) => return Err(VectorDbError::BadColumn { column: 2, blob: true, reason }),
    };
    let metadata = match strings_from_json(row.metadata.as_str()) {
        Ok(entries) => Metadata::from_entries(entries),
        Err(reason) => return Err(VectorDbError::BadColumn { column: 3, blob: false, reason }),
    };
    Ok(
        VectorStorageRecord {
            id: row.id.clone(),
            content: row.content.clone(),
            embedding,
            metadata,
        },
    )
}

/// The records, in order, up to the first one that could not be read, which gives the error.
pub open spec fn collected(records: Seq<Result<StorageView, DbErrorView>>) -> Result<
    Seq<StorageView>,
    DbErrorView,
>
    decreases records.len(),
{
    if records.len() == 0 {
        Ok(Seq::empty())
    } else {
        match collected(records.drop_last()) {
            Err(e) => Err(e),
            Ok(before) => match records.last() {
                Err(e) => Err(e),
                Ok(r) => Ok(before.push(r)),
            },
        }
    }
}

/// The records in the rows, in order, up to the first row that cannot be read, which gives the
/// error.
pub open spec fn rows_records(rows: Seq<StoredRow>) -> Result<Seq<StorageView>, DbErrorView> {
    collected(Seq::new(rows.len(), |i: int| row_record(rows[i])))
}

/// Results of reading records, by their views.
pub open spec fn read_views(
    records: Seq<Result<VectorStorageRecord, VectorDbError>>,
) -> Seq<Result<StorageView, DbErrorView>> {
    Seq::new(
        records.len(),
        |i: int|
            match records[i] {
                Ok(r) => Ok(r@),
                Err(e) => Err(e@),
            },
    )
}

proof fn lemma_collected_error(
    records: Seq<Result<StorageView, DbErrorView>>,
    i: int,
    e: DbErrorView,
)
    requires
        0 <= i <= records.len(),
        collected(records.take(i)) == Err::<Seq<StorageView>, _>(e),
    ensures
        collected(records) == Err::<Seq<StorageView>, _>(e),
    decreases records.len() - i,
{
    if i < records.len() {
        assert(records.take(i + 1).drop_last() =~= records.take(i));
        lemma_collected_error(records, i + 1, e);
    } else {
        assert(records.take(i) =~= records);
    }
}

/// The records, in order, or the first error among them.
pub fn collect_records(read: Vec<Result<VectorStorageRecord, VectorDbError>>) -> (res: Result<
    Vec<VectorStorageRecord>,
    VectorDbError,
>)
    ensures
        match res {
            Ok(records) => collected(read_views(read@)) == Ok::<_, DbErrorView>(
                storage_views(records@),
            ),
            Err(e) => collected(read_views(read@)) == Err::<Seq<StorageView>, _>(e@),
        },
{
    let ghost all = read_views(read@);
    let mut records: Vec<VectorStorageRecord> = Vec::new();
    assert(all.take(0) =~= Seq::empty());
    assert(storage_views(records@) =~= Seq::empty());
    for result in it: read
        invariant
            it.seq() == read@,
            all == read_views(read@),
            collected(all.take(it.index() as int)) == Ok::<_, DbErrorView>(
                storage_views(records@),
            ),
    {
        let ghost k = it.index() as int;
        let ghost before = storage_views(records@);
        assert(all.take(k + 1).drop_last() =~= all.take(k));
        match result {
            Ok(record) => {
                let ghost r = record@;
                records.push(record);
                assert(storage_views(records@) =~= before.push(r));
            },
            Err(e) => {
                proof {
                    lemma_collected_error(all, k + 1, e@);
                }
                return Err(e);
            },
        }
    }
    assert(all.take(all.len() as int) =~= all);
    Ok(records)
}

/// What a search sees of a row, in an index of the given size.
pub open spec fn indexed_row(row: StoredRow, max_elements: usize) -> IndexedView {
    IndexedView {
        id: row.id@,
        point: match json_strings_of(row.metadata@) {
            Ok(m) => Ok(point_of(row.content@, type_in(m), max_elements)),
            Err(reason) => Err(reason),
        },
        record: match row_record(row) {
            Ok(r) => Some(r),
            Err(_) => None,
        },
    }
}

/// What a search sees of the rows.
pub open spec fn indexed_rows(rows: Seq<StoredRow>, max_elements: usize) -> Seq<IndexedView> {
    Seq::new(rows.len(), |i: int| indexed_row(rows[i], max_elements))
}

// ---------------------------------------------------------------------------------------------
// The store
// ---------------------------------------------------------------------------------------------
/// The store: where its table lies, the length of its embeddings, and the size of its index.
#[derive(Debug)]
pub struct SqliteVectorDB {
    pub db_path: String,
    pub dimension: usize,
    pub max_elements: usize,
}

/// What adding a record means: the row to write, whether the index has to be created first, and
/// where in the index the embedding goes.
#[derive(Debug)]
pub struct StorageWrite {
    pub row: StoredRow,
    pub create_index: bool,
    pub point_id: usize,
    pub embedding: Vec<u32>,
}

impl Clone for SqliteVectorDB {
    fn clone(&self) -> (res: Self)
        ensures
            res == *self,
    {
        SqliteVectorDB {
            db_path: self.db_path.clone(),
            dimension: self.dimension,
            max_elements: self.max_elements,
        }
    }
}

impl SqliteVectorDB {
    /// The store is usable: its index has room.
    pub open spec fn wf(&self) -> bool {
        self.max_elements > 0
    }

    /// What adding the record `r` comes to.
    pub open spec fn added(
        &self,
        r: StorageView,
        index_ready: bool,
        res: Result<StorageWrite, VectorDbError>,
    ) -> bool {
        match res {
            Ok(w) => {
                &&& r.embedding.len() == self.dimension
                &&& row_keeps(w.row, r)
                &&& w.create_index == !index_ready
                &&& w.point_id == point_of(r.content, type_in(r.metadata), self.max_elements)
                &&& w.embedding@ == r.embedding
            },
            Err(e) => {
                &&& r.embedding.len() != self.dimension
                &&& e == VectorDbError::DimensionMismatch {
                    expected: self.dimension,
                    got: r.embedding.len() as usize,
                }
            },
        }
    }

    /// `stats` are the statistics of records with the given types.
    pub open spec fn stats_of(&self, types: Seq<Seq<char>>, stats: StoreStats) -> bool {
        &&& stats.total_records == types.len()
        &&& stats.dimension == self.dimension
        &&& stats.db_path@ == self.db_path@
        &&& stats.total_tools == count_of(types, "tool"@)
        &&& counts_are(stats.type_counts@, types)
    }

    /// What counting the records comes to, given the metadata column.
    pub open spec fn stats_are(
        &self,
        metadata: Seq<Seq<char>>,
        res: Result<StoreStats, VectorDbError>,
    ) -> bool {
        match res {
            Ok(stats) => types_of(metadata) matches Ok(types) && self.stats_of(types, stats),
            Err(e) => types_of(metadata) == Err::<Seq<Seq<char>>, _>(e@),
        }
    }

    /// What a search gives, once the query has been found to have the right length and the index
    /// has named the neighbours.
    pub open spec fn search_result(
        &self,
        query_len: nat,
        limit: usize,
        filter: Option<Map<Seq<char>, Seq<char>>>,
        neighbors: Option<Vec<usize>>,
        rows: Seq<StoredRow>,
    ) -> Result<Seq<StorageView>, VectorDbError> {
        if query_len != self.dimension {
            Err(
                VectorDbError::QueryDimensionMismatch {
                    expected: self.dimension,
                    got: query_len as usize,
                },
            )
        } else {
            match neighbors {
                None => Err(VectorDbError::NotInitialized),
                Some(n) => Ok(
                    matches_of(indexed_rows(rows, self.max_elements), n@, limit, filter),
                ),
            }
        }
    }

    /// A store of embeddings of the given length.
    pub fn new(db_path: String, dimension: usize, max_elements: usize) -> (res: Self)
        ensures
            res == (SqliteVectorDB { db_path, dimension, max_elements }),
    {
        SqliteVectorDB { db_path, dimension, max_elements }
    }

    /// Adds a record: the row to write and the point in the index. `index_ready` says whether
    /// there is an index. A record whose embedding has another length than the store's is
    /// refused.
    pub fn add_storage_record(&self, record: VectorStorageRecord, index_ready: bool) -> (res:
        Result<StorageWrite, VectorDbError>)
        requires
            self.wf(),
        ensures
            self.added(record@, index_ready, res),
    {
        if record.embedding.len() != self.dimension {
            return Err(
                VectorDbError::DimensionMismatch {
                    expected: self.dimension,
                    got: record.embedding.len(),
                },
            );
        }
        let blob = encode_embedding(&record.embedding);
        let json = strings_to_json(record.metadata.entries());
        let kind = record_type(&record.metadata);
        let point_id: usize = content_to_point_id(
            record.content.as_str(),
            kind.as_str(),
            self.max_elements,
        );
        Ok(
            StorageWrite {
                row: StoredRow {
                    id: record.id,
                    content: record.content,
                    embedding: blob,
                    metadata: json,
                },
                create_index: !index_ready,
                point_id,
                embedding: record.embedding,
            },
        )
    }

    /// What a search sees of the rows.
    pub fn index_rows(&self, rows: &Vec<StoredRow>) -> (res: Vec<IndexedRow>)
        requires
            self.wf(),
        ensures
            indexed_views(res@) == indexed_rows(rows@, self.max_elements),
    {
        let mut out: Vec<IndexedRow> = Vec::new();
        let mut i: usize = 0;
        while i < rows.len()
            invariant
                i <= rows@.len(),
                self.wf(),
                out@.len() == i,
                forall|j: int|
                    0 <= j < i ==> (#[trigger] out@[j])@ == indexed_row(
                        rows@[j],
                        self.max_elements,
                    ),
            decreases rows@.len() - i,
        {
            let row = &rows[i];
            let point = match strings_from_json(row.metadata.as_str()) {
                Ok(entries) => {
                    let kind = record_type(&Metadata::from_entries(entries));
                    Ok(content_to_point_id(row.content.as_str(), kind.as_str(), self.max_elements))
                },
                Err(reason) => Err(reason),
            };
            let record = match read_row(row) {
                Ok(r) => Some(r),
                Err(_) => None,
            };
            out.push(IndexedRow { id: row.id.clone(), point, record });
            i += 1;
        }
        assert(indexed_views(out@) =~= indexed_rows(rows@, self.max_elements));
        out
    }

    /// The identifier of the record whose content lies at a point of the index.
    pub fn point_id_to_record_id(&self, point_id: usize, rows: &Vec<StoredRow>) -> (res: Result<
        String,
        VectorDbError,
    >)
        requires
            self.wf(),
        ensures
            match record_at(indexed_rows(rows@, self.max_elements), point_id, 0) {
                Ok(id) => res matches Ok(text) && text@ == id,
                Err(e) => res matches Err(x) && x@ == e,
            },
    {
        let indexed = self.index_rows(rows);
        id_at_point(&indexed, point_id)
    }

    /// What the index is asked for a search: as many neighbours of the query as records are
    /// asked for. A query of another length than the store's embeddings is refused.
    pub fn neighbor_query(&self, query_embedding: &Vec<u32>, limit: usize) -> (res: Result<
        HnswMessage,
        VectorDbError,
    >)
        ensures
            match res {
                Ok(message) => {
                    &&& query_embedding@.len() == self.dimension
                    &&& message matches HnswMessage::Search { query, k }
                    &&& query@ == query_embedding@
                    &&& k == limit
                },
                Err(e) => {
                    &&& query_embedding@.len() != self.dimension
                    &&& e == VectorDbError::QueryDimensionMismatch {
                        expected: self.dimension,
                        got: query_embedding@.len() as usize,
                    }
                },
            },
    {
        if query_embedding.len() != self.dimension {
            return Err(
                VectorDbError::QueryDimensionMismatch {
                    expected: self.dimension,
                    got: query_embedding.len(),
                },
            );
        }
        let query = query_embedding.clone();
        assert(query@ =~= query_embedding@);
        Ok(HnswMessage::Search { query, k: limit })
    }

    /// Searches the records nearest to a query. `neighbors` are the points that the index names,
    /// nearest first; none where there is no index. `rows` are the rows of the table.
    pub fn search_storage_records(
        &self,
        query_embedding: &Vec<u32>,
        limit: usize,
        filter: Option<&Metadata>,
        neighbors: Option<Vec<usize>>,
        rows: &Vec<StoredRow>,
    ) -> (res: Result<Vec<VectorStorageRecord>, VectorDbError>)
        requires
            self.wf(),
        ensures
            match res {
                Ok(records) => self.search_result(
                    query_embedding@.len(),
                    limit,
                    filter_view(filter),
                    neighbors,
                    rows@,
                ) == Ok::<_, VectorDbError>(storage_views(records@)),
                Err(e) => self.search_result(
                    query_embedding@.len(),
                    limit,
                    filter_view(filter),
                    neighbors,
                    rows@,
                ) == Err::<Seq<StorageView>, _>(e),
            },
    {
        if query_embedding.len() != self.dimension {
            return Err(
                VectorDbError::QueryDimensionMismatch {
                    expected: self.dimension,
                    got: query_embedding.len(),
                },
            );
        }
        let points = match neighbors {
            Some(n) => n,
            None => return Err(VectorDbError::NotInitialized),
        };
        let indexed = self.index_rows(rows);
        Ok(select_matches(&indexed, &points, limit, filter))
    }

    /// Reads all records, in the order of the rows. The first row that cannot be read gives the
    /// error.
    pub fn list_storage_records(&self, rows: &Vec<StoredRow>) -> (res: Result<
        Vec<VectorStorageRecord>,
        VectorDbError,
    >)
        ensures
            match res {
                Ok(records) => rows_records(rows@) == Ok::<_, DbErrorView>(
                    storage_views(records@),
                ),
                Err(e) => rows_records(rows@) == Err::<Seq<StorageView>, _>(e@),
            },
    {
        let mut read: Vec<Result<VectorStorageRecord, VectorDbError>> = Vec::new();
        let mut i: usize = 0;
        while i < rows.len()
            invariant
                i <= rows@.len(),
                read@.len() == i,
                forall|j: int|
                    0 <= j < i ==> #[trigger] read_views(read@)[j] == row_record(rows@[j]),
            decreases rows@.len() - i,
        {
            let ghost before = read_views(read@);
            read.push(read_row(&rows[i]));
            assert forall|j: int| 0 <= j < i + 1 implies #[trigger] read_views(read@)[j]
                == row_record(rows@[j]) by {
                if j < i {
                    assert(read_views(read@)[j] == before[j]);
                }
            }
            i += 1;
        }
        assert(read_views(read@) =~= Seq::new(rows@.len(), |k: int| row_record(rows@[k])));
        collect_records(read)
    }

    /// The records of the kind `T`.
    pub(crate) fn of_kind<T: StoredRecord>(records: Vec<VectorStorageRecord>) -> (res: Vec<T>)
        ensures
            held_of::<T>(res@) == restored_of::<T>(storage_views(records@)),
    {
        let mut kept: Vec<T> = Vec::new();
        let ghost all = storage_views(records@);
        assert(all.take(0) =~= Seq::empty());
        assert(held_of::<T>(kept@) =~= restored_of::<T>(all.take(0)));
        for record in it: records
            invariant
                it.seq() == records@,
                all == storage_views(records@),
                held_of::<T>(kept@) == restored_of::<T>(all.take(it.index() as int)),
        {
            let ghost i = it.index() as int;
            let ghost before = held_of::<T>(kept@);
            assert(all.take(i + 1).drop_last() =~= all.take(i));
            if has_record_type(&record, T::kind_name()) {
                let ghost r = record@;
                let restored = T::restore(record);
                kept.push(restored);
                assert(held_of::<T>(kept@) =~= before.push(T::restored(r)));
            }
        }
        assert(all.take(all.len() as int) =~= all);
        kept
    }

    /// Adds a tool.
    pub fn add_tool(&self, tool: ToolRecord, index_ready: bool) -> (res: Result<
        StorageWrite,
        VectorDbError,
    >)
        requires
            self.wf(),
        ensures
            self.added(tool_stored(tool@), index_ready, res),
    {
        let record = VectorStorageRecord::from(tool);
        self.add_storage_record(record, index_ready)
    }

    /// Searches the tools nearest to a query: the records that a search gives, without those
    /// that are no tools.
    pub fn search_similar(
        &self,
        query_embedding: &Vec<u32>,
        limit: usize,
        filter: Option<&Metadata>,
        neighbors: Option<Vec<usize>>,
        rows: &Vec<StoredRow>,
    ) -> (res: Result<Vec<ToolRecord>, VectorDbError>)
        requires
            self.wf(),
        ensures
            match self.search_result(
                query_embedding@.len(),
                limit,
                filter_view(filter),
                neighbors,
                rows@,
            ) {
                Ok(records) => res matches Ok(tools) && held_of(tools@) == restored_of::<
                    ToolRecord,
                >(records),
                Err(e) => res == Err::<Vec<ToolRecord>, _>(e),
            },
    {
        match self.search_storage_records(query_embedding, limit, filter, neighbors, rows) {
            Ok(records) => Ok(Self::of_kind::<ToolRecord>(records)),
            Err(e) => Err(e),
        }
    }

    /// Reads all tools, in the order of the rows.
    pub fn list_tools(&self, rows: &Vec<StoredRow>) -> (res: Result<Vec<ToolRecord>, VectorDbError>)
        ensures
            match rows_records(rows@) {
                Ok(records) => res matches Ok(tools) && held_of(tools@) == restored_of::<
                    ToolRecord,
                >(records),
                Err(e) => res matches Err(x) && x@ == e,
            },
    {
        match self.list_storage_records(rows) {
            Ok(records) => Ok(Self::of_kind::<ToolRecord>(records)),
            Err(e) => Err(e),
        }
    }

    /// Whether a record was removed, given the number of rows that were deleted.
    pub fn remove_record(&self, affected: usize) -> (res: bool)
        ensures
            res == (affected > 0),
    {
        affected > 0
    }

    /// Whether a tool was removed, given the number of rows that were deleted.
    pub fn remove_tool(&self, affected: usize) -> (res: bool)
        ensures
            res == (affected > 0),
    {
        self.remove_record(affected)
    }

    /// What the index is told when all rows have been deleted: to start anew.
    pub fn clear(&self) -> (res: HnswMessage)
        ensures
            res == (HnswMessage::Initialize {
                dimension: self.dimension,
                max_elements: self.max_elements,
            }),
    {
        HnswMessage::Initialize { dimension: self.dimension, max_elements: self.max_elements }
    }

    /// The embeddings that go back into the index when the store is opened. The first row whose
    /// embedding cannot be read gives the error; one whose metadata cannot be read has the type
    /// `unknown`.
    pub fn load_index(&self, rows: &Vec<StoredRow>) -> (res: Result<
        Vec<StoredEmbedding>,
        VectorDbError,
    >)
        ensures
            match res {
                Ok(loaded) => {
                    &&& loaded@.len() == rows@.len()
                    &&& forall|i: int|
                        0 <= i < rows@.len() ==> loads_row(rows@[i], #[trigger] loaded@[i])
                },
                Err(e) => exists|i: int|
                    {
                        &&& 0 <= i < rows@.len()
                        &&& blob_embedding((#[trigger] rows@[i]).embedding@) is None
                        &&& e@ == (DbErrorView::BadColumn {
                            column: 1,
                            blob: true,
                            reason: blob_error_of(rows@[i].embedding@, usize::MAX),
                        })
                        &&& forall|j: int|
                            0 <= j < i ==> blob_embedding((#[trigger] rows@[j]).embedding@) is Some
                    },
            },
    {
        let mut loaded: Vec<StoredEmbedding> = Vec::new();
        let mut i: usize = 0;
        while i < rows.len()
            invariant
                i <= rows@.len(),
                loaded@.len() == i,
                forall|j: int| 0 <= j < i ==> loads_row(rows@[j], #[trigger] loaded@[j]),
            decreases rows@.len() - i,
        {
            let embedding = match decode_embedding(&rows[i].embedding) {
                Ok(e) => e,
                Err(reason) => {
                    assert(blob_embedding(rows@[i as int].embedding@) is None);
                    assert forall|j: int| 0 <= j < i implies blob_embedding(
                        (#[trigger] rows@[j]).embedding@,
                    ) is Some by {
                        assert(loads_row(rows@[j], loaded@[j]));
                    }
                    return Err(VectorDbError::BadColumn { column: 1, blob: true, reason });
                },
            };
            let kind = match strings_from_json(rows[i].metadata.as_str()) {
                Ok(entries) => record_type(&Metadata::from_entries(entries)),
                Err(_) => "unknown".to_owned(),
            };
            loaded.push(
                StoredEmbedding { content: rows[i].content.clone(), record_type: kind, embedding },
            );
            i += 1;
        }
        Ok(loaded)
    }

    /// Counts the records, in all and by their types. `metadata` is the metadata column.
    pub fn stats(&self, metadata: &Vec<String>) -> (res: Result<StoreStats, VectorDbError>)
        ensures
            self.stats_are(views(metadata@), res),
    {
        let n: usize = metadata.len();
        let mut types: Vec<String> = Vec::new();
        let mut i: usize = 0;
        let ghost all = views(metadata@);
        assert(all.take(0) =~= Seq::empty());
        assert(views(types@) =~= Seq::empty());
        while i < n
            invariant
                i <= n == metadata@.len(),
                all == views(metadata@),
                types_of(all.take(i as int)) == Ok::<_, DbErrorView>(views(types@)),
                types@.len() == i,
            decreases n - i,
        {
            let ghost before = views(types@);
            assert(all.take(i + 1).drop_last() =~= all.take(i as int));
            match strings_from_json(metadata[i].as_str()) {
                Ok(entries) => {
                    let kind = record_type(&Metadata::from_entries(entries));
                    let ghost k = kind@;
                    types.push(kind);
                    assert(views(types@) =~= before.push(k));
                },
                Err(reason) => {
                    let e = VectorDbError::BadColumn { column: 0, blob: false, reason };
                    proof {
                        lemma_types_of_error(all, i + 1, e@);
                    }
                    return Err(e);
                },
            }
            i += 1;
        }
        assert(all.take(n as int) =~= all);
        Ok(self.count_types(types))
    }

    /// The statistics of records with the given types.
    pub fn count_types(&self, types: Vec<String>) -> (res: StoreStats)
        ensures
            self.stats_of(views(types@), res),
    {
        let n: usize = types.len();
        let ghost all = views(types@);
        let mut counts: Vec<(String, u64)> = Vec::new();
        let mut total_tools: u64 = 0;
        assert(all.take(0) =~= Seq::empty());
        for kind in it: types
            invariant
                it.seq() == types@,
                all == views(types@),
                n == types@.len(),
                total_tools == count_of(all.take(it.index() as int), "tool"@),
                total_tools <= it.index(),
                counts_are(counts@, all.take(it.index() as int)),
        {
            let ghost k = it.index() as int;
            assert(all.take(k + 1).drop_last() =~= all.take(k));
            assert(all.take(k).push(kind@) =~= all.take(k + 1));
            if same_text(kind.as_str(), "tool") {
                total_tools = total_tools + 1;
            }
            count_one(&mut counts, kind, Ghost(all.take(k)));
        }
        assert(all.take(all.len() as int) =~= all);
        StoreStats {
            total_records: n,
            dimension: self.dimension,
            db_path: self.db_path.clone(),
            total_tools,
            type_counts: counts,
        }
    }

    /// Where a record identifier would lie in an index of this size, by the standard library's
    /// hash of it. What that hash is may differ between platforms and versions of the library, so
    /// nothing is said of the point but that it lies in the index.
    pub fn record_id_to_point_id(&self, record_id: &str) -> (res: usize)
        requires
            self.wf(),
        ensures
            res < self.max_elements,
    {
        let mut hasher = DefaultHasher::new();
        hash_text(record_id, &mut hasher);
        let hash: u64 = hasher.finish();
        hash_to_point_id(hash, self.max_elements)
    }
}

/// `<str as Hash>::hash` with the standard library's hasher. What it feeds to the hasher is not
/// portable, and nothing is claimed of it.
#[verifier::external_body]
fn hash_text(text: &str, hasher: &mut DefaultHasher) {
    std::hash::Hash::hash(text, hasher);
}

/// `loaded` holds the content, the record type and the embedding of a row.
pub open spec fn loads_row(row: StoredRow, loaded: StoredEmbedding) -> bool {
    &&& loaded.content@ == row.content@
    &&& loaded.record_type@ == (match json_strings_of(row.metadata@) {
        Ok(m) => type_in(m),
        Err(_) => "unknown"@,
    })
    &&& blob_embedding(row.embedding@) == Some(loaded.embedding@)
}

} // verus!
