//! The interface of a vector store to the records of one kind.
use crate::hnsw::{HnswMessage, VectorDbError};
use crate::matching::filter_view;
use crate::metadata::Metadata;
use crate::records::{held_of, restored_of, StoredRecord};
use crate::sqlite_vectordb::{rows_records, SqliteVectorDB, StorageWrite, StoredRow};
use crate::stats::StoreStats;
use crate::text::views;
use vstd::prelude::*;

verus! {

/// A vector store as the records of the kind `T` see it.
pub trait VectorDatabase<T: StoredRecord> {
    /// The store can take records.
    spec fn ready(&self) -> bool;

    fn add_record(&self, record: T, index_ready: bool) -> (res: Result<StorageWrite, VectorDbError>)
        requires
            self.ready(),
    ;

    fn search_records(
        &self,
        query_embedding: &Vec<u32>,
        limit: usize,
        filter: Option<&Metadata>,
        neighbors: Option<Vec<usize>>,
        rows: &Vec<StoredRow>,
    ) -> (res: Result<Vec<T>, VectorDbError>)
        requires
            self.ready(),
    ;

    fn remove_record(&self, affected: usize) -> (res: bool);

    fn list_records(&self, rows: &Vec<StoredRow>) -> (res: Result<Vec<T>, VectorDbError>);

    fn clear(&self) -> (res: HnswMessage);

    fn stats(&self, metadata: &Vec<String>) -> (res: Result<StoreStats, VectorDbError>);
}

impl<T: StoredRecord> VectorDatabase<T> for SqliteVectorDB {
    open spec fn ready(&self) -> bool {
        self.wf()
    }

    fn add_record(&self, record: T, index_ready: bool) -> (res: Result<StorageWrite, VectorDbError>)
        ensures
            self.added(T::stored(record.held()), index_ready, res),
    {
        self.add_storage_record(record.store(), index_ready)
    }

    fn search_records(
        &self,
        query_embedding: &Vec<u32>,
        limit: usize,
        filter: Option<&Metadata>,
        neighbors: Option<Vec<usize>>,
        rows: &Vec<StoredRow>,
    ) -> (res: Result<Vec<T>, VectorDbError>)
        ensures
            match self.search_result(
                query_embedding@.len(),
                limit,
                filter_view(filter),
                neighbors,
                rows@,
            ) {
                Ok(records) => res matches Ok(found) && held_of::<T>(found@) == restored_of::<T>(
                    records,
                ),
                Err(e) => res == Err::<Vec<T>, _>(e),
            },
    {
        match self.search_storage_records(query_embedding, limit, filter, neighbors, rows) {
            Ok(records) => Ok(SqliteVectorDB::of_kind::<T>(records)),
            Err(e) => Err(e),
        }
    }

    fn remove_record(&self, affected: usize) -> (res: bool)
        ensures
            res == (affected > 0),
    {
        affected > 0
    }

    fn list_records(&self, rows: &Vec<StoredRow>) -> (res: Result<Vec<T>, VectorDbError>)
        ensures
            match rows_records(rows@) {
                Ok(records) => res matches Ok(found) && held_of::<T>(found@) == restored_of::<T>(
                    records,
                ),
                Err(e) => res matches Err(x) && x@ == e,
            },
    {
        match self.list_storage_records(rows) {
            Ok(records) => Ok(SqliteVectorDB::of_kind::<T>(records)),
            Err(e) => Err(e),
        }
    }

    fn clear(&self) -> (res: HnswMessage)
        ensures
            res == (HnswMessage::Initialize {
                dimension: self.dimension,
                max_elements: self.max_elements,
            }),
    {
        HnswMessage::Initialize { dimension: self.dimension, max_elements: self.max_elements }
    }

    fn stats(&self, metadata: &Vec<String>) -> (res: Result<StoreStats, VectorDbError>)
        ensures
            self.stats_are(views(metadata@), res),
    {
        SqliteVectorDB::stats(self, metadata)
    }
}

} // verus!
