//! What holds of the store's operations: what is written and read back, what is listed, loaded and
//! counted, and what the index is asked to do.
use crate::codec::{blob_embedding, blob_error_of, embedding_blob, farmhash64};
use crate::hnsw::{
    hash_to_point_id, loaded_points, point_views, DbErrorView, HnswAction, HnswActor, HnswMessage,
    StoredEmbedding, VectorDbError,
};
use crate::json::json_strings_of;
use crate::matching::{storage_views, IndexedRow};
use crate::metadata::Metadata;
use crate::record_laws::lemma_kind_in_order;
use crate::records::{
    held_of, restored_of, StorageView, StoredRecord, ToolRecord, VectorStorageRecord,
};
use crate::search_laws::{in_order, is_in, lemma_remainder};
use crate::selector_laws::lemma_views;
use crate::sqlite_vectordb::{
    collect_records, collected, indexed_row, read_row, read_views, row_record, rows_records,
    SqliteVectorDB, StorageWrite, StoredRow,
};
use crate::stats::{count_of, counts_are, stat_views, types_of, StatValue, StoreStats};
use crate::text::{decimal_of, views};
use crate::tool_vectordb::{
    found_tool, indexed_views, SqliteAdapter, ToolRecord as IndexedTool,
};
use crate::vector_database::VectorDatabase;
use vstd::bytes::*;
use vstd::prelude::*;

verus! {

// ---------------------------------------------------------------------------------------------
// Errors
// ---------------------------------------------------------------------------------------------
/// The message of an error says what went wrong, with the numbers and the reason that it holds.
pub proof fn lemma_message(e: &VectorDbError, res: String)
    requires
        call_ensures(VectorDbError::message, (e,), res),
    ensures
        e matches VectorDbError::DimensionMismatch { expected, got } ==> res@
            == "Dimension mismatch: expected "@ + decimal_of(expected as nat) + ", got "@
            + decimal_of(got as nat),
        e matches VectorDbError::QueryDimensionMismatch { expected, got } ==> res@
            == "Query dimension mismatch: expected "@ + decimal_of(expected as nat) + ", got "@
            + decimal_of(got as nat),
        e is NotInitialized ==> res@ == "HNSW index not initialized"@,
        e matches VectorDbError::NoRecord { point_id } ==> res@ == "No record found for point_id "@
            + decimal_of(point_id as nat),
        e matches VectorDbError::BadMetadata { reason } ==> res@ == "Failed to parse metadata: "@
            + reason@,
        e matches VectorDbError::BadColumn { column, blob, reason } ==> {
            &&& *blob ==> res@ == "Conversion error from type Blob at index: "@ + decimal_of(
                column as nat,
            ) + ", "@ + reason@
            &&& !*blob ==> res@ == "Conversion error from type Text at index: "@ + decimal_of(
                column as nat,
            ) + ", "@ + reason@
        },
{
}

// ---------------------------------------------------------------------------------------------
// Rows
// ---------------------------------------------------------------------------------------------
/// An embedding is kept as the number of its components in eight bytes and then four bytes for
/// every component.
pub proof fn lemma_blob_layout(e: Seq<u32>)
    requires
        e.len() <= u64::MAX,
    ensures
        embedding_blob(e).len() == 8 + 4 * e.len(),
        embedding_blob(e).subrange(0, 8) == spec_u64_to_le_bytes(e.len() as u64),
        forall|i: int|
            0 <= i < e.len() ==> embedding_blob(e).subrange(8 + 4 * i, 12 + 4 * i)
                == spec_u32_to_le_bytes(#[trigger] e[i]),
        blob_embedding(embedding_blob(e)) == Some(e),
{
    lemma_auto_spec_u64_to_from_le_bytes();
    lemma_auto_spec_u32_to_from_le_bytes();
    crate::codec::lemma_embedding_round_trip(e);
    let b = embedding_blob(e);
    assert(b.subrange(0, 8) =~= spec_u64_to_le_bytes(e.len() as u64));
    assert forall|i: int| 0 <= i < e.len() implies b.subrange(8 + 4 * i, 12 + 4 * i)
        == spec_u32_to_le_bytes(#[trigger] e[i]) by {
        let word = spec_u32_to_le_bytes(e[i]);
        let part = b.subrange(8 + 4 * i, 12 + 4 * i);
        assert forall|j: int| 0 <= j < 4 implies part[j] == word[j] by {
            assert((4 * i + j) / 4 == i && (4 * i + j) % 4 == j);
        }
        assert(part =~= word);
    }
}

/// The write is that of a record: the row holds all of it, and its embedding goes to the point of
/// its type and its content.
pub open spec fn writes(
    w: StorageWrite,
    id: Seq<char>,
    content: Seq<char>,
    embedding: Seq<u32>,
    metadata: Map<Seq<char>, Seq<char>>,
) -> bool {
    &&& w.row.id@ == id
    &&& w.row.content@ == content
    &&& w.row.embedding@.len() == 8 + 4 * embedding.len()
    &&& blob_embedding(w.row.embedding@) == Some(embedding)
    &&& json_strings_of(w.row.metadata@) == Ok::<_, Seq<char>>(metadata)
    &&& w.embedding@ == embedding
}

/// The point is what is left of the hash of the type, a colon and the content, when it is divided
/// by the size of the index.
pub open spec fn goes_to(
    point: usize,
    kind: Seq<char>,
    content: Seq<char>,
    max_elements: usize,
) -> bool {
    point as int == (farmhash64(vstd::utf8::encode_utf8(kind + ":"@ + content)) as int) % (
    max_elements as int)
}

proof fn lemma_goes_to(content: Seq<char>, kind: Seq<char>, max_elements: usize)
    requires
        max_elements > 0,
    ensures
        goes_to(crate::hnsw::point_of(content, kind, max_elements), kind, content, max_elements),
{
    lemma_remainder(farmhash64(vstd::utf8::encode_utf8(kind + ":"@ + content)), max_elements);
}

/// A record is written as a whole: its identifier, its content, its embedding and its metadata. It
/// is refused exactly where its embedding has another length than those of the store.
pub proof fn lemma_record_written(
    db: &SqliteVectorDB,
    record: VectorStorageRecord,
    index_ready: bool,
    res: Result<StorageWrite, VectorDbError>,
)
    requires
        call_ensures(SqliteVectorDB::add_storage_record, (db, record, index_ready), res),
        db.max_elements > 0,
    ensures
        res is Ok <==> record.embedding@.len() == db.dimension,
        res matches Ok(w) ==> {
            &&& writes(
                w,
                record.id@,
                record.content@,
                record.embedding@,
                record.metadata@,
            )
            &&& w.create_index == !index_ready
            &&& goes_to(
                w.point_id,
                if record.metadata@.dom().contains("record_type"@) {
                    record.metadata@["record_type"@]
                } else {
                    "unknown"@
                },
                record.content@,
                db.max_elements,
            )
        },
        res matches Err(e) ==> e == (VectorDbError::DimensionMismatch {
            expected: db.dimension,
            got: record.embedding@.len() as usize,
        }),
{
    if res is Ok {
        lemma_blob_layout(record.embedding@);
        lemma_goes_to(record.content@, crate::records::type_in(record.metadata@), db.max_elements);
    }
}

/// A tool is written as a whole: with its description as the content, and its name and its type
/// in the metadata.
pub proof fn lemma_tool_written(
    db: &SqliteVectorDB,
    tool: ToolRecord,
    index_ready: bool,
    res: Result<StorageWrite, VectorDbError>,
)
    requires
        call_ensures(SqliteVectorDB::add_tool, (db, tool, index_ready), res),
        db.max_elements > 0,
    ensures
        res is Ok <==> tool.embedding@.len() == db.dimension,
        res matches Ok(w) ==> {
            &&& writes(
                w,
                tool.id@,
                tool.description@,
                tool.embedding@,
                tool.metadata@.insert("name"@, tool.name@).insert("record_type"@, "tool"@),
            )
            &&& w.create_index == !index_ready
            &&& goes_to(w.point_id, "tool"@, tool.description@, db.max_elements)
        },
{
    if res is Ok {
        lemma_blob_layout(tool.embedding@);
        lemma_goes_to(tool.description@, "tool"@, db.max_elements);
    }
}

/// A row is read as the record that it holds. It cannot be read if its embedding cannot, or else
/// its metadata; the error names that column.
pub proof fn lemma_row_read(row: &StoredRow, res: Result<VectorStorageRecord, VectorDbError>)
    requires
        call_ensures(read_row, (row,), res),
    ensures
        res is Ok <==> blob_embedding(row.embedding@) is Some && json_strings_of(row.metadata@)
            is Ok,
        res matches Ok(r) ==> {
            &&& r.id@ == row.id@
            &&& r.content@ == row.content@
            &&& blob_embedding(row.embedding@) == Some(r.embedding@)
            &&& json_strings_of(row.metadata@) == Ok::<_, Seq<char>>(r.metadata@)
        },
        res matches Err(e) ==> e matches VectorDbError::BadColumn { column, blob, reason } && {
            &&& blob_embedding(row.embedding@) is None ==> column == 2 && blob && reason@
                == blob_error_of(row.embedding@, usize::MAX)
            &&& blob_embedding(row.embedding@) is Some ==> column == 3 && !blob && json_strings_of(
                row.metadata@,
            ) == Err::<Map<Seq<char>, Seq<char>>, _>(reason@)
        },
{
}

/// What is collected are all records in order, if all of them could be read; else the first error.
pub proof fn lemma_collected_in_order(records: Seq<Result<StorageView, DbErrorView>>)
    ensures
        collected(records) is Ok <==> forall|i: int|
            0 <= i < records.len() ==> (#[trigger] records[i]) is Ok,
        collected(records) matches Ok(all) ==> {
            &&& all.len() == records.len()
            &&& forall|i: int|
                0 <= i < records.len() ==> #[trigger] records[i] == Ok::<_, DbErrorView>(all[i])
        },
        collected(records) matches Err(e) ==> exists|i: int|
            {
                &&& 0 <= i < records.len()
                &&& #[trigger] records[i] == Err::<StorageView, _>(e)
                &&& forall|j: int| 0 <= j < i ==> (#[trigger] records[j]) is Ok
            },
    decreases records.len(),
{
    if records.len() > 0 {
        let rest = records.drop_last();
        let n = rest.len() as int;
        lemma_collected_in_order(rest);
        assert forall|i: int| 0 <= i < n implies rest[i] == #[trigger] records[i] by {}
        match collected(rest) {
            Err(e) => {
                let i = choose|i: int|
                    {
                        &&& 0 <= i < rest.len()
                        &&& #[trigger] rest[i] == Err::<StorageView, _>(e)
                        &&& forall|j: int| 0 <= j < i ==> (#[trigger] rest[j]) is Ok
                    };
                assert(records[i] == Err::<StorageView, _>(e));
                assert forall|j: int| 0 <= j < i implies (#[trigger] records[j]) is Ok by {
                    assert(rest[j] is Ok);
                }
            },
            Ok(before) => {
                assert forall|i: int| 0 <= i < n implies #[trigger] records[i] == Ok::<
                    _,
                    DbErrorView,
                >(before[i]) by {
                    assert(rest[i] == Ok::<_, DbErrorView>(before[i]));
                }
                match records[n] {
                    Err(e) => {
                        assert(records[n] == Err::<StorageView, _>(e));
                    },
                    Ok(r) => {
                        assert(collected(records) == Ok::<_, DbErrorView>(before.push(r)));
                    },
                }
            },
        }
    }
}

/// Records that were read one by one are all kept, in order, or else the first error is.
pub proof fn lemma_records_collected(
    read: Vec<Result<VectorStorageRecord, VectorDbError>>,
    res: Result<Vec<VectorStorageRecord>, VectorDbError>,
)
    requires
        call_ensures(collect_records, (read,), res),
    ensures
        res is Ok <==> forall|i: int| 0 <= i < read@.len() ==> (#[trigger] read@[i]) is Ok,
        res matches Ok(records) ==> {
            &&& records@.len() == read@.len()
            &&& forall|i: int|
                0 <= i < read@.len() ==> (#[trigger] records@[i])@ == read@[i]->Ok_0@
        },
        res matches Err(e) ==> exists|i: int|
            {
                &&& 0 <= i < read@.len()
                &&& (#[trigger] read@[i]) is Err
                &&& read@[i]->Err_0@ == e@
                &&& forall|j: int| 0 <= j < i ==> (#[trigger] read@[j]) is Ok
            },
{
    let seen = read_views(read@);
    lemma_collected_in_order(seen);
    assert(seen.len() == read@.len());
    assert forall|i: int| 0 <= i < read@.len() implies (#[trigger] read@[i] is Ok <==> seen[i]
        is Ok) by {}
    match res {
        Ok(records) => {
            assert(storage_views(records@).len() == records@.len());
            assert forall|i: int| 0 <= i < read@.len() implies (#[trigger] records@[i])@
                == read@[i]->Ok_0@ && read@[i] is Ok by {
                assert(storage_views(records@)[i] == records@[i]@);
                assert(seen[i] == Ok::<_, DbErrorView>(records@[i]@));
            }
            assert forall|i: int| 0 <= i < read@.len() implies (#[trigger] read@[i]) is Ok by {
                assert(records@[i]@ == read@[i]->Ok_0@);
            }
        },
        Err(e) => {
            let i = choose|i: int|
                {
                    &&& 0 <= i < seen.len()
                    &&& #[trigger] seen[i] == Err::<StorageView, _>(e@)
                    &&& forall|j: int| 0 <= j < i ==> (#[trigger] seen[j]) is Ok
                };
            assert(read@[i] is Err);
            assert forall|j: int| 0 <= j < i implies (#[trigger] read@[j]) is Ok by {
                assert(seen[j] is Ok);
            }
        },
    }
}

/// The row can be read: its embedding, and its metadata.
pub open spec fn is_readable(row: StoredRow) -> bool {
    blob_embedding(row.embedding@) is Some && json_strings_of(row.metadata@) is Ok
}

/// What the rows hold, if all of them can be read, is one record for each row, in order.
pub proof fn lemma_records_of_rows(rows: Seq<StoredRow>)
    ensures
        rows_records(rows) is Ok <==> forall|i: int|
            0 <= i < rows.len() ==> is_readable(#[trigger] rows[i]),
        rows_records(rows) matches Ok(records) ==> {
            &&& records.len() == rows.len()
            &&& forall|i: int| 0 <= i < rows.len() ==> is_in(#[trigger] records[i], rows[i])
        },
{
    let read = Seq::new(rows.len(), |i: int| row_record(rows[i]));
    lemma_collected_in_order(read);
    assert forall|i: int| 0 <= i < rows.len() implies (is_readable(#[trigger] rows[i]) <==> read[i]
        is Ok) by {}
    if rows_records(rows) is Ok {
        let records = rows_records(rows)->Ok_0;
        assert forall|i: int| 0 <= i < rows.len() implies is_readable(#[trigger] rows[i]) by {
            assert(read[i] is Ok);
        }
        assert forall|i: int| 0 <= i < rows.len() implies is_in(#[trigger] records[i], rows[i]) by {
            assert(read[i] == Ok::<_, DbErrorView>(records[i]));
        }
    } else if forall|i: int| 0 <= i < rows.len() ==> is_readable(#[trigger] rows[i]) {
        assert forall|i: int| 0 <= i < read.len() implies (#[trigger] read[i]) is Ok by {
            assert(is_readable(rows[i]));
        }
    }
}

/// Listing gives one record for each row, in order, with everything that the row holds. It fails
/// exactly where a row cannot be read.
pub proof fn lemma_listed(
    db: &SqliteVectorDB,
    rows: &Vec<StoredRow>,
    res: Result<Vec<VectorStorageRecord>, VectorDbError>,
)
    requires
        call_ensures(SqliteVectorDB::list_storage_records, (db, rows), res),
    ensures
        res is Ok <==> forall|i: int| 0 <= i < rows@.len() ==> is_readable(#[trigger] rows@[i]),
        res matches Ok(records) ==> {
            &&& records@.len() == rows@.len()
            &&& forall|i: int| 0 <= i < rows@.len() ==> is_in((#[trigger] records@[i])@, rows@[i])
        },
        res matches Err(e) ==> exists|i: int|
            {
                &&& 0 <= i < rows@.len()
                &&& !is_readable(#[trigger] rows@[i])
                &&& row_record(rows@[i]) == Err::<StorageView, _>(e@)
                &&& forall|j: int| 0 <= j < i ==> is_readable(#[trigger] rows@[j])
            },
{
    lemma_records_of_rows(rows@);
    match res {
        Ok(records) => {
            let v = storage_views(records@);
            assert(v.len() == records@.len());
            assert forall|i: int| 0 <= i < rows@.len() implies is_in(
                (#[trigger] records@[i])@,
                rows@[i],
            ) by {
                assert(v[i] == records@[i]@);
                assert(is_in(v[i], rows@[i]));
            }
        },
        Err(e) => {
            let read = Seq::new(rows@.len(), |i: int| row_record(rows@[i]));
            lemma_collected_in_order(read);
            let i = choose|i: int|
                {
                    &&& 0 <= i < read.len()
                    &&& #[trigger] read[i] == Err::<StorageView, _>(e@)
                    &&& forall|j: int| 0 <= j < i ==> (#[trigger] read[j]) is Ok
                };
            assert(!is_readable(rows@[i]));
            assert forall|j: int| 0 <= j < i implies is_readable(#[trigger] rows@[j]) by {
                assert(read[j] is Ok);
            }
        },
    }
}

/// The tools are those of the records at the places: all records of the type `tool`, in order,
/// each with its name, its description and its embedding.
pub open spec fn are_tools_of(
    tools: Seq<ToolRecord>,
    records: Seq<VectorStorageRecord>,
    places: Seq<int>,
) -> bool {
    &&& in_order(places, records.len() as int)
    &&& places.len() == tools.len()
    &&& forall|i: int|
        0 <= i < records.len() ==> (places.contains(i) <==> has_type(
            (#[trigger] records[i]).metadata@,
            "tool"@,
        ))
    &&& forall|k: int|
        0 <= k < tools.len() ==> {
            let t = #[trigger] tools[k];
            let r = records[places[k]];
            &&& t.id@ == r.id@
            &&& t.description@ == r.content@
            &&& t.embedding@ == r.embedding@
            &&& t.name@ == (if r.metadata@.dom().contains("name"@) {
                r.metadata@["name"@]
            } else {
                "unknown"@
            })
            &&& t.metadata@ == r.metadata@.remove("name"@).remove("record_type"@)
        }
}

/// The metadata names the type.
pub open spec fn has_type(metadata: Map<Seq<char>, Seq<char>>, kind: Seq<char>) -> bool {
    metadata.dom().contains("record_type"@) && metadata["record_type"@] == kind
}

proof fn lemma_tools_of(tools: Seq<ToolRecord>, records: Seq<VectorStorageRecord>) -> (places: Seq<
    int,
>)
    requires
        held_of(tools) == restored_of::<ToolRecord>(storage_views(records)),
    ensures
        are_tools_of(tools, records, places),
{
    let v = storage_views(records);
    let places = lemma_kind_in_order::<ToolRecord>(v);
    assert(v.len() == records.len());
    assert(held_of(tools).len() == tools.len());
    assert forall|i: int| 0 <= i < records.len() implies (places.contains(i) <==> has_type(
        (#[trigger] records[i]).metadata@,
        "tool"@,
    )) by {
        assert(v[i] == records[i]@);
        if places.contains(i) {
            let k = choose|k: int| 0 <= k < places.len() && places[k] == i;
            assert(v[places[k]].metadata.dom().contains("record_type"@));
        }
    }
    assert forall|k: int| 0 <= k < tools.len() implies {
        let t = #[trigger] tools[k];
        let r = records[places[k]];
        &&& t.id@ == r.id@
        &&& t.description@ == r.content@
        &&& t.embedding@ == r.embedding@
        &&& t.name@ == (if r.metadata@.dom().contains("name"@) {
            r.metadata@["name"@]
        } else {
            "unknown"@
        })
        &&& t.metadata@ == r.metadata@.remove("name"@).remove("record_type"@)
    } by {
        assert(held_of(tools)[k] == tools[k].held());
        assert(v[places[k]] == records[places[k]]@);
    }
    places
}

/// The tools of a table are all of its records of that type, in order.
pub proof fn lemma_tools_listed(
    db: &SqliteVectorDB,
    rows: &Vec<StoredRow>,
    records: Result<Vec<VectorStorageRecord>, VectorDbError>,
    res: Result<Vec<ToolRecord>, VectorDbError>,
) -> (places: Seq<int>)
    requires
        call_ensures(SqliteVectorDB::list_storage_records, (db, rows), records),
        call_ensures(SqliteVectorDB::list_tools, (db, rows), res),
    ensures
        res is Ok <==> records is Ok,
        res matches Err(e) ==> e@ == records->Err_0@,
        res matches Ok(tools) ==> are_tools_of(tools@, records->Ok_0@, places),
{
    if res is Ok {
        lemma_tools_of(res->Ok_0@, records->Ok_0@)
    } else {
        Seq::empty()
    }
}

/// The tools that a search finds are all records that it finds of that type, in order.
pub proof fn lemma_similar_tools(
    db: &SqliteVectorDB,
    query: &Vec<u32>,
    limit: usize,
    filter: Option<&Metadata>,
    neighbors: Option<Vec<usize>>,
    rows: &Vec<StoredRow>,
    records: Result<Vec<VectorStorageRecord>, VectorDbError>,
    res: Result<Vec<ToolRecord>, VectorDbError>,
) -> (places: Seq<int>)
    requires
        call_ensures(
            SqliteVectorDB::search_storage_records,
            (db, query, limit, filter, neighbors, rows),
            records,
        ),
        call_ensures(
            SqliteVectorDB::search_similar,
            (db, query, limit, filter, neighbors, rows),
            res,
        ),
    ensures
        res is Ok <==> records is Ok,
        res is Err ==> res->Err_0 == records->Err_0,
        res matches Ok(tools) ==> are_tools_of(tools@, records->Ok_0@, places),
{
    if res is Ok {
        lemma_tools_of(res->Ok_0@, records->Ok_0@)
    } else {
        Seq::empty()
    }
}

/// Searching in the tool store gives the tools that a search for the extension finds in the table,
/// all of them and in order, each with its name, its description, its schema, its embedding and
/// its extension.
pub proof fn lemma_tools_found(
    adapter: &SqliteAdapter,
    query: &Vec<u32>,
    k: usize,
    extension_name: Option<&str>,
    filter: Option<&Metadata>,
    neighbors: Option<Vec<usize>>,
    rows: &Vec<StoredRow>,
    tools: Result<Vec<ToolRecord>, VectorDbError>,
    res: Result<Vec<IndexedTool>, VectorDbError>,
)
    requires
        filter is Some <==> extension_name is Some,
        filter matches Some(f) ==> f@.dom() == set!["extension_name"@] && f@["extension_name"@]
            == extension_name->0@,
        call_ensures(
            SqliteVectorDB::search_similar,
            (&adapter.db, query, k, filter, neighbors, rows),
            tools,
        ),
        call_ensures(
            SqliteAdapter::search_tools,
            (adapter, query, k, extension_name, neighbors, rows),
            res,
        ),
    ensures
        res is Ok <==> tools is Ok,
        res is Err ==> res->Err_0 == tools->Err_0,
        res matches Ok(found) ==> {
            &&& found@.len() == tools->Ok_0@.len()
            &&& forall|i: int|
                0 <= i < found@.len() ==> {
                    let t = tools->Ok_0@[i];
                    let f = #[trigger] found@[i];
                    &&& f.tool_name@ == t.name@
                    &&& f.description@ == t.description@
                    &&& f.vector@ == t.embedding@
                    &&& f.schema@ == (if t.metadata@.dom().contains("schema"@) {
                        t.metadata@["schema"@]
                    } else {
                        ""@
                    })
                    &&& f.extension_name@ == (if t.metadata@.dom().contains("extension_name"@) {
                        t.metadata@["extension_name"@]
                    } else {
                        ""@
                    })
                }
        },
{
    let wanted = crate::tool_vectordb::extension_filter(extension_name);
    assert(crate::matching::filter_view(filter) == wanted) by {
        if filter is Some {
            assert(filter->0@ =~= wanted->0);
        }
    }
    reveal_strlit("");
    assert(""@ =~= Seq::<char>::empty());
    if res is Ok {
        let found = res->Ok_0@;
        let held = held_of(tools->Ok_0@);
        assert(held.len() == tools->Ok_0@.len());
        assert(indexed_views(found).len() == found.len());
        assert forall|i: int| 0 <= i < found.len() implies (#[trigger] found[i])@ == found_tool(
            tools->Ok_0@[i]@,
        ) by {
            assert(indexed_views(found)[i] == found[i]@);
            assert(held[i] == tools->Ok_0@[i].held());
        }
    }
}

/// A tool store starts with embeddings as long as those of its table, or 1536 components in an
/// empty one, and room for 10000.
pub proof fn lemma_tool_store(db_path: String, rows: &Vec<StoredRow>, res: SqliteAdapter)
    requires
        call_ensures(SqliteAdapter::new, (db_path, rows), res),
    ensures
        res.db.db_path@ == db_path@,
        res.db.max_elements == 10000,
        rows@.len() == 0 ==> res.db.dimension == 1536,
        rows@.len() > 0 ==> match blob_embedding(rows@[0].embedding@) {
            Some(e) => res.db.dimension == e.len(),
            None => res.db.dimension == 1536,
        },
{
}

/// A store has the path, the length and the size that it was made with; clearing it starts an
/// index of that length and size.
pub proof fn lemma_store_made(
    db_path: String,
    dimension: usize,
    max_elements: usize,
    db: SqliteVectorDB,
    message: HnswMessage,
    affected: usize,
    removed: bool,
)
    requires
        call_ensures(SqliteVectorDB::new, (db_path, dimension, max_elements), db),
        call_ensures(SqliteVectorDB::clear, (&db,), message),
        call_ensures(SqliteVectorDB::remove_record, (&db, affected), removed),
    ensures
        db.db_path@ == db_path@,
        db.dimension == dimension,
        db.max_elements == max_elements,
        message == (HnswMessage::Initialize { dimension, max_elements }),
        removed <==> affected >= 1,
{
}

/// The index is asked for as many neighbours as records are wanted, with the query as it is.
pub proof fn lemma_neighbors_asked(
    db: &SqliteVectorDB,
    query: &Vec<u32>,
    limit: usize,
    res: Result<HnswMessage, VectorDbError>,
)
    requires
        call_ensures(SqliteVectorDB::neighbor_query, (db, query, limit), res),
    ensures
        res is Ok <==> query@.len() == db.dimension,
        res matches Ok(message) ==> message matches HnswMessage::Search { query: q, k } && q@
            == query@ && k == limit,
        res matches Err(e) ==> e matches VectorDbError::QueryDimensionMismatch { expected, got }
            && expected == db.dimension,
{
}

/// Every kind of record is written in its stored form, and listed out of it.
pub proof fn lemma_kind_written<T: StoredRecord>(
    db: &SqliteVectorDB,
    record: T,
    index_ready: bool,
    res: Result<StorageWrite, VectorDbError>,
)
    requires
        call_ensures(<SqliteVectorDB as VectorDatabase<T>>::add_record, (db, record, index_ready), res),
    ensures
        ({
            let s = T::stored(record.held());
            &&& res is Ok <==> s.embedding.len() == db.dimension
            &&& res matches Ok(w) ==> w.row.id@ == s.id && w.row.content@ == s.content
                && w.embedding@ == s.embedding && json_strings_of(w.row.metadata@) == Ok::<
                _,
                Seq<char>,
            >(s.metadata)
        }),
{
}

/// Every kind of record is searched as the records of its type that a search of the table gives,
/// all of them and in order.
pub proof fn lemma_kind_searched<T: StoredRecord>(
    db: &SqliteVectorDB,
    query: &Vec<u32>,
    limit: usize,
    filter: Option<&Metadata>,
    neighbors: Option<Vec<usize>>,
    rows: &Vec<StoredRow>,
    records: Result<Vec<VectorStorageRecord>, VectorDbError>,
    res: Result<Vec<T>, VectorDbError>,
) -> (places: Seq<int>)
    requires
        call_ensures(
            SqliteVectorDB::search_storage_records,
            (db, query, limit, filter, neighbors, rows),
            records,
        ),
        call_ensures(
            <SqliteVectorDB as VectorDatabase<T>>::search_records,
            (db, query, limit, filter, neighbors, rows),
            res,
        ),
    ensures
        res is Ok <==> records is Ok,
        res is Err ==> res->Err_0 == records->Err_0,
        res matches Ok(found) ==> are_of_kind(found@, records->Ok_0@, places),
{
    if res is Ok {
        lemma_of_kind(res->Ok_0@, records->Ok_0@)
    } else {
        Seq::empty()
    }
}

/// Every kind of record is listed as the records of its type in the table, all of them and in
/// order.
pub proof fn lemma_kind_listed<T: StoredRecord>(
    db: &SqliteVectorDB,
    rows: &Vec<StoredRow>,
    records: Result<Vec<VectorStorageRecord>, VectorDbError>,
    res: Result<Vec<T>, VectorDbError>,
) -> (places: Seq<int>)
    requires
        call_ensures(SqliteVectorDB::list_storage_records, (db, rows), records),
        call_ensures(<SqliteVectorDB as VectorDatabase<T>>::list_records, (db, rows), res),
    ensures
        res is Ok <==> records is Ok,
        res matches Err(e) ==> e@ == records->Err_0@,
        res matches Ok(found) ==> are_of_kind(found@, records->Ok_0@, places),
{
    if res is Ok {
        lemma_of_kind(res->Ok_0@, records->Ok_0@)
    } else {
        Seq::empty()
    }
}

/// What was found are the records of its type at the places: all of them, in order.
pub open spec fn are_of_kind<T: StoredRecord>(
    found: Seq<T>,
    records: Seq<VectorStorageRecord>,
    places: Seq<int>,
) -> bool {
    &&& in_order(places, records.len() as int)
    &&& places.len() == found.len()
    &&& forall|i: int|
        0 <= i < records.len() ==> (places.contains(i) <==> has_type(
            (#[trigger] records[i]).metadata@,
            T::kind(),
        ))
    &&& forall|k: int|
        0 <= k < found.len() ==> (#[trigger] found[k]).held() == T::restored(records[places[k]]@)
}

proof fn lemma_of_kind<T: StoredRecord>(found: Seq<T>, records: Seq<VectorStorageRecord>) -> (places:
    Seq<int>)
    requires
        held_of(found) == restored_of::<T>(storage_views(records)),
    ensures
        are_of_kind(found, records, places),
{
    let v = storage_views(records);
    let places = lemma_kind_in_order::<T>(v);
    assert(v.len() == records.len());
    assert(held_of(found).len() == found.len());
    assert forall|i: int| 0 <= i < records.len() implies (places.contains(i) <==> has_type(
        (#[trigger] records[i]).metadata@,
        T::kind(),
    )) by {
        assert(v[i] == records[i]@);
        if places.contains(i) {
            let k = choose|k: int| 0 <= k < places.len() && places[k] == i;
            assert(v[places[k]].metadata.dom().contains("record_type"@));
        }
    }
    assert forall|k: int| 0 <= k < found.len() implies (#[trigger] found[k]).held() == T::restored(
        records[places[k]]@,
    ) by {
        assert(held_of(found)[k] == found[k].held());
        assert(v[places[k]] == records[places[k]]@);
    }
    places
}

/// A search sees every row, in order: its identifier, its point, which is that of its type and its
/// content, and its record, as far as they can be read.
pub proof fn lemma_rows_seen(db: &SqliteVectorDB, rows: &Vec<StoredRow>, res: Vec<IndexedRow>)
    requires
        call_ensures(SqliteVectorDB::index_rows, (db, rows), res),
        db.max_elements > 0,
    ensures
        res@.len() == rows@.len(),
        forall|i: int|
            0 <= i < rows@.len() ==> {
                let seen = #[trigger] res@[i];
                &&& seen.id@ == rows@[i].id@
                &&& match json_strings_of(rows@[i].metadata@) {
                    Ok(m) => seen.point is Ok && goes_to(
                        seen.point->Ok_0,
                        if m.dom().contains("record_type"@) {
                            m["record_type"@]
                        } else {
                            "unknown"@
                        },
                        rows@[i].content@,
                        db.max_elements,
                    ),
                    Err(reason) => seen.point is Err && seen.point->Err_0@ == reason,
                }
                &&& seen.record is Some <==> is_readable(rows@[i])
                &&& seen.record matches Some(r) ==> is_in(r@, rows@[i])
            },
{
    let v = crate::matching::indexed_views(res@);
    assert(v.len() == res@.len());
    assert forall|i: int| 0 <= i < rows@.len() implies {
        let seen = #[trigger] res@[i];
        &&& seen.id@ == rows@[i].id@
        &&& match json_strings_of(rows@[i].metadata@) {
            Ok(m) => seen.point is Ok && goes_to(
                seen.point->Ok_0,
                if m.dom().contains("record_type"@) {
                    m["record_type"@]
                } else {
                    "unknown"@
                },
                rows@[i].content@,
                db.max_elements,
            ),
            Err(reason) => seen.point is Err && seen.point->Err_0@ == reason,
        }
        &&& seen.record is Some <==> is_readable(rows@[i])
        &&& seen.record matches Some(r) ==> is_in(r@, rows@[i])
    } by {
        assert(v[i] == res@[i]@);
        assert(v[i] == indexed_row(rows@[i], db.max_elements));
        match json_strings_of(rows@[i].metadata@) {
            Ok(m) => {
                lemma_goes_to(rows@[i].content@, crate::records::type_in(m), db.max_elements);
            },
            Err(_) => {},
        }
    }
}

// ---------------------------------------------------------------------------------------------
// Loading
// ---------------------------------------------------------------------------------------------
/// Every row is loaded, in order, with its content, its type and its embedding; `unknown` is the
/// type of one whose metadata cannot be read. It fails exactly where an embedding cannot be read.
pub proof fn lemma_loaded(
    db: &SqliteVectorDB,
    rows: &Vec<StoredRow>,
    res: Result<Vec<StoredEmbedding>, VectorDbError>,
)
    requires
        call_ensures(SqliteVectorDB::load_index, (db, rows), res),
    ensures
        res is Ok <==> forall|i: int|
            0 <= i < rows@.len() ==> blob_embedding((#[trigger] rows@[i]).embedding@) is Some,
        res matches Ok(loaded) ==> {
            &&& loaded@.len() == rows@.len()
            &&& forall|i: int|
                0 <= i < rows@.len() ==> {
                    let l = #[trigger] loaded@[i];
                    &&& l.content@ == rows@[i].content@
                    &&& blob_embedding(rows@[i].embedding@) == Some(l.embedding@)
                    &&& match json_strings_of(rows@[i].metadata@) {
                        Ok(m) => l.record_type@ == (if m.dom().contains("record_type"@) {
                            m["record_type"@]
                        } else {
                            "unknown"@
                        }),
                        Err(_) => l.record_type@ == "unknown"@,
                    }
                }
        },
        res matches Err(e) ==> e matches VectorDbError::BadColumn { column, blob, reason } && column
            == 1 && blob,
{
    if res is Ok {
        let loaded = res->Ok_0@;
        assert forall|i: int| 0 <= i < rows@.len() implies blob_embedding(
            (#[trigger] rows@[i]).embedding@,
        ) is Some by {
            assert(crate::sqlite_vectordb::loads_row(rows@[i], loaded[i]));
        }
    }
}

/// The points that are loaded are those of the embeddings of the right length: all of them, in
/// order, each at the point of its type and its content.
pub proof fn lemma_points_in_order(
    embeddings: Seq<StoredEmbedding>,
    dimension: usize,
    max_elements: usize,
) -> (places: Seq<int>)
    ensures
        in_order(places, embeddings.len() as int),
        places.len() == loaded_points(embeddings, dimension, max_elements).len(),
        forall|i: int|
            0 <= i < embeddings.len() ==> (places.contains(i) <==> (
            #[trigger] embeddings[i]).embedding@.len() == dimension),
        forall|k: int|
            0 <= k < places.len() ==> {
                let e = embeddings[#[trigger] places[k]];
                loaded_points(embeddings, dimension, max_elements)[k] == (
                    crate::hnsw::point_of(e.content@, e.record_type@, max_elements),
                    e.embedding@,
                )
            },
    decreases embeddings.len(),
{
    if embeddings.len() == 0 {
        Seq::empty()
    } else {
        let rest = embeddings.drop_last();
        let n = rest.len() as int;
        let before = lemma_points_in_order(rest, dimension, max_elements);
        assert forall|i: int| 0 <= i < n implies rest[i] == #[trigger] embeddings[i] by {}
        let fits = embeddings[n].embedding@.len() == dimension;
        let places = if fits {
            before.push(n)
        } else {
            before
        };
        let all = loaded_points(embeddings, dimension, max_elements);
        assert forall|k: int| 0 <= k < places.len() implies {
            let e = embeddings[#[trigger] places[k]];
            all[k] == (
                crate::hnsw::point_of(e.content@, e.record_type@, max_elements),
                e.embedding@,
            )
        } by {
            if k < before.len() {
                assert(places[k] == before[k]);
                assert(rest[before[k]] == embeddings[before[k]]);
            }
        }
        assert forall|i: int| 0 <= i < embeddings.len() implies (places.contains(i) <==> (
        #[trigger] embeddings[i]).embedding@.len() == dimension) by {
            if i < n {
                assert(rest[i] == embeddings[i]);
                if before.contains(i) {
                    let k = choose|k: int| 0 <= k < before.len() && before[k] == i;
                    assert(places[k] == i);
                }
                if places.contains(i) {
                    let k = choose|k: int| 0 <= k < places.len() && places[k] == i;
                    assert(before[k] == i);
                }
            } else {
                if fits {
                    assert(places[before.len() as int] == i);
                } else if places.contains(i) {
                    let k = choose|k: int| 0 <= k < places.len() && places[k] == i;
                    assert(before[k] < n);
                }
            }
        }
        places
    }
}

/// Loading puts every embedding of the right length into the index, in order and as it is, at the
/// point at which it would be written.
pub proof fn lemma_index_loaded(
    actor: &HnswActor,
    embeddings: Vec<StoredEmbedding>,
    res: Result<HnswAction, VectorDbError>,
) -> (places: Seq<int>)
    requires
        call_ensures(HnswActor::handle_load_from_db, (actor, embeddings), res),
        actor.max_elements > 0,
    ensures
        !actor.initialized ==> res is Err && res->Err_0 is NotInitialized,
        actor.initialized ==> {
            &&& res is Ok
            &&& res->Ok_0 matches HnswAction::Insert { points }
            &&& in_order(places, embeddings@.len() as int)
            &&& places.len() == points@.len()
            &&& forall|i: int|
                0 <= i < embeddings@.len() ==> (places.contains(i) <==> (
                #[trigger] embeddings@[i]).embedding@.len() == actor.dimension)
            &&& forall|k: int|
                0 <= k < points@.len() ==> {
                    let e = embeddings@[places[k]];
                    let p = #[trigger] points@[k];
                    &&& p.embedding@ == e.embedding@
                    &&& goes_to(p.point_id, e.record_type@, e.content@, actor.max_elements)
                }
        },
{
    if actor.initialized {
        let points = res->Ok_0->points@;
        let places = lemma_points_in_order(embeddings@, actor.dimension, actor.max_elements);
        let v = point_views(points);
        assert(v.len() == points.len());
        assert forall|k: int| 0 <= k < points.len() implies {
            let e = embeddings@[places[k]];
            let p = #[trigger] points[k];
            &&& p.embedding@ == e.embedding@
            &&& goes_to(p.point_id, e.record_type@, e.content@, actor.max_elements)
        } by {
            assert(v[k] == (points[k].point_id, points[k].embedding@));
            let e = embeddings@[places[k]];
            lemma_goes_to(e.content@, e.record_type@, actor.max_elements);
        }
        places
    } else {
        Seq::empty()
    }
}

/// An embedding goes to its point as it is, and a query is searched for as it is; both are refused
/// without an index, and where their length is not that of the index.
pub proof fn lemma_index_requests(
    actor: &HnswActor,
    vector: Vec<u32>,
    point_id: usize,
    k: usize,
    inserted: Result<HnswAction, VectorDbError>,
    searched: Result<HnswAction, VectorDbError>,
)
    requires
        call_ensures(HnswActor::handle_insert, (actor, vector, point_id), inserted),
        call_ensures(HnswActor::handle_search, (actor, vector, k), searched),
    ensures
        inserted is Ok <==> actor.initialized && vector@.len() == actor.dimension,
        searched is Ok <==> actor.initialized && vector@.len() == actor.dimension,
        !actor.initialized ==> inserted->Err_0 is NotInitialized && searched->Err_0
            is NotInitialized,
        actor.initialized && vector@.len() != actor.dimension ==> {
            &&& inserted->Err_0 matches VectorDbError::DimensionMismatch { expected, got }
            &&& expected == actor.dimension && got == vector@.len()
        },
        actor.initialized && vector@.len() != actor.dimension ==> {
            &&& searched->Err_0 matches VectorDbError::QueryDimensionMismatch { expected, got }
            &&& expected == actor.dimension && got == vector@.len()
        },
        inserted matches Ok(action) ==> action matches HnswAction::Insert { points } && points@.len()
            == 1 && points@[0].point_id == point_id && points@[0].embedding@ == vector@,
        searched matches Ok(action) ==> action matches HnswAction::Search { query, k: n, ef } && query@
            == vector@ && n == k && ef == 200,
{
    assert(vector.len() == vector@.len());
    if inserted is Ok {
        let points = inserted->Ok_0->points@;
        assert(point_views(points).len() == points.len());
        assert(point_views(points)[0] == (points[0].point_id, points[0].embedding@));
    }
}

/// An owner starts without an index.
pub proof fn lemma_index_owner(dimension: usize, max_elements: usize, res: HnswActor)
    requires
        call_ensures(HnswActor::new, (dimension, max_elements), res),
    ensures
        !res.initialized,
        res.dimension == dimension,
        res.max_elements == max_elements,
        res.ef_construction == 200,
        res.m == 16,
{
}

/// The point of a hash is what is left of it when it is divided by the size of the index.
pub proof fn lemma_hash_point(hash: u64, max_elements: usize, res: usize)
    requires
        call_ensures(hash_to_point_id, (hash, max_elements), res),
        max_elements > 0,
    ensures
        res < max_elements,
        exists|q: int| hash == #[trigger] (q * max_elements) + res,
{
    let h = hash as int;
    let m = max_elements as int;
    let r = h % m;
    let q = h / m;
    assert(0 <= r < m && h == q * m + r) by (nonlinear_arith)
        requires
            m > 0,
            r == h % m,
            q == h / m,
    ;
    assert(hash == (q * max_elements) + res);
}

// ---------------------------------------------------------------------------------------------
// Statistics
// ---------------------------------------------------------------------------------------------
/// How often a type stands among types.
pub proof fn lemma_count(types: Seq<Seq<char>>, t: Seq<char>)
    ensures
        count_of(types, t) == types.to_multiset().count(t),
    decreases types.len(),
{
    types.to_multiset_ensures();
    if types.len() > 0 {
        let rest = types.drop_last();
        lemma_count(rest, t);
        rest.to_multiset_ensures();
        assert(types =~= rest.push(types.last()));
        assert(types.to_multiset() =~= rest.to_multiset().insert(types.last()));
    }
}

/// The statistics count every type that occurs, as often as it does, and no other; the tools are
/// those of the type `tool`; and every record counts.
pub proof fn lemma_types_counted(db: &SqliteVectorDB, types: Vec<String>, res: StoreStats)
    requires
        call_ensures(SqliteVectorDB::count_types, (db, types), res),
    ensures
        res.total_records == types@.len(),
        res.dimension == db.dimension,
        res.db_path@ == db.db_path@,
        counted(views(types@), res),
{
    lemma_views(types@);
    lemma_counted(views(types@), res);
}

/// The counts are those of the types.
pub open spec fn counted(types: Seq<Seq<char>>, stats: StoreStats) -> bool {
    &&& stats.total_tools == types.to_multiset().count("tool"@)
    &&& forall|i: int|
        0 <= i < stats.type_counts@.len() ==> {
            let (kind, n) = ((#[trigger] stats.type_counts@[i]).0@, stats.type_counts@[i].1);
            n == types.to_multiset().count(kind) && n > 0
        }
    &&& forall|i: int, j: int|
        0 <= i < j < stats.type_counts@.len() ==> (#[trigger] stats.type_counts@[i]).0@ != (
        #[trigger] stats.type_counts@[j]).0@
    &&& forall|t: int|
        0 <= t < types.len() ==> has_count(stats, #[trigger] types[t])
}

/// The type has a count.
pub open spec fn has_count(stats: StoreStats, kind: Seq<char>) -> bool {
    exists|i: int|
        0 <= i < stats.type_counts@.len() && (#[trigger] stats.type_counts@[i]).0@ == kind
}

proof fn lemma_counted(types: Seq<Seq<char>>, stats: StoreStats)
    requires
        stats.total_tools == count_of(types, "tool"@),
        counts_are(stats.type_counts@, types),
    ensures
        counted(types, stats),
{
    lemma_count(types, "tool"@);
    assert forall|i: int| 0 <= i < stats.type_counts@.len() implies {
        let (kind, n) = ((#[trigger] stats.type_counts@[i]).0@, stats.type_counts@[i].1);
        n == types.to_multiset().count(kind) && n > 0
    } by {
        lemma_count(types, stats.type_counts@[i].0@);
    }
    types.to_multiset_ensures();
    assert forall|t: int| 0 <= t < types.len() implies has_count(stats, #[trigger] types[t]) by {
        lemma_count(types, types[t]);
        assert(types.contains(types[t]));
        assert(types.to_multiset().contains(types[t]));
    }
}

/// The types of a column of metadata are those of its rows, in order; `unknown` is the type of
/// metadata that names none.
pub proof fn lemma_types_in_order(metadata: Seq<Seq<char>>)
    ensures
        types_of(metadata) is Ok <==> forall|i: int|
            0 <= i < metadata.len() ==> json_strings_of(#[trigger] metadata[i]) is Ok,
        types_of(metadata) matches Ok(types) ==> {
            &&& types.len() == metadata.len()
            &&& forall|i: int|
                0 <= i < metadata.len() ==> #[trigger] types[i] == {
                    let m = json_strings_of(metadata[i])->Ok_0;
                    if m.dom().contains("record_type"@) {
                        m["record_type"@]
                    } else {
                        "unknown"@
                    }
                }
        },
        types_of(metadata) matches Err(e) ==> e matches DbErrorView::BadColumn { column, blob, reason }
            && column == 0 && !blob,
    decreases metadata.len(),
{
    if metadata.len() > 0 {
        let rest = metadata.drop_last();
        let n = rest.len() as int;
        lemma_types_in_order(rest);
        assert forall|i: int| 0 <= i < n implies rest[i] == #[trigger] metadata[i] by {}
        if types_of(metadata) is Ok {
            assert forall|i: int| 0 <= i < metadata.len() implies json_strings_of(
                #[trigger] metadata[i],
            ) is Ok by {
                if i < n {
                    assert(json_strings_of(rest[i]) is Ok);
                }
            }
        }
        if forall|i: int| 0 <= i < metadata.len() ==> json_strings_of(#[trigger] metadata[i])
            is Ok {
            assert forall|i: int| 0 <= i < n implies json_strings_of(#[trigger] rest[i])
                is Ok by {
                assert(json_strings_of(metadata[i]) is Ok);
            }
            assert(json_strings_of(metadata[n]) is Ok);
        }
    }
}

/// The statistics of a store count the types of all its rows. They fail exactly where metadata
/// cannot be read.
pub proof fn lemma_store_counted(
    db: &SqliteVectorDB,
    metadata: &Vec<String>,
    res: Result<StoreStats, VectorDbError>,
) -> (types: Seq<Seq<char>>)
    requires
        call_ensures(SqliteVectorDB::stats, (db, metadata), res),
    ensures
        res is Ok <==> forall|i: int|
            0 <= i < metadata@.len() ==> json_strings_of((#[trigger] metadata@[i])@) is Ok,
        res matches Ok(stats) ==> {
            &&& stats.total_records == metadata@.len()
            &&& stats.dimension == db.dimension
            &&& stats.db_path@ == db.db_path@
            &&& types.len() == metadata@.len()
            &&& counted(types, stats)
            &&& forall|i: int|
                0 <= i < metadata@.len() ==> #[trigger] types[i] == {
                    let m = json_strings_of(metadata@[i]@)->Ok_0;
                    if m.dom().contains("record_type"@) {
                        m["record_type"@]
                    } else {
                        "unknown"@
                    }
                }
        },
{
    let column = views(metadata@);
    lemma_views(metadata@);
    lemma_types_in_order(column);
    if res is Ok {
        let types = types_of(column)->Ok_0;
        lemma_counted(types, res->Ok_0);
        assert forall|i: int| 0 <= i < metadata@.len() implies json_strings_of(
            (#[trigger] metadata@[i])@,
        ) is Ok by {
            assert(json_strings_of(column[i]) is Ok);
        }
        types
    } else {
        if forall|i: int| 0 <= i < metadata@.len() ==> json_strings_of((#[trigger] metadata@[i])@)
            is Ok {
            assert forall|i: int| 0 <= i < column.len() implies json_strings_of(
                #[trigger] column[i],
            ) is Ok by {
                assert(json_strings_of(metadata@[i]@) is Ok);
            }
        }
        Seq::empty()
    }
}

/// The statistics are shown under their names: the totals first, and then the count of every type.
pub proof fn lemma_stats_named(stats: &StoreStats, res: Vec<(String, StatValue)>)
    requires
        call_ensures(StoreStats::entries, (stats,), res),
    ensures
        res@.len() == 4 + stats.type_counts@.len(),
        res@[0].0@ == "total_records"@ && (res@[0].1 matches StatValue::Number(n) && n
            == stats.total_records as u64),
        res@[1].0@ == "dimension"@ && (res@[1].1 matches StatValue::Number(n) && n
            == stats.dimension as u64),
        res@[2].0@ == "db_path"@ && (res@[2].1 matches StatValue::Text(t) && t@ == stats.db_path@),
        res@[3].0@ == "total_tools"@ && (res@[3].1 matches StatValue::Number(n) && n
            == stats.total_tools),
        forall|i: int|
            0 <= i < stats.type_counts@.len() ==> {
                let (kind, n) = #[trigger] stats.type_counts@[i];
                res@[4 + i].0@ == kind@ + "_count"@ && (res@[4 + i].1 matches StatValue::Number(m)
                    && m == n)
            },
{
    let v = stat_views(res@);
    assert(v.len() == res@.len());
    assert forall|i: int| 0 <= i < res@.len() implies v[i] == ((#[trigger] res@[i]).0@, res@[i].1@) by {}
    assert(v[0] == (res@[0].0@, res@[0].1@));
    assert(v[1] == (res@[1].0@, res@[1].1@));
    assert(v[2] == (res@[2].0@, res@[2].1@));
    assert(v[3] == (res@[3].0@, res@[3].1@));
    assert forall|i: int| 0 <= i < stats.type_counts@.len() implies {
        let (kind, n) = #[trigger] stats.type_counts@[i];
        res@[4 + i].0@ == kind@ + "_count"@ && (res@[4 + i].1 matches StatValue::Number(m) && m
            == n)
    } by {
        assert(v[4 + i] == (res@[4 + i].0@, res@[4 + i].1@));
        assert(v[4 + i] == stats.named()[4 + i]);
    }
}

} // verus!
