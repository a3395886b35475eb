//! What holds of the records of each kind: what of them is stored, and what is made out of it.
use crate::document_vectordb::{
    document_stored, number_at, stored_document, DocumentRecord, DocumentView,
};
use crate::hnsw::DbErrorView;
use crate::message_vectordb::{
    integer_at, message_stored, stored_message, text_at, MessageRecord, MessageView,
};
use crate::metadata::{map_of, Metadata};
use crate::records::{
    is_of_type, record_type, restored_of, stored_tool, tool_stored, StorageView,
    StoredRecord, ToolRecord, ToolView, VectorRecord, VectorStorageRecord,
};
use crate::search_laws::in_order;
use crate::sqlite_vectordb::{rows_records, SqliteVectorDB, StorageWrite, StoredRow};
use crate::table_laws::{
    ascending, deleted, lemma_list_after_removal, lemma_list_after_write, lemma_records_left,
    put_row, records_without, row_ids, rows_without,
};
use crate::text::{
    decimal_of, digits_value, integer_text, integer_value, lemma_decimal_round_trip,
    lemma_integer_round_trip, views,
};
use crate::tool_vectordb::{
    adapted_dimension, extension_filter, found_tool, kept_tool, padded, table_id,
    IndexedToolView, LocalTime, SqliteAdapter,
};
use vstd::prelude::*;

verus! {

// ---------------------------------------------------------------------------------------------
// Metadata
// ---------------------------------------------------------------------------------------------
/// A list of entries stands for the map that has the keys of the entries, each with the value of
/// the last entry that has it.
pub proof fn lemma_entries_map(entries: Seq<(String, String)>, key: Seq<char>)
    ensures
        map_of(entries).dom().contains(key) <==> exists|i: int|
            0 <= i < entries.len() && (#[trigger] entries[i]).0@ == key,
        forall|i: int|
            0 <= i < entries.len() && (#[trigger] entries[i]).0@ == key && (forall|j: int|
                i < j < entries.len() ==> (#[trigger] entries[j]).0@ != key) ==> map_of(
                entries,
            )[key] == entries[i].1@,
    decreases entries.len(),
{
    if entries.len() > 0 {
        let rest = entries.drop_last();
        lemma_entries_map(rest, key);
        assert forall|i: int| 0 <= i < rest.len() implies rest[i] == #[trigger] entries[i] by {}
        if map_of(entries).dom().contains(key) {
            if entries.last().0@ == key {
                assert(entries[entries.len() - 1].0@ == key);
            } else {
                let i = choose|i: int| 0 <= i < rest.len() && (#[trigger] rest[i]).0@ == key;
                assert(entries[i].0@ == key);
            }
        }
        if exists|i: int| 0 <= i < entries.len() && (#[trigger] entries[i]).0@ == key {
            let i = choose|i: int| 0 <= i < entries.len() && (#[trigger] entries[i]).0@ == key;
            if i < rest.len() {
                assert(rest[i].0@ == key);
            }
        }
        assert forall|i: int|
            0 <= i < entries.len() && (#[trigger] entries[i]).0@ == key && (forall|j: int|
                i < j < entries.len() ==> (#[trigger] entries[j]).0@ != key) implies map_of(
            entries,
        )[key] == entries[i].1@ by {
            if i < rest.len() {
                assert(entries[entries.len() - 1].0@ != key);
                assert(rest[i].0@ == key);
                assert forall|j: int| i < j < rest.len() implies (#[trigger] rest[j]).0@ != key by {
                    assert(entries[j].0@ != key);
                }
            }
        }
    }
}

/// Metadata that is made of entries has the keys of the entries, each with its last value; what is
/// under a key, and whether all entries of other metadata are in it, is answered by what it has.
pub proof fn lemma_metadata(
    entries: Vec<(String, String)>,
    made: Metadata,
    metadata: &Metadata,
    key: &str,
    value: Option<&String>,
    filter: &Metadata,
    satisfied: bool,
    listed: &Vec<(String, String)>,
)
    requires
        call_ensures(Metadata::from_entries, (entries,), made),
        call_ensures(Metadata::get, (metadata, key), value),
        call_ensures(Metadata::satisfies, (metadata, filter), satisfied),
        call_ensures(Metadata::entries, (metadata,), listed),
    ensures
        made@.dom().contains(key@) <==> exists|i: int|
            0 <= i < entries@.len() && (#[trigger] entries@[i]).0@ == key@,
        forall|i: int|
            0 <= i < entries@.len() && (#[trigger] entries@[i]).0@ == key@ && (forall|j: int|
                i < j < entries@.len() ==> (#[trigger] entries@[j]).0@ != key@) ==> made@[key@]
                == entries@[i].1@,
        value is Some <==> metadata@.dom().contains(key@),
        value matches Some(v) ==> v@ == metadata@[key@],
        satisfied <==> forall|k: Seq<char>| #[trigger]
            filter@.dom().contains(k) ==> metadata@.dom().contains(k) && metadata@[k]
                == filter@[k],
        forall|i: int|
            0 <= i < listed@.len() ==> metadata@.dom().contains((#[trigger] listed@[i]).0@)
                && metadata@[listed@[i].0@] == listed@[i].1@,
        metadata@.dom().contains(key@) ==> exists|i: int|
            0 <= i < listed@.len() && (#[trigger] listed@[i]).0@ == key@,
{
    lemma_entries_map(entries@, key@);
    crate::metadata::lemma_distinct_entries(listed@);
    if satisfied {
        assert forall|k: Seq<char>| #[trigger] filter@.dom().contains(k) implies metadata@.dom().contains(
            k,
        ) && metadata@[k] == filter@[k] by {}
    }
}

/// The type of a record is what its metadata has under `record_type`, and `unknown` without it.
pub proof fn lemma_record_type(metadata: &Metadata, res: String)
    requires
        call_ensures(record_type, (metadata,), res),
    ensures
        metadata@.dom().contains("record_type"@) ==> res@ == metadata@["record_type"@],
        !metadata@.dom().contains("record_type"@) ==> res@ == "unknown"@,
{
}

// ---------------------------------------------------------------------------------------------
// Tools
// ---------------------------------------------------------------------------------------------
/// The stored form of a tool has its identifier, its description as the content, and its
/// embedding. Its metadata has the name and the type `tool`, and everything else that the tool's
/// metadata has, and no more.
pub proof fn lemma_tool_is_stored(tool: ToolRecord, res: VectorStorageRecord, key: Seq<char>)
    requires
        call_ensures(<ToolRecord as StoredRecord>::store, (tool,), res),
    ensures
        res.id@ == tool.id@,
        res.content@ == tool.description@,
        res.embedding@ == tool.embedding@,
        res.metadata@.dom().contains("name"@) && res.metadata@["name"@] == tool.name@,
        res.metadata@.dom().contains("record_type"@) && res.metadata@["record_type"@] == "tool"@,
        key != "name"@ && key != "record_type"@ ==> {
            &&& res.metadata@.dom().contains(key) <==> tool.metadata@.dom().contains(key)
            &&& res.metadata@.dom().contains(key) ==> res.metadata@[key] == tool.metadata@[key]
        },
{
    lemma_tool_stored_form(tool@, key);
    assert(res@ == tool_stored(tool@));
}

/// The stored form of a tool has its identifier, its description as the content, and its
/// embedding. Its metadata has the name and the type `tool`, and everything else that the tool's
/// metadata has, and no more.
pub proof fn lemma_tool_stored_form(tool: ToolView, key: Seq<char>)
    ensures
        ({
            let s = tool_stored(tool);
            &&& s.id == tool.id
            &&& s.content == tool.description
            &&& s.embedding == tool.embedding
            &&& s.metadata.dom().contains("name"@) && s.metadata["name"@] == tool.name
            &&& s.metadata.dom().contains("record_type"@) && s.metadata["record_type"@] == "tool"@
            &&& key != "name"@ && key != "record_type"@ ==> {
                &&& s.metadata.dom().contains(key) <==> tool.metadata.dom().contains(key)
                &&& s.metadata.dom().contains(key) ==> s.metadata[key] == tool.metadata[key]
            }
        }),
{
    reveal_strlit("name");
    reveal_strlit("record_type");
    assert("name"@.len() != "record_type"@.len());
}

/// The tool that a stored form stands for has its identifier, its content as the description, its
/// embedding, and the name in its metadata, or `unknown`. The other metadata is kept, but for the
/// type.
pub proof fn lemma_tool_restored(s: StorageView, key: Seq<char>)
    ensures
        ({
            let t = stored_tool(s);
            &&& t.id == s.id
            &&& t.description == s.content
            &&& t.embedding == s.embedding
            &&& s.metadata.dom().contains("name"@) ==> t.name == s.metadata["name"@]
            &&& !s.metadata.dom().contains("name"@) ==> t.name == "unknown"@
            &&& t.metadata.dom().contains(key) <==> s.metadata.dom().contains(key) && key
                != "name"@ && key != "record_type"@
            &&& t.metadata.dom().contains(key) ==> t.metadata[key] == s.metadata[key]
        }),
{
}

/// The records of a kind among stored records are those of its type, all of them, in order.
pub proof fn lemma_kind_in_order<T: StoredRecord>(records: Seq<StorageView>) -> (places: Seq<int>)
    ensures
        in_order(places, records.len() as int),
        places.len() == restored_of::<T>(records).len(),
        forall|k: int|
            0 <= k < places.len() ==> {
                let r = records[#[trigger] places[k]];
                &&& r.metadata.dom().contains("record_type"@)
                &&& r.metadata["record_type"@] == T::kind()
                &&& restored_of::<T>(records)[k] == T::restored(r)
            },
        forall|i: int|
            0 <= i < records.len() && (#[trigger] records[i]).metadata.dom().contains(
                "record_type"@,
            ) && records[i].metadata["record_type"@] == T::kind() ==> places.contains(i),
    decreases records.len(),
{
    if records.len() == 0 {
        Seq::empty()
    } else {
        let rest = records.drop_last();
        let n = rest.len() as int;
        let before = lemma_kind_in_order::<T>(rest);
        assert forall|i: int| 0 <= i < n implies rest[i] == #[trigger] records[i] by {}
        if is_of_type(records.last(), T::kind()) {
            let places = before.push(n);
            assert forall|k: int| 0 <= k < places.len() implies {
                let r = records[#[trigger] places[k]];
                &&& r.metadata.dom().contains("record_type"@)
                &&& r.metadata["record_type"@] == T::kind()
                &&& restored_of::<T>(records)[k] == T::restored(r)
            } by {
                if k < before.len() {
                    assert(places[k] == before[k]);
                    assert(rest[before[k]] == records[before[k]]);
                }
            }
            assert forall|i: int|
                0 <= i < records.len() && (#[trigger] records[i]).metadata.dom().contains(
                    "record_type"@,
                ) && records[i].metadata["record_type"@] == T::kind() implies places.contains(i) by {
                if i < n {
                    assert(rest[i] == records[i]);
                    let k = choose|k: int| 0 <= k < before.len() && before[k] == i;
                    assert(places[k] == i);
                } else {
                    assert(places[before.len() as int] == i);
                }
            }
            places
        } else {
            assert forall|k: int| 0 <= k < before.len() implies {
                let r = records[#[trigger] before[k]];
                &&& r.metadata.dom().contains("record_type"@)
                &&& r.metadata["record_type"@] == T::kind()
                &&& restored_of::<T>(records)[k] == T::restored(r)
            } by {
                assert(rest[before[k]] == records[before[k]]);
            }
            assert forall|i: int|
                0 <= i < records.len() && (#[trigger] records[i]).metadata.dom().contains(
                    "record_type"@,
                ) && records[i].metadata["record_type"@] == T::kind() implies before.contains(i) by {
                assert(rest[i] == records[i]);
            }
            before
        }
    }
}

/// The types of the kinds differ, so no record is of two kinds.
pub proof fn lemma_kinds_differ()
    ensures
        <ToolRecord as StoredRecord>::kind() == "tool"@,
        <MessageRecord as StoredRecord>::kind() == "message"@,
        <DocumentRecord as StoredRecord>::kind() == "document"@,
        "tool"@ != "message"@,
        "tool"@ != "document"@,
        "message"@ != "document"@,
{
    reveal_strlit("tool");
    reveal_strlit("message");
    reveal_strlit("document");
    assert("tool"@.len() == 4 && "message"@.len() == 7 && "document"@.len() == 8);
}

// ---------------------------------------------------------------------------------------------
// Messages
// ---------------------------------------------------------------------------------------------
/// What stands under a key: the text, or the empty text; the integer, or 0 where it is none or
/// does not fit into 64 bits.
pub proof fn lemma_values(metadata: Map<Seq<char>, Seq<char>>, key: Seq<char>, max: u64)
    ensures
        metadata.dom().contains(key) ==> text_at(metadata, key) == metadata[key],
        !metadata.dom().contains(key) ==> text_at(metadata, key).len() == 0,
        !metadata.dom().contains(key) ==> integer_at(metadata, key) == 0 && number_at(
            metadata,
            key,
            max,
        ) == 0,
        metadata.dom().contains(key) ==> match integer_value(metadata[key]) {
            Some(n) => integer_at(metadata, key) == (if -0x8000_0000_0000_0000 <= n
                <= 0x7fff_ffff_ffff_ffff {
                n
            } else {
                0
            }),
            None => integer_at(metadata, key) == 0,
        },
        metadata.dom().contains(key) ==> match digits_value(metadata[key]) {
            Some(n) => number_at(metadata, key, max) == (if n <= max {
                n
            } else {
                0
            }),
            None => number_at(metadata, key, max) == 0,
        },
{
    if !metadata.dom().contains(key) {
        assert(text_at(metadata, key) =~= Seq::empty());
    }
}

/// The stored form of a message has its identifier, its content and its embedding. Its metadata
/// has the session, the role, the time and the type `message`, and everything else that the
/// message's metadata has, and no more.
pub proof fn lemma_message_stored_form(m: MessageView, key: Seq<char>)
    ensures
        ({
            let s = message_stored(m);
            &&& s.id == m.message_id
            &&& s.content == m.content
            &&& s.embedding == m.embedding
            &&& s.metadata.dom().contains("session_id"@) && s.metadata["session_id"@]
                == m.session_id
            &&& s.metadata.dom().contains("role"@) && s.metadata["role"@] == m.role
            &&& s.metadata.dom().contains("timestamp"@) && integer_value(
                s.metadata["timestamp"@],
            ) == Some(m.timestamp as int)
            &&& s.metadata.dom().contains("record_type"@) && s.metadata["record_type"@]
                == "message"@
            &&& key != "session_id"@ && key != "role"@ && key != "timestamp"@ && key
                != "record_type"@ ==> {
                &&& s.metadata.dom().contains(key) <==> m.metadata.dom().contains(key)
                &&& s.metadata.dom().contains(key) ==> s.metadata[key] == m.metadata[key]
            }
        }),
{
    reveal_strlit("session_id");
    reveal_strlit("role");
    reveal_strlit("timestamp");
    reveal_strlit("record_type");
    assert("session_id"@.len() == 10 && "role"@.len() == 4 && "timestamp"@.len() == 9
        && "record_type"@.len() == 11);
    lemma_integer_round_trip(m.timestamp as int);
    assert(message_stored(m).metadata["timestamp"@] == integer_text(m.timestamp as int));
}

/// The message that a stored form stands for has its identifier, its content and its embedding,
/// and the session, the role and the time in its metadata. The other metadata is kept, but for
/// the type.
pub proof fn lemma_message_restored(s: StorageView, key: Seq<char>)
    ensures
        ({
            let m = stored_message(s);
            &&& m.message_id == s.id
            &&& m.content == s.content
            &&& m.embedding == s.embedding
            &&& m.session_id == text_at(s.metadata, "session_id"@)
            &&& m.role == text_at(s.metadata, "role"@)
            &&& m.timestamp == integer_at(s.metadata, "timestamp"@)
            &&& m.metadata.dom().contains(key) <==> s.metadata.dom().contains(key) && key
                != "session_id"@ && key != "role"@ && key != "timestamp"@ && key != "record_type"@
            &&& m.metadata.dom().contains(key) ==> m.metadata[key] == s.metadata[key]
        }),
{
}

// ---------------------------------------------------------------------------------------------
// Documents
// ---------------------------------------------------------------------------------------------
/// The key is one that the store uses for a chunk of a document.
pub open spec fn is_document_key(key: Seq<char>) -> bool {
    ||| key == "file_path"@
    ||| key == "title"@
    ||| key == "content_type"@
    ||| key == "chunk_index"@
    ||| key == "total_chunks"@
    ||| key == "file_size"@
    ||| key == "last_modified"@
    ||| key == "record_type"@
}

/// The stored form of a chunk has its document's identifier, its content and its embedding. Its
/// metadata has the other parts of the chunk and the type `document`, and everything else that
/// the chunk's metadata has, and no more.
pub proof fn lemma_document_stored_form(d: DocumentView, key: Seq<char>)
    ensures
        ({
            let s = document_stored(d);
            let m = s.metadata;
            &&& s.id == d.document_id
            &&& s.content == d.content
            &&& s.embedding == d.embedding
            &&& m.dom().contains("file_path"@) && m["file_path"@] == d.file_path
            &&& m.dom().contains("title"@) && m["title"@] == d.title
            &&& m.dom().contains("content_type"@) && m["content_type"@] == d.content_type
            &&& m.dom().contains("chunk_index"@) && digits_value(m["chunk_index"@]) == Some(
                d.chunk_index as nat,
            )
            &&& m.dom().contains("total_chunks"@) && digits_value(m["total_chunks"@]) == Some(
                d.total_chunks as nat,
            )
            &&& m.dom().contains("file_size"@) && digits_value(m["file_size"@]) == Some(
                d.file_size as nat,
            )
            &&& m.dom().contains("last_modified"@) && integer_value(m["last_modified"@]) == Some(
                d.last_modified as int,
            )
            &&& m.dom().contains("record_type"@) && m["record_type"@] == "document"@
            &&& !is_document_key(key) ==> {
                &&& m.dom().contains(key) <==> d.metadata.dom().contains(key)
                &&& m.dom().contains(key) ==> m[key] == d.metadata[key]
            }
        }),
{
    reveal_strlit("file_path");
    reveal_strlit("title");
    reveal_strlit("content_type");
    reveal_strlit("chunk_index");
    reveal_strlit("total_chunks");
    reveal_strlit("file_size");
    reveal_strlit("last_modified");
    reveal_strlit("record_type");
    assert("file_path"@.len() == 9 && "file_path"@[5] == 'p');
    assert("title"@.len() == 5);
    assert("content_type"@.len() == 12 && "content_type"@[0] == 'c');
    assert("chunk_index"@.len() == 11 && "chunk_index"@[0] == 'c');
    assert("total_chunks"@.len() == 12 && "total_chunks"@[0] == 't');
    assert("file_size"@.len() == 9 && "file_size"@[5] == 's');
    assert("last_modified"@.len() == 13);
    assert("record_type"@.len() == 11 && "record_type"@[0] == 'r');
    lemma_decimal_round_trip(d.chunk_index as nat);
    lemma_decimal_round_trip(d.total_chunks as nat);
    lemma_decimal_round_trip(d.file_size as nat);
    lemma_integer_round_trip(d.last_modified as int);
    let m = document_stored(d).metadata;
    assert(m["chunk_index"@] == decimal_of(d.chunk_index as nat));
    assert(m["total_chunks"@] == decimal_of(d.total_chunks as nat));
    assert(m["file_size"@] == decimal_of(d.file_size as nat));
    assert(m["last_modified"@] == integer_text(d.last_modified as int));
}

/// The chunk that a stored form stands for has its identifier, its content and its embedding, and
/// the other parts from its metadata. The rest of the metadata is kept.
pub proof fn lemma_document_restored(s: StorageView, key: Seq<char>)
    ensures
        ({
            let d = stored_document(s);
            &&& d.document_id == s.id
            &&& d.content == s.content
            &&& d.embedding == s.embedding
            &&& d.file_path == text_at(s.metadata, "file_path"@)
            &&& d.title == text_at(s.metadata, "title"@)
            &&& d.content_type == text_at(s.metadata, "content_type"@)
            &&& d.chunk_index == number_at(s.metadata, "chunk_index"@, usize::MAX as u64)
            &&& d.total_chunks == number_at(s.metadata, "total_chunks"@, usize::MAX as u64)
            &&& d.file_size == number_at(s.metadata, "file_size"@, u64::MAX)
            &&& d.last_modified == integer_at(s.metadata, "last_modified"@)
            &&& d.metadata.dom().contains(key) <==> s.metadata.dom().contains(key)
                && !is_document_key(key)
            &&& d.metadata.dom().contains(key) ==> d.metadata[key] == s.metadata[key]
        }),
{
}

/// A message and a chunk of a document are stored as their stored forms say.
pub proof fn lemma_other_kinds_are_stored(
    message: MessageRecord,
    message_res: VectorStorageRecord,
    document: DocumentRecord,
    document_res: VectorStorageRecord,
)
    requires
        call_ensures(<MessageRecord as StoredRecord>::store, (message,), message_res),
        call_ensures(<DocumentRecord as StoredRecord>::store, (document,), document_res),
    ensures
        message_res.id@ == message.message_id@,
        message_res.content@ == message.content@,
        message_res.embedding@ == message.embedding@,
        message_res.metadata@.dom().contains("session_id"@) && message_res.metadata@["session_id"@]
            == message.session_id@,
        document_res.id@ == document.document_id@,
        document_res.content@ == document.content@,
        document_res.embedding@ == document.embedding@,
        document_res.metadata@.dom().contains("file_path"@) && document_res.metadata@["file_path"@]
            == document.file_path@,
{
    lemma_message_stored_form(message@, "role"@);
    lemma_document_stored_form(document@, "title"@);
    assert(message_res@ == message_stored(message@));
    assert(document_res@ == document_stored(document@));
}

/// What is made out of a stored form has all that it holds.
pub proof fn lemma_kinds_are_restored(
    record: VectorStorageRecord,
    tool: ToolRecord,
    message: MessageRecord,
    document: DocumentRecord,
)
    requires
        call_ensures(<ToolRecord as StoredRecord>::restore, (record,), tool),
        call_ensures(<MessageRecord as StoredRecord>::restore, (record,), message),
        call_ensures(<DocumentRecord as StoredRecord>::restore, (record,), document),
    ensures
        tool.id@ == record.id@,
        tool.description@ == record.content@,
        tool.embedding@ == record.embedding@,
        record.metadata@.dom().contains("name"@) ==> tool.name@ == record.metadata@["name"@],
        !record.metadata@.dom().contains("name"@) ==> tool.name@ == "unknown"@,
        message.message_id@ == record.id@,
        message.content@ == record.content@,
        message.embedding@ == record.embedding@,
        message.session_id@ == text_at(record.metadata@, "session_id"@),
        message.role@ == text_at(record.metadata@, "role"@),
        message.timestamp == integer_at(record.metadata@, "timestamp"@),
        document.document_id@ == record.id@,
        document.content@ == record.content@,
        document.embedding@ == record.embedding@,
        document.file_path@ == text_at(record.metadata@, "file_path"@),
        document.title@ == text_at(record.metadata@, "title"@),
        document.content_type@ == text_at(record.metadata@, "content_type"@),
        document.chunk_index == number_at(record.metadata@, "chunk_index"@, usize::MAX as u64),
        document.total_chunks == number_at(record.metadata@, "total_chunks"@, usize::MAX as u64),
        document.file_size == number_at(record.metadata@, "file_size"@, u64::MAX),
        document.last_modified == integer_at(record.metadata@, "last_modified"@),
{
    let s = record@;
    lemma_tool_restored(s, "name"@);
    lemma_message_restored(s, "role"@);
    lemma_document_restored(s, "title"@);
    assert(tool@ == stored_tool(s));
    assert(message@ == stored_message(s));
    assert(document@ == stored_document(s));
}

/// Every record shows its own identifier, embedding and metadata.
pub proof fn lemma_records_show(
    tool: &ToolRecord,
    id: &str,
    embedding: &Vec<u32>,
    metadata: Metadata,
    record: &VectorStorageRecord,
    record_id: &str,
    record_embedding: &Vec<u32>,
    record_metadata: Metadata,
)
    requires
        call_ensures(<ToolRecord as VectorRecord>::id, (tool,), id),
        call_ensures(<ToolRecord as VectorRecord>::embedding, (tool,), embedding),
        call_ensures(<ToolRecord as VectorRecord>::metadata, (tool,), metadata),
        call_ensures(<VectorStorageRecord as VectorRecord>::id, (record,), record_id),
        call_ensures(<VectorStorageRecord as VectorRecord>::embedding, (record,), record_embedding),
        call_ensures(<VectorStorageRecord as VectorRecord>::metadata, (record,), record_metadata),
    ensures
        id@ == tool.id@,
        embedding@ == tool.embedding@,
        metadata@ == tool.metadata@,
        record_id@ == record.id@,
        record_embedding@ == record.embedding@,
        record_metadata@ == record.metadata@,
{
}

// ---------------------------------------------------------------------------------------------
// The tool store
// ---------------------------------------------------------------------------------------------
/// The row that is written for a tool has the tool's name as its identifier and the description
/// as its content. Its metadata has the name, the schema, the extension and the type, and nothing
/// else.
pub proof fn lemma_tool_row(
    db: SqliteVectorDB,
    tool: IndexedToolView,
    index_ready: bool,
    write: StorageWrite,
)
    requires
        db.added(tool_stored(kept_tool(tool)), index_ready, Ok(write)),
    ensures
        write.row.id@ == tool.tool_name,
        write.row.content@ == tool.description,
        crate::codec::blob_embedding(write.row.embedding@) == Some(tool.vector),
        write.embedding@ == tool.vector,
        ({
            &&& crate::json::json_strings_of(write.row.metadata@) matches Ok(m)
            &&& m.dom() =~= set!["name"@, "schema"@, "extension_name"@, "record_type"@]
            &&& m["name"@] == tool.tool_name
            &&& m["schema"@] == tool.schema
            &&& m["extension_name"@] == tool.extension_name
            &&& m["record_type"@] == "tool"@
        }),
{
    lemma_tool_keys();
    crate::codec::lemma_embedding_round_trip(tool.vector);
    let m = tool_stored(kept_tool(tool)).metadata;
    assert(m.dom() =~= set!["name"@, "schema"@, "extension_name"@, "record_type"@]);
}

proof fn lemma_tool_keys()
    ensures
        "name"@.len() == 4,
        "schema"@.len() == 6,
        "extension_name"@.len() == 14,
        "record_type"@.len() == 11,
{
    reveal_strlit("name");
    reveal_strlit("schema");
    reveal_strlit("extension_name");
    reveal_strlit("record_type");
}

/// Two tools with different names have different rows: writing one keeps the other, and deleting
/// the rows with the name of one as identifier takes out that tool and no other.
pub proof fn lemma_tools_have_rows(
    db: SqliteVectorDB,
    rows: Seq<StoredRow>,
    records: Seq<StorageView>,
    one: IndexedToolView,
    other: IndexedToolView,
    one_ready: bool,
    other_ready: bool,
    one_write: StorageWrite,
    other_write: StorageWrite,
)
    requires
        ascending(row_ids(rows)),
        rows_records(rows) == Ok::<_, DbErrorView>(records),
        db.added(tool_stored(kept_tool(one)), one_ready, Ok(one_write)),
        db.added(tool_stored(kept_tool(other)), other_ready, Ok(other_write)),
        one.tool_name != other.tool_name,
    ensures
        ({
            let first = put_row(rows, one_write.row);
            let both = put_row(first, other_write.row);
            let left = rows_without(both, one.tool_name);
            &&& rows_records(both) matches Ok(listed)
            &&& listed.contains(tool_stored(kept_tool(one)))
            &&& listed.contains(tool_stored(kept_tool(other)))
            &&& deleted(both, one.tool_name) == 1
            &&& rows_records(left) matches Ok(rest)
            &&& rest.contains(tool_stored(kept_tool(other)))
            &&& forall|r: StorageView| rest.contains(r) ==> #[trigger] r.id != one.tool_name
        }),
{
    let a = tool_stored(kept_tool(one));
    let b = tool_stored(kept_tool(other));
    lemma_tool_row(db, one, one_ready, one_write);
    lemma_tool_row(db, other, other_ready, other_write);
    lemma_tool_stored_form(kept_tool(one), "name"@);
    lemma_tool_stored_form(kept_tool(other), "name"@);
    assert(a.id == one.tool_name && b.id == other.tool_name);
    let first = put_row(rows, one_write.row);
    lemma_list_after_write(db, rows, records, a, one_ready, one_write);
    let listed_first = rows_records(first)->Ok_0;
    assert(listed_first.contains(a));
    let both = put_row(first, other_write.row);
    lemma_list_after_write(db, first, listed_first, b, other_ready, other_write);
    let listed = rows_records(both)->Ok_0;
    assert(listed.contains(a) && listed.contains(b));
    let i = choose|i: int| 0 <= i < listed.len() && listed[i] == a;
    assert(listed[i].id == one.tool_name);
    lemma_list_after_removal(both, listed, one.tool_name);
    lemma_records_left(listed, one.tool_name);
    let rest = records_without(listed, one.tool_name);
    assert(rest.contains(b));
}

/// The tool that is found has the name, the description and the embedding of the store's tool,
/// and the schema and the extension in its metadata, or empty ones.
pub proof fn lemma_found_tool(t: ToolView)
    ensures
        found_tool(t).tool_name == t.name,
        found_tool(t).description == t.description,
        found_tool(t).vector == t.embedding,
        t.metadata.dom().contains("schema"@) ==> found_tool(t).schema == t.metadata["schema"@],
        !t.metadata.dom().contains("schema"@) ==> found_tool(t).schema.len() == 0,
        t.metadata.dom().contains("extension_name"@) ==> found_tool(t).extension_name
            == t.metadata["extension_name"@],
        !t.metadata.dom().contains("extension_name"@) ==> found_tool(t).extension_name.len() == 0,
{
}

/// A search within an extension asks for exactly one entry, the extension; one without an
/// extension asks for none.
pub proof fn lemma_extension_entries(extension_name: Option<&str>)
    ensures
        extension_name is None ==> extension_filter(extension_name) is None,
        extension_name matches Some(ext) ==> {
            &&& extension_filter(extension_name) matches Some(f)
            &&& f.dom() =~= set!["extension_name"@]
            &&& f["extension_name"@] == ext@
        },
{
}

/// An empty table takes on the length of the first tool's embedding, if it has one; every other
/// table keeps its length, and so does one that gets no tools.
pub proof fn lemma_adapted_dimension(dimension: usize, tools: Seq<IndexedToolView>, empty: bool)
    ensures
        empty && tools.len() > 0 && 0 < tools[0].vector.len() <= usize::MAX ==> adapted_dimension(
            dimension,
            tools,
            empty,
        ) == tools[0].vector.len(),
        !empty || tools.len() == 0 || tools[0].vector.len() == 0 ==> adapted_dimension(
            dimension,
            tools,
            empty,
        ) == dimension,
{
}

/// A table lies in the directory that the configuration names, or else in `goose/tool_db` below
/// the user's data, in a file with the name of the table and `.db` behind it.
pub proof fn lemma_table_path(
    table_name: Option<String>,
    custom_path: Option<String>,
    data_dir: Option<String>,
    res: Option<Vec<String>>,
)
    requires
        call_ensures(SqliteAdapter::get_db_path, (table_name, custom_path, data_dir), res),
    ensures
        res is None <==> custom_path is None && data_dir is None,
        res matches Some(parts) ==> {
            &&& custom_path matches Some(dir) ==> parts@.len() == 2 && parts@[0]@ == dir@
            &&& custom_path is None ==> parts@.len() == 4 && parts@[0]@ == data_dir->0@ && parts@[1]@
                == "goose"@ && parts@[2]@ == "tool_db"@
            &&& parts@.last()@ == (match table_name {
                Some(name) => name@,
                None => "tools"@,
            }) + ".db"@
        },
{
    if res is Some {
        let parts = res->0@;
        let shown = views(parts);
        assert(shown.len() == parts.len());
        assert forall|i: int| 0 <= i < parts.len() implies shown[i] == (#[trigger] parts[i])@ by {}
        assert(parts.last()@ == shown.last());
        reveal_strlit("tools.db");
        reveal_strlit("tools");
        reveal_strlit(".db");
        assert("tools.db"@ =~= "tools"@ + ".db"@);
    }
}

// ---------------------------------------------------------------------------------------------
// Table names
// ---------------------------------------------------------------------------------------------
proof fn lemma_zeros_in_front(zeros: nat, s: Seq<char>)
    requires
        s.len() > 0,
        digits_value(s) is Some,
    ensures
        digits_value(Seq::new(zeros, |i: int| '0') + s) == digits_value(s),
    decreases zeros,
{
    let front = Seq::new(zeros, |i: int| '0');
    if zeros == 0 {
        assert(front + s =~= s);
    } else {
        let fewer = Seq::new((zeros - 1) as nat, |i: int| '0');
        lemma_zeros_in_front((zeros - 1) as nat, s);
        lemma_zero_in_front(fewer + s);
        assert(front + s =~= seq!['0'] + (fewer + s));
    }
}

proof fn lemma_zero_in_front(s: Seq<char>)
    requires
        s.len() > 0,
        digits_value(s) is Some,
    ensures
        digits_value(seq!['0'] + s) == digits_value(s),
    decreases s.len(),
{
    let t = seq!['0'] + s;
    assert(t.last() == s.last());
    if s.len() == 1 {
        assert(t.drop_last() =~= seq!['0']);
        assert(digits_value(seq!['0']) == Some(0nat));
    } else {
        assert(t.drop_last() =~= seq!['0'] + s.drop_last());
        lemma_zero_in_front(s.drop_last());
    }
}

proof fn lemma_padded(n: nat, width: nat)
    ensures
        digits_value(padded(n, width)) == Some(n),
        padded(n, width).len() >= width,
        n < 100 && width == 2 ==> padded(n, width).len() == 2,
        n < 10000 && width == 4 ==> padded(n, width).len() == 4,
{
    let d = decimal_of(n);
    lemma_decimal_round_trip(n);
    lemma_zeros_in_front(
        if d.len() < width {
            (width - d.len()) as nat
        } else {
            0
        },
        d,
    );
    if n < 10000 {
        reveal_with_fuel(decimal_of, 4);
    }
}

/// The name of a table is the year in at least four digits, behind a sign where it lies outside of
/// 0 to 9999, the month and the day in two, a line, and the hour, the minute and the second in two
/// digits.
pub proof fn lemma_table_name(t: LocalTime, res: String)
    requires
        call_ensures(table_id, (t,), res),
        t.wf(),
    ensures
        ({
            let n = res@.len() as int;
            let year = res@.take(n - 11);
            &&& n >= 15
            &&& 0 <= t.year <= 9999 ==> n == 15 && digits_value(year) == Some(t.year as nat)
            &&& t.year > 9999 ==> year[0] == '+' && digits_value(year.skip(1)) == Some(t.year as nat)
            &&& t.year < 0 ==> year[0] == '-' && year.len() >= 5 && digits_value(year.skip(1))
                == Some((-(t.year as int)) as nat)
            &&& digits_value(res@.subrange(n - 11, n - 9)) == Some(t.month as nat)
            &&& digits_value(res@.subrange(n - 9, n - 7)) == Some(t.day as nat)
            &&& res@[n - 7] == '_'
            &&& digits_value(res@.subrange(n - 6, n - 4)) == Some(t.hour as nat)
            &&& digits_value(res@.subrange(n - 4, n - 2)) == Some(t.minute as nat)
            &&& digits_value(res@.subrange(n - 2, n)) == Some(t.second as nat)
        }),
{
    reveal_strlit("_");
    reveal_strlit("+");
    reveal_strlit("-");
    let y = t.year as int;
    let size = (if y < 0 {
        -y
    } else {
        y
    }) as nat;
    lemma_padded(size, 4);
    lemma_padded(t.month as nat, 2);
    lemma_padded(t.day as nat, 2);
    lemma_padded(t.hour as nat, 2);
    lemma_padded(t.minute as nat, 2);
    lemma_padded(t.second as nat, 2);
    let n = res@.len() as int;
    let year = res@.take(n - 11);
    assert(year =~= crate::tool_vectordb::year_text(y));
    if y < 0 || y > 9999 {
        assert(year.skip(1) =~= padded(size, 4));
    }
    assert(res@.subrange(n - 11, n - 9) =~= padded(t.month as nat, 2));
    assert(res@.subrange(n - 9, n - 7) =~= padded(t.day as nat, 2));
    assert(res@.subrange(n - 6, n - 4) =~= padded(t.hour as nat, 2));
    assert(res@.subrange(n - 4, n - 2) =~= padded(t.minute as nat, 2));
    assert(res@.subrange(n - 2, n) =~= padded(t.second as nat, 2));
}

/// Two moments in different seconds give tables different names.
pub proof fn lemma_table_names_differ(a: LocalTime, b: LocalTime, a_name: String, b_name: String)
    requires
        call_ensures(table_id, (a,), a_name),
        call_ensures(table_id, (b,), b_name),
        a.wf(),
        b.wf(),
        a_name@ == b_name@,
    ensures
        a == b,
{
    lemma_table_name(a, a_name);
    lemma_table_name(b, b_name);
    let year = a_name@.take(a_name@.len() - 11);
    lemma_first_is_digit(year);
    assert(!('0' <= '+' <= '9') && !('0' <= '-' <= '9') && '+' != '-');
}

proof fn lemma_first_is_digit(s: Seq<char>)
    ensures
        digits_value(s) is Some ==> s.len() > 0 && '0' <= s[0] <= '9',
    decreases s.len(),
{
    if s.len() > 1 {
        lemma_first_is_digit(s.drop_last());
    }
}

} // verus!
