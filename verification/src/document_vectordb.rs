//! Chunks of documents in the vector store.
use crate::message_vectordb::{integer_at, take_integer, take_text, text_at};
use crate::metadata::Metadata;
use crate::records::{StorageView, StoredRecord, VectorRecord, VectorStorageRecord};
use crate::text::{
    decimal, decimal_of, digits_value, integer_text, lemma_decimal_round_trip,
    lemma_integer_round_trip, number, signed_decimal,
};
use vstd::prelude::*;

verus! {

/// What a document record holds.
#[verifier::ext_equal]
pub struct DocumentView {
    pub document_id: Seq<char>,
    pub file_path: Seq<char>,
    pub title: Seq<char>,
    pub content: Seq<char>,
    pub content_type: Seq<char>,
    pub chunk_index: usize,
    pub total_chunks: usize,
    pub file_size: u64,
    pub last_modified: i64,
    pub embedding: Seq<u32>,
    pub metadata: Map<Seq<char>, Seq<char>>,
}

/// A chunk of a document.
#[derive(Debug, Clone)]
pub struct DocumentRecord {
    pub document_id: String,
    pub file_path: String,
    pub title: String,
    pub content: String,
    pub content_type: String,
    pub chunk_index: usize,
    pub total_chunks: usize,
    pub file_size: u64,
    pub last_modified: i64,
    pub embedding: Vec<u32>,
    pub metadata: Metadata,
}

impl View for DocumentRecord {
    type V = DocumentView;

    open spec fn view(&self) -> DocumentView {
        DocumentView {
            document_id: self.document_id@,
            file_path: self.file_path@,
            title: self.title@,
            content: self.content@,
            content_type: self.content_type@,
            chunk_index: self.chunk_index,
            total_chunks: self.total_chunks,
            file_size: self.file_size,
            last_modified: self.last_modified,
            embedding: self.embedding@,
            metadata: self.metadata@,
        }
    }
}

/// The number under a key that is at most `max`; 0 where there is none.
pub open spec fn number_at(
    metadata: Map<Seq<char>, Seq<char>>,
    key: Seq<char>,
    max: u64,
) -> u64 {
    match digits_value(text_at(metadata, key)) {
        Some(n) => if n <= max {
            n as u64
        } else {
            0
        },
        None => 0,
    }
}

fn take_number(metadata: &mut Metadata, key: &str, max: u64) -> (res: u64)
    ensures
        res == number_at(old(metadata)@, key@, max),
        final(metadata)@ == old(metadata)@.remove(key@),
{
    let text = take_text(metadata, key);
    match number(text.as_str()) {
        Some(n) => if n <= max {
            n
        } else {
            0
        },
        None => 0,
    }
}

/// The stored form of a chunk of a document.
pub open spec fn document_stored(d: DocumentView) -> StorageView {
    StorageView {
        id: d.document_id,
        content: d.content,
        embedding: d.embedding,
        metadata: d.metadata.insert("file_path"@, d.file_path).insert("title"@, d.title).insert(
            "content_type"@,
            d.content_type,
        ).insert("chunk_index"@, decimal_of(d.chunk_index as nat)).insert(
            "total_chunks"@,
            decimal_of(d.total_chunks as nat),
        ).insert("file_size"@, decimal_of(d.file_size as nat)).insert(
            "last_modified"@,
            integer_text(d.last_modified as int),
        ).insert("record_type"@, "document"@),
    }
}

/// The chunk of a document that a stored record stands for.
pub open spec fn stored_document(s: StorageView) -> DocumentView {
    DocumentView {
        document_id: s.id,
        file_path: text_at(s.metadata, "file_path"@),
        title: text_at(s.metadata, "title"@),
        content: s.content,
        content_type: text_at(s.metadata, "content_type"@),
        chunk_index: number_at(s.metadata, "chunk_index"@, usize::MAX as u64) as usize,
        total_chunks: number_at(s.metadata, "total_chunks"@, usize::MAX as u64) as usize,
        file_size: number_at(s.metadata, "file_size"@, u64::MAX),
        last_modified: integer_at(s.metadata, "last_modified"@),
        embedding: s.embedding,
        metadata: without_document_keys(s.metadata),
    }
}

/// Metadata without the keys that the store uses for a chunk of a document.
pub open spec fn without_document_keys(metadata: Map<Seq<char>, Seq<char>>) -> Map<
    Seq<char>,
    Seq<char>,
> {
    metadata.remove("file_path"@).remove("title"@).remove("content_type"@).remove(
        "chunk_index"@,
    ).remove("total_chunks"@).remove("file_size"@).remove("last_modified"@).remove("record_type"@)
}

proof fn lemma_document_keys()
    ensures
        "file_path"@.len() == 9 && "file_path"@[5] == 'p',
        "title"@.len() == 5,
        "content_type"@.len() == 12 && "content_type"@[0] == 'c',
        "chunk_index"@.len() == 11 && "chunk_index"@[0] == 'c',
        "total_chunks"@.len() == 12 && "total_chunks"@[0] == 't',
        "file_size"@.len() == 9 && "file_size"@[5] == 's',
        "last_modified"@.len() == 13,
        "record_type"@.len() == 11 && "record_type"@[0] == 'r',
{
    reveal_strlit("file_path");
    reveal_strlit("title");
    reveal_strlit("content_type");
    reveal_strlit("chunk_index");
    reveal_strlit("total_chunks");
    reveal_strlit("file_size");
    reveal_strlit("last_modified");
    reveal_strlit("record_type");
}

/// A chunk of a document that is stored and read back is the same chunk, but for metadata under
/// the keys that the store uses itself.
pub proof fn lemma_document_round_trip(d: DocumentView)
    ensures
        stored_document(document_stored(d)) == (DocumentView {
            metadata: without_document_keys(d.metadata),
            ..d
        }),
{
    lemma_document_keys();
    lemma_decimal_round_trip(d.chunk_index as nat);
    lemma_decimal_round_trip(d.total_chunks as nat);
    lemma_decimal_round_trip(d.file_size as nat);
    lemma_integer_round_trip(d.last_modified as int);
    let s = document_stored(d).metadata;
    assert(s["file_path"@] == d.file_path);
    assert(s["title"@] == d.title);
    assert(s["content_type"@] == d.content_type);
    assert(s["chunk_index"@] == decimal_of(d.chunk_index as nat));
    assert(s["total_chunks"@] == decimal_of(d.total_chunks as nat));
    assert(s["file_size"@] == decimal_of(d.file_size as nat));
    assert(s["last_modified"@] == integer_text(d.last_modified as int));
    assert(without_document_keys(s) =~= without_document_keys(d.metadata));
}

impl VectorRecord for DocumentRecord {
    open spec fn id_of(&self) -> Seq<char> {
        self.document_id@
    }

    open spec fn embedding_of(&self) -> Seq<u32> {
        self.embedding@
    }

    open spec fn metadata_of(&self) -> Map<Seq<char>, Seq<char>> {
        self.metadata@
    }

    fn id(&self) -> (res: &str) {
        self.document_id.as_str()
    }

    fn embedding(&self) -> (res: &Vec<u32>) {
        &self.embedding
    }

    fn metadata(&self) -> (res: Metadata) {
        self.metadata.clone()
    }
}

impl StoredRecord for DocumentRecord {
    type Held = DocumentView;

    open spec fn held(&self) -> DocumentView {
        self@
    }

    open spec fn kind() -> Seq<char> {
        "document"@
    }

    open spec fn stored(held: DocumentView) -> StorageView {
        document_stored(held)
    }

    open spec fn restored(storage: StorageView) -> DocumentView {
        stored_document(storage)
    }

    proof fn lemma_stored_kind(held: DocumentView) {
    }

    fn kind_name() -> (res: &'static str) {
        "document"
    }

    fn store(self) -> (res: VectorStorageRecord) {
        VectorStorageRecord::from(self)
    }

    fn restore(record: VectorStorageRecord) -> (res: Self) {
        DocumentRecord::from(record)
    }
}

impl From<DocumentRecord> for VectorStorageRecord {
    fn from(document: DocumentRecord) -> (res: Self)
        ensures
            res@ == document_stored(document@),
    {
        let mut metadata = document.metadata;
        metadata.insert("file_path".to_owned(), document.file_path);
        metadata.insert("title".to_owned(), document.title);
        metadata.insert("content_type".to_owned(), document.content_type);
        metadata.insert("chunk_index".to_owned(), decimal(document.chunk_index as u64));
        metadata.insert("total_chunks".to_owned(), decimal(document.total_chunks as u64));
        metadata.insert("file_size".to_owned(), decimal(document.file_size));
        metadata.insert("last_modified".to_owned(), signed_decimal(document.last_modified));
        metadata.insert("record_type".to_owned(), "document".to_owned());
        VectorStorageRecord {
            id: document.document_id,
            content: document.content,
            embedding: document.embedding,
            metadata,
        }
    }
}

impl vstd::std_specs::convert::FromSpecImpl<DocumentRecord> for VectorStorageRecord {
    open spec fn obeys_from_spec() -> bool {
        false
    }

    open spec fn from_spec(document: DocumentRecord) -> Self {
        arbitrary()
    }
}

impl From<VectorStorageRecord> for DocumentRecord {
    fn from(storage: VectorStorageRecord) -> (res: Self)
        ensures
            res@ == stored_document(storage@),
    {
        proof {
            lemma_document_keys();
        }
        let mut metadata = storage.metadata;
        let file_path = take_text(&mut metadata, "file_path");
        let title = take_text(&mut metadata, "title");
        let content_type = take_text(&mut metadata, "content_type");
        let chunk_index: usize = take_number(
            &mut metadata,
            "chunk_index",
            usize::MAX as u64,
        ) as usize;
        let total_chunks: usize = take_number(
            &mut metadata,
            "total_chunks",
            usize::MAX as u64,
        ) as usize;
        let file_size: u64 = take_number(&mut metadata, "file_size", u64::MAX);
        let last_modified: i64 = take_integer(&mut metadata, "last_modified");
        let _ = metadata.remove("record_type");
        DocumentRecord {
            document_id: storage.id,
            file_path,
            title,
            content: storage.content,
            content_type,
            chunk_index,
            total_chunks,
            file_size,
            last_modified,
            embedding: storage.embedding,
            metadata,
        }
    }
}

impl vstd::std_specs::convert::FromSpecImpl<VectorStorageRecord> for DocumentRecord {
    open spec fn obeys_from_spec() -> bool {
        false
    }

    open spec fn from_spec(storage: VectorStorageRecord) -> Self {
        arbitrary()
    }
}

} // verus!
