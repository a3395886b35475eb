//! Messages of conversations in the vector store.
use crate::metadata::Metadata;
use crate::records::{StorageView, StoredRecord, VectorRecord, VectorStorageRecord};
use crate::text::{
    integer_text, integer_value, lemma_integer_round_trip, signed_decimal, signed_number,
};
use vstd::prelude::*;

verus! {

/// What a message record holds.
#[verifier::ext_equal]
pub struct MessageView {
    pub message_id: Seq<char>,
    pub session_id: Seq<char>,
    pub content: Seq<char>,
    pub role: Seq<char>,
    pub timestamp: i64,
    pub embedding: Seq<u32>,
    pub metadata: Map<Seq<char>, Seq<char>>,
}

/// A message of a conversation.
#[derive(Debug, Clone)]
pub struct MessageRecord {
    pub message_id: String,
    pub session_id: String,
    pub content: String,
    pub role: String,
    pub timestamp: i64,
    pub embedding: Vec<u32>,
    pub metadata: Metadata,
}

impl View for MessageRecord {
    type V = MessageView;

    open spec fn view(&self) -> MessageView {
        MessageView {
            message_id: self.message_id@,
            session_id: self.session_id@,
            content: self.content@,
            role: self.role@,
            timestamp: self.timestamp,
            embedding: self.embedding@,
            metadata: self.metadata@,
        }
    }
}

/// The text under a key; empty where there is none.
pub open spec fn text_at(metadata: Map<Seq<char>, Seq<char>>, key: Seq<char>) -> Seq<char> {
    if metadata.dom().contains(key) {
        metadata[key]
    } else {
        Seq::empty()
    }
}

/// The 64-bit integer under a key; 0 where there is none.
pub open spec fn integer_at(metadata: Map<Seq<char>, Seq<char>>, key: Seq<char>) -> i64 {
    match integer_value(text_at(metadata, key)) {
        Some(n) => if i64::MIN <= n <= i64::MAX {
            n as i64
        } else {
            0
        },
        None => 0,
    }
}

/// Takes the text under a key out of the metadata.
pub fn take_text(metadata: &mut Metadata, key: &str) -> (res: String)
    ensures
        res@ == text_at(old(metadata)@, key@),
        final(metadata)@ == old(metadata)@.remove(key@),
{
    match metadata.remove(key) {
        Some(s) => s,
        None => String::new(),
    }
}

/// Takes the 64-bit integer under a key out of the metadata.
pub fn take_integer(metadata: &mut Metadata, key: &str) -> (res: i64)
    ensures
        res == integer_at(old(metadata)@, key@),
        final(metadata)@ == old(metadata)@.remove(key@),
{
    let text = take_text(metadata, key);
    match signed_number(text.as_str()) {
        Some(n) => n,
        None => 0,
    }
}

/// The stored form of a message.
pub open spec fn message_stored(m: MessageView) -> StorageView {
    StorageView {
        id: m.message_id,
        content: m.content,
        embedding: m.embedding,
        metadata: m.metadata.insert("session_id"@, m.session_id).insert("role"@, m.role).insert(
            "timestamp"@,
            integer_text(m.timestamp as int),
        ).insert("record_type"@, "message"@),
    }
}

/// The message that a stored record stands for.
pub open spec fn stored_message(s: StorageView) -> MessageView {
    MessageView {
        message_id: s.id,
        session_id: text_at(s.metadata, "session_id"@),
        content: s.content,
        role: text_at(s.metadata, "role"@),
        timestamp: integer_at(s.metadata, "timestamp"@),
        embedding: s.embedding,
        metadata: without_message_keys(s.metadata),
    }
}

/// Metadata without the keys that the store uses for a message.
pub open spec fn without_message_keys(metadata: Map<Seq<char>, Seq<char>>) -> Map<
    Seq<char>,
    Seq<char>,
> {
    metadata.remove("session_id"@).remove("role"@).remove("timestamp"@).remove("record_type"@)
}

proof fn lemma_message_keys()
    ensures
        "session_id"@.len() == 10,
        "role"@.len() == 4,
        "timestamp"@.len() == 9,
        "record_type"@.len() == 11,
{
    reveal_strlit("session_id");
    reveal_strlit("role");
    reveal_strlit("timestamp");
    reveal_strlit("record_type");
}

/// A message that is stored and read back is the same message, but for metadata under the keys
/// that the store uses itself.
pub proof fn lemma_message_round_trip(m: MessageView)
    ensures
        stored_message(message_stored(m)) == (MessageView {
            metadata: without_message_keys(m.metadata),
            ..m
        }),
{
    lemma_message_keys();
    lemma_integer_round_trip(m.timestamp as int);
    let s = message_stored(m).metadata;
    assert(s["session_id"@] == m.session_id);
    assert(s["role"@] == m.role);
    assert(s["timestamp"@] == integer_text(m.timestamp as int));
    assert(without_message_keys(s) =~= without_message_keys(m.metadata));
}

impl VectorRecord for MessageRecord {
    open spec fn id_of(&self) -> Seq<char> {
        self.message_id@
    }

    open spec fn embedding_of(&self) -> Seq<u32> {
        self.embedding@
    }

    open spec fn metadata_of(&self) -> Map<Seq<char>, Seq<char>> {
        self.metadata@
    }

    fn id(&self) -> (res: &str) {
        self.message_id.as_str()
    }

    fn embedding(&self) -> (res: &Vec<u32>) {
        &self.embedding
    }

    fn metadata(&self) -> (res: Metadata) {
        self.metadata.clone()
    }
}

impl StoredRecord for MessageRecord {
    type Held = MessageView;

    open spec fn held(&self) -> MessageView {
        self@
    }

    open spec fn kind() -> Seq<char> {
        "message"@
    }

    open spec fn stored(held: MessageView) -> StorageView {
        message_stored(held)
    }

    open spec fn restored(storage: StorageView) -> MessageView {
        stored_message(storage)
    }

    proof fn lemma_stored_kind(held: MessageView) {
    }

    fn kind_name() -> (res: &'static str) {
        "message"
    }

    fn store(self) -> (res: VectorStorageRecord) {
        VectorStorageRecord::from(self)
    }

    fn restore(record: VectorStorageRecord) -> (res: Self) {
        MessageRecord::from(record)
    }
}

impl From<MessageRecord> for VectorStorageRecord {
    fn from(message: MessageRecord) -> (res: Self)
        ensures
            res@ == message_stored(message@),
    {
        let mut metadata = message.metadata;
        metadata.insert("session_id".to_owned(), message.session_id);
        metadata.insert("role".to_owned(), message.role);
        metadata.insert("timestamp".to_owned(), signed_decimal(message.timestamp));
        metadata.insert("record_type".to_owned(), "message".to_owned());
        VectorStorageRecord {
            id: message.message_id,
            content: message.content,
            embedding: message.embedding,
            metadata,
        }
    }
}

impl vstd::std_specs::convert::FromSpecImpl<MessageRecord> for VectorStorageRecord {
    open spec fn obeys_from_spec() -> bool {
        false
    }

    open spec fn from_spec(message: MessageRecord) -> Self {
        arbitrary()
    }
}

impl From<VectorStorageRecord> for MessageRecord {
    fn from(storage: VectorStorageRecord) -> (res: Self)
        ensures
            res@ == stored_message(storage@),
    {
        proof {
            lemma_message_keys();
        }
        let mut metadata = storage.metadata;
        let session_id = take_text(&mut metadata, "session_id");
        let role = take_text(&mut metadata, "role");
        let timestamp: i64 = take_integer(&mut metadata, "timestamp");
        let _ = metadata.remove("record_type");
        MessageRecord {
            message_id: storage.id,
            session_id,
            content: storage.content,
            role,
            timestamp,
            embedding: storage.embedding,
            metadata,
        }
    }
}

impl vstd::std_specs::convert::FromSpecImpl<VectorStorageRecord> for MessageRecord {
    open spec fn obeys_from_spec() -> bool {
        false
    }

    open spec fn from_spec(storage: VectorStorageRecord) -> Self {
        arbitrary()
    }
}

} // verus!
