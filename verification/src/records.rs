//! The records of the vector store, and how each kind is put into the form that is stored.
use crate::metadata::Metadata;
use crate::text::same_text;
use vstd::prelude::*;

verus! {

/// What a stored record holds.
#[verifier::ext_equal]
pub struct StorageView {
    pub id: Seq<char>,
    pub content: Seq<char>,
    pub embedding: Seq<u32>,
    pub metadata: Map<Seq<char>, Seq<char>>,
}

/// The record that the store keeps. Every other kind of record is converted to it.
#[derive(Debug)]
pub struct VectorStorageRecord {
    pub id: String,
    pub content: String,
    pub embedding: Vec<u32>,
    pub metadata: Metadata,
}

impl Clone for VectorStorageRecord {
    fn clone(&self) -> (res: Self)
        ensures
            res@ == self@,
    {
        let embedding = self.embedding.clone();
        assert(embedding@ =~= self.embedding@);
        VectorStorageRecord {
            id: self.id.clone(),
            content: self.content.clone(),
            embedding,
            metadata: self.metadata.clone(),
        }
    }
}

impl View for VectorStorageRecord {
    type V = StorageView;

    open spec fn view(&self) -> StorageView {
        StorageView {
            id: self.id@,
            content: self.content@,
            embedding: self.embedding@,
            metadata: self.metadata@,
        }
    }
}

/// What a tool record holds.
#[verifier::ext_equal]
pub struct ToolView {
    pub id: Seq<char>,
    pub name: Seq<char>,
    pub description: Seq<char>,
    pub embedding: Seq<u32>,
    pub metadata: Map<Seq<char>, Seq<char>>,
}

/// A tool in the store.
#[derive(Debug, Clone)]
pub struct ToolRecord {
    pub id: String,
    pub name: String,
    pub description: String,
    pub embedding: Vec<u32>,
    pub metadata: Metadata,
}

impl View for ToolRecord {
    type V = ToolView;

    open spec fn view(&self) -> ToolView {
        ToolView {
            id: self.id@,
            name: self.name@,
            description: self.description@,
            embedding: self.embedding@,
            metadata: self.metadata@,
        }
    }
}

/// A record with an embedding.
pub trait VectorRecord {
    /// The identifier.
    spec fn id_of(&self) -> Seq<char>;

    /// The embedding.
    spec fn embedding_of(&self) -> Seq<u32>;

    /// The metadata.
    spec fn metadata_of(&self) -> Map<Seq<char>, Seq<char>>;

    fn id(&self) -> (res: &str)
        ensures
            res@ == self.id_of(),
    ;

    fn embedding(&self) -> (res: &Vec<u32>)
        ensures
            res@ == self.embedding_of(),
    ;

    fn metadata(&self) -> (res: Metadata)
        ensures
            res@ == self.metadata_of(),
    ;
}

impl VectorRecord for VectorStorageRecord {
    open spec fn id_of(&self) -> Seq<char> {
        self.id@
    }

    open spec fn embedding_of(&self) -> Seq<u32> {
        self.embedding@
    }

    open spec fn metadata_of(&self) -> Map<Seq<char>, Seq<char>> {
        self.metadata@
    }

    fn id(&self) -> (res: &str) {
        self.id.as_str()
    }

    fn embedding(&self) -> (res: &Vec<u32>) {
        &self.embedding
    }

    fn metadata(&self) -> (res: Metadata) {
        self.metadata.clone()
    }
}

impl VectorRecord for ToolRecord {
    open spec fn id_of(&self) -> Seq<char> {
        self.id@
    }

    open spec fn embedding_of(&self) -> Seq<u32> {
        self.embedding@
    }

    open spec fn metadata_of(&self) -> Map<Seq<char>, Seq<char>> {
        self.metadata@
    }

    fn id(&self) -> (res: &str) {
        self.id.as_str()
    }

    fn embedding(&self) -> (res: &Vec<u32>) {
        &self.embedding
    }

    fn metadata(&self) -> (res: Metadata) {
        self.metadata.clone()
    }
}

/// The stored form of a tool: its description is the content, its name and the type of the
/// record join the metadata.
pub open spec fn tool_stored(t: ToolView) -> StorageView {
    StorageView {
        id: t.id,
        content: t.description,
        embedding: t.embedding,
        metadata: t.metadata.insert("name"@, t.name).insert("record_type"@, "tool"@),
    }
}

/// The tool that a stored record stands for. One without a name is called `unknown`.
pub open spec fn stored_tool(s: StorageView) -> ToolView {
    ToolView {
        id: s.id,
        name: if s.metadata.dom().contains("name"@) {
            s.metadata["name"@]
        } else {
            "unknown"@
        },
        description: s.content,
        embedding: s.embedding,
        metadata: s.metadata.remove("name"@).remove("record_type"@),
    }
}

impl From<ToolRecord> for VectorStorageRecord {
    fn from(tool: ToolRecord) -> (res: Self)
        ensures
            res@ == tool_stored(tool@),
    {
        let mut metadata = tool.metadata;
        metadata.insert("name".to_owned(), tool.name);
        metadata.insert("record_type".to_owned(), "tool".to_owned());
        VectorStorageRecord {
            id: tool.id,
            content: tool.description,
            embedding: tool.embedding,
            metadata,
        }
    }
}

impl vstd::std_specs::convert::FromSpecImpl<ToolRecord> for VectorStorageRecord {
    open spec fn obeys_from_spec() -> bool {
        false
    }

    open spec fn from_spec(tool: ToolRecord) -> Self {
        arbitrary()
    }
}

impl From<VectorStorageRecord> for ToolRecord {
    fn from(storage: VectorStorageRecord) -> (res: Self)
        ensures
            res@ == stored_tool(storage@),
    {
        let mut metadata = storage.metadata;
        let name = match metadata.remove("name") {
            Some(name) => name,
            None => "unknown".to_owned(),
        };
        let _ = metadata.remove("record_type");
        ToolRecord {
            id: storage.id,
            name,
            description: storage.content,
            embedding: storage.embedding,
            metadata,
        }
    }
}

impl vstd::std_specs::convert::FromSpecImpl<VectorStorageRecord> for ToolRecord {
    open spec fn obeys_from_spec() -> bool {
        false
    }

    open spec fn from_spec(storage: VectorStorageRecord) -> Self {
        arbitrary()
    }
}

/// A tool that is stored and read back is the same tool, but for metadata under the two keys
/// that the store uses itself.
pub proof fn lemma_tool_round_trip(t: ToolView)
    ensures
        stored_tool(tool_stored(t)) == (ToolView {
            metadata: t.metadata.remove("name"@).remove("record_type"@),
            ..t
        }),
        !t.metadata.dom().contains("name"@) && !t.metadata.dom().contains("record_type"@)
            ==> stored_tool(tool_stored(t)) == t,
{
    reveal_strlit("name");
    reveal_strlit("record_type");
    assert("name"@.len() != "record_type"@.len());
    let m = tool_stored(t).metadata;
    assert(m["name"@] == t.name);
    assert(m.remove("name"@).remove("record_type"@) =~= t.metadata.remove("name"@).remove(
        "record_type"@,
    ));
    if !t.metadata.dom().contains("name"@) && !t.metadata.dom().contains("record_type"@) {
        assert(t.metadata.remove("name"@).remove("record_type"@) =~= t.metadata);
    }
}

/// The record has the record type `kind`.
pub open spec fn is_of_type(r: StorageView, kind: Seq<char>) -> bool {
    r.metadata.dom().contains("record_type"@) && r.metadata["record_type"@] == kind
}

/// A kind of record that the store keeps: how a record is put into its stored form, and how it
/// is made out of that form again.
pub trait StoredRecord: VectorRecord + Sized {
    /// What a record of this kind holds.
    type Held;

    /// What the record holds.
    spec fn held(&self) -> Self::Held;

    /// The record type of this kind.
    spec fn kind() -> Seq<char>;

    /// The stored form.
    spec fn stored(held: Self::Held) -> StorageView;

    /// What a stored form stands for.
    spec fn restored(storage: StorageView) -> Self::Held;

    /// The stored form bears the record type of this kind.
    proof fn lemma_stored_kind(held: Self::Held)
        ensures
            is_of_type(Self::stored(held), Self::kind()),
    ;

    /// The record type of this kind.
    fn kind_name() -> (res: &'static str)
        ensures
            res@ == Self::kind(),
    ;

    /// Puts the record into its stored form.
    fn store(self) -> (res: VectorStorageRecord)
        ensures
            res@ == Self::stored(self.held()),
    ;

    /// Makes a record out of a stored form.
    fn restore(record: VectorStorageRecord) -> (res: Self)
        ensures
            res.held() == Self::restored(record@),
    ;
}

impl StoredRecord for ToolRecord {
    type Held = ToolView;

    open spec fn held(&self) -> ToolView {
        self@
    }

    open spec fn kind() -> Seq<char> {
        "tool"@
    }

    open spec fn stored(held: ToolView) -> StorageView {
        tool_stored(held)
    }

    open spec fn restored(storage: StorageView) -> ToolView {
        stored_tool(storage)
    }

    proof fn lemma_stored_kind(held: ToolView) {
    }

    fn kind_name() -> (res: &'static str) {
        "tool"
    }

    fn store(self) -> (res: VectorStorageRecord) {
        VectorStorageRecord::from(self)
    }

    fn restore(record: VectorStorageRecord) -> (res: Self) {
        ToolRecord::from(record)
    }
}

/// What the records of a sequence hold.
pub open spec fn held_of<T: StoredRecord>(records: Seq<T>) -> Seq<T::Held> {
    Seq::new(records.len(), |i: int| records[i].held())
}

/// What the stored records of the kind `T` hold, in order. The others are left out.
pub open spec fn restored_of<T: StoredRecord>(records: Seq<StorageView>) -> Seq<T::Held>
    decreases records.len(),
{
    if records.len() == 0 {
        Seq::empty()
    } else {
        let before = restored_of::<T>(records.drop_last());
        if is_of_type(records.last(), T::kind()) {
            before.push(T::restored(records.last()))
        } else {
            before
        }
    }
}

/// The record type in metadata; `unknown` where it names none.
pub open spec fn type_in(metadata: Map<Seq<char>, Seq<char>>) -> Seq<char> {
    if metadata.dom().contains("record_type"@) {
        metadata["record_type"@]
    } else {
        "unknown"@
    }
}

/// The record type in metadata; `unknown` where it names none.
pub fn record_type(metadata: &Metadata) -> (res: String)
    ensures
        res@ == type_in(metadata@),
{
    match metadata.get("record_type") {
        Some(t) => t.clone(),
        None => "unknown".to_owned(),
    }
}

/// Whether the record has the record type `kind`.
pub fn has_record_type(record: &VectorStorageRecord, kind: &str) -> (res: bool)
    ensures
        res == is_of_type(record@, kind@),
{
    match record.metadata.get("record_type") {
        Some(t) => same_text(t.as_str(), kind),
        None => false,
    }
}

} // verus!
