//! Tools in the vector store: where their table lies, how they are indexed and searched.
use crate::codec::{blob_embedding, decode_embedding};
use crate::hnsw::{HnswMessage, VectorDbError};
use crate::metadata::Metadata;
use crate::records::{
    held_of, restored_of, stored_tool, tool_stored, ToolRecord as StoredToolRecord, ToolView,
};
use crate::sqlite_vectordb::{SqliteVectorDB, StorageWrite, StoredRow};
use crate::text::{decimal, decimal_of, views};
use vstd::prelude::*;

verus! {

/// The length of the embeddings in a new table.
pub const DEFAULT_DIMENSION: usize = 1536;

/// The size of a table's index.
pub const DEFAULT_MAX_ELEMENTS: usize = 10000;

/// What a tool record holds.
#[verifier::ext_equal]
pub struct IndexedToolView {
    pub tool_name: Seq<char>,
    pub description: Seq<char>,
    pub schema: Seq<char>,
    pub vector: Seq<u32>,
    pub extension_name: Seq<char>,
}

/// A tool with its embedding and the extension that it belongs to.
#[derive(Debug, Clone)]
pub struct ToolRecord {
    pub tool_name: String,
    pub description: String,
    pub schema: String,
    pub vector: Vec<u32>,
    pub extension_name: String,
}

impl View for ToolRecord {
    type V = IndexedToolView;

    open spec fn view(&self) -> IndexedToolView {
        IndexedToolView {
            tool_name: self.tool_name@,
            description: self.description@,
            schema: self.schema@,
            vector: self.vector@,
            extension_name: self.extension_name@,
        }
    }
}

/// Tool records by their views.
pub open spec fn indexed_views(tools: Seq<ToolRecord>) -> Seq<IndexedToolView> {
    Seq::new(tools.len(), |i: int| tools[i]@)
}

/// The store's form of a tool: its name is its identifier, its schema and its extension are
/// metadata.
pub open spec fn kept_tool(t: IndexedToolView) -> ToolView {
    ToolView {
        id: t.tool_name,
        name: t.tool_name,
        description: t.description,
        embedding: t.vector,
        metadata: Map::<Seq<char>, Seq<char>>::empty().insert("schema"@, t.schema).insert(
            "extension_name"@,
            t.extension_name,
        ),
    }
}

/// The value under a key; empty where there is none.
pub open spec fn value_or_empty(metadata: Map<Seq<char>, Seq<char>>, key: Seq<char>) -> Seq<char> {
    if metadata.dom().contains(key) {
        metadata[key]
    } else {
        Seq::empty()
    }
}

/// The tool that the store's form stands for.
pub open spec fn found_tool(t: ToolView) -> IndexedToolView {
    IndexedToolView {
        tool_name: t.name,
        description: t.description,
        schema: value_or_empty(t.metadata, "schema"@),
        vector: t.embedding,
        extension_name: value_or_empty(t.metadata, "extension_name"@),
    }
}

/// A tool comes out of the store as it went in.
pub proof fn lemma_indexed_tool_round_trip(t: IndexedToolView)
    ensures
        found_tool(stored_tool(tool_stored(kept_tool(t)))) == t,
{
    reveal_strlit("schema");
    reveal_strlit("extension_name");
    reveal_strlit("name");
    reveal_strlit("record_type");
    assert("schema"@.len() == 6 && "extension_name"@.len() == 14 && "name"@.len() == 4
        && "record_type"@.len() == 11);
    let m = tool_stored(kept_tool(t)).metadata;
    assert(m["name"@] == t.tool_name);
    assert(m["schema"@] == t.schema);
    assert(m["extension_name"@] == t.extension_name);
}

/// The metadata that a tool must have to belong to an extension.
pub open spec fn extension_filter(extension_name: Option<&str>) -> Option<
    Map<Seq<char>, Seq<char>>,
> {
    match extension_name {
        Some(ext) => Some(
            Map::<Seq<char>, Seq<char>>::empty().insert("extension_name"@, ext@),
        ),
        None => None,
    }
}

/// Every tool that a search within an extension gives belongs to that extension.
pub proof fn lemma_extension_filter(extension_name: &str, metadata: Map<Seq<char>, Seq<char>>)
    ensures
        extension_filter(Some(extension_name))->0.submap_of(metadata) <==> metadata.dom().contains(
            "extension_name"@,
        ) && metadata["extension_name"@] == extension_name@,
{
    let f = extension_filter(Some(extension_name))->0;
    assert(f.dom().contains("extension_name"@));
    if f.submap_of(metadata) {
        assert(metadata.dom().contains("extension_name"@));
        assert(f["extension_name"@] == metadata["extension_name"@]);
    }
}

/// The length of the embeddings once tools are indexed: a table without rows takes on the length
/// of the first tool's embedding.
pub open spec fn adapted_dimension(
    dimension: usize,
    tools: Seq<IndexedToolView>,
    table_is_empty: bool,
) -> usize {
    if table_is_empty && tools.len() > 0 && tools[0].vector.len() > 0 {
        tools[0].vector.len() as usize
    } else {
        dimension
    }
}

/// What indexing tools comes to: whether the index starts anew, the records that are written, in
/// order, and the error that ends the writing.
#[derive(Debug)]
pub struct IndexBatch {
    pub reinitialize: Option<HnswMessage>,
    pub writes: Vec<StorageWrite>,
    pub error: Option<VectorDbError>,
}

/// The tool store.
#[derive(Debug, Clone)]
pub struct SqliteAdapter {
    pub db: SqliteVectorDB,
}

/// The name of a table's file.
pub open spec fn table_file(table_name: Option<String>) -> Seq<char> {
    match table_name {
        Some(name) => name@ + ".db"@,
        None => "tools.db"@,
    }
}

impl SqliteAdapter {
    /// The store is usable.
    pub open spec fn wf(&self) -> bool {
        self.db.wf()
    }

    /// The tool store in the file at `db_path`. `rows` are the rows that are in its table: their
    /// embeddings give the length of all embeddings, and an empty table has the default length.
    pub fn new(db_path: String, rows: &Vec<StoredRow>) -> (res: Self)
        ensures
            res.wf(),
            res.db.db_path == db_path,
            res.db.max_elements == DEFAULT_MAX_ELEMENTS,
            res.db.dimension == (if rows@.len() > 0 && blob_embedding(
                rows@[0].embedding@,
            ) is Some {
                blob_embedding(rows@[0].embedding@)->0.len()
            } else {
                DEFAULT_DIMENSION as nat
            }),
    {
        let dimension: usize = if rows.len() > 0 {
            match decode_embedding(&rows[0].embedding) {
                Ok(e) => e.len(),
                Err(_) => DEFAULT_DIMENSION,
            }
        } else {
            DEFAULT_DIMENSION
        };
        SqliteAdapter { db: SqliteVectorDB::new(db_path, dimension, DEFAULT_MAX_ELEMENTS) }
    }

    /// Where a table lies, as the parts of a path: in the directory that the configuration
    /// names, or else in `goose/tool_db` below the user's data directory. None where neither is
    /// known.
    pub fn get_db_path(
        table_name: Option<String>,
        custom_path: Option<String>,
        data_dir: Option<String>,
    ) -> (res: Option<Vec<String>>)
        ensures
            match res {
                Some(parts) => views(parts@) == (if custom_path is Some {
                    seq![custom_path->0@, table_file(table_name)]
                } else {
                    seq![data_dir->0@, "goose"@, "tool_db"@, table_file(table_name)]
                }) && (custom_path is Some || data_dir is Some),
                None => custom_path is None && data_dir is None,
            },
    {
        let ghost file = table_file(table_name);
        let name = match table_name {
            Some(name) => name.concat(".db"),
            None => "tools.db".to_owned(),
        };
        let mut parts: Vec<String> = Vec::new();
        match custom_path {
            Some(dir) => {
                parts.push(dir);
                parts.push(name);
                assert(views(parts@) =~= seq![dir@, file]);
            },
            None => match data_dir {
                Some(dir) => {
                    parts.push(dir);
                    parts.push("goose".to_owned());
                    parts.push("tool_db".to_owned());
                    parts.push(name);
                    assert(views(parts@) =~= seq![dir@, "goose"@, "tool_db"@, file]);
                },
                None => {
                    return None;
                },
            },
        }
        Some(parts)
    }

    /// Indexes tools: each becomes a record of the store, up to the first whose embedding has
    /// the wrong length. A table without rows takes on the length of the first tool's embedding,
    /// and its index starts anew where that is another length than before.
    pub fn index_tools(
        &mut self,
        tools: Vec<ToolRecord>,
        table_is_empty: bool,
        index_ready: bool,
    ) -> (res: IndexBatch)
        requires
            old(self).wf(),
        ensures
            final(self).wf(),
            final(self).db.db_path == old(self).db.db_path,
            final(self).db.max_elements == old(self).db.max_elements,
            final(self).db.dimension == adapted_dimension(
                old(self).db.dimension,
                indexed_views(tools@),
                table_is_empty,
            ),
            match res.reinitialize {
                Some(message) => final(self).db.dimension != old(self).db.dimension && message
                    == (HnswMessage::Initialize {
                    dimension: final(self).db.dimension,
                    max_elements: old(self).db.max_elements,
                }),
                None => final(self).db.dimension == old(self).db.dimension,
            },
            res.writes@.len() <= tools@.len(),
            forall|i: int|
                0 <= i < res.writes@.len() ==> {
                    let write = #[trigger] res.writes@[i];
                    &&& write.row.id@ == tools@[i].tool_name@
                    &&& write.row.content@ == tools@[i].description@
                    &&& write.embedding@ == tools@[i].vector@
                },
            res.error is None <==> forall|i: int|
                0 <= i < tools@.len() ==> (#[trigger] tools@[i]).vector@.len()
                    == final(self).db.dimension,
            forall|i: int|
                0 <= i < res.writes@.len() ==> final(self).db.added(
                    tool_stored(kept_tool(tools@[i]@)),
                    index_ready || res.reinitialize is Some || i > 0,
                    Ok(#[trigger] res.writes@[i]),
                ),
            match res.error {
                None => res.writes@.len() == tools@.len(),
                Some(e) => res.writes@.len() < tools@.len() && {
                    let got = tools@[res.writes@.len() as int].vector@.len();
                    got != final(self).db.dimension && e == (VectorDbError::DimensionMismatch {
                        expected: final(self).db.dimension,
                        got: got as usize,
                    })
                },
            },
    {
        let ghost all = tools@;
        let mut reinitialize: Option<HnswMessage> = None;
        if table_is_empty && tools.len() > 0 && tools[0].vector.len() > 0 && tools[0].vector.len()
            != self.db.dimension {
            self.db.dimension = tools[0].vector.len();
            reinitialize = Some(self.db.clear());
        }
        let ghost restarted = reinitialize is Some;
        let mut ready = index_ready || reinitialize.is_some();
        let mut writes: Vec<StorageWrite> = Vec::new();
        let db = self.db.clone();
        for tool in it: tools
            invariant
                it.seq() == all,
                tools@ == all,
                db.wf(),
                db.dimension == self.db.dimension,
                db.max_elements == self.db.max_elements,
                self.wf(),
                self.db.db_path == old(self).db.db_path,
                self.db.max_elements == old(self).db.max_elements,
                self.db.dimension == adapted_dimension(
                    old(self).db.dimension,
                    indexed_views(tools@),
                    table_is_empty,
                ),
                match reinitialize {
                    Some(message) => self.db.dimension != old(self).db.dimension && message == (
                    HnswMessage::Initialize {
                        dimension: self.db.dimension,
                        max_elements: old(self).db.max_elements,
                    }),
                    None => self.db.dimension == old(self).db.dimension,
                },
                restarted == (reinitialize is Some),
                ready == (index_ready || restarted || it.index() > 0),
                writes@.len() == it.index(),
                forall|i: int|
                    0 <= i < writes@.len() ==> db.added(
                        tool_stored(kept_tool(all[i]@)),
                        index_ready || restarted || i > 0,
                        Ok(#[trigger] writes@[i]),
                    ),
        {
            let ghost t = tool@;
            let ghost i = it.index() as int;
            let mut metadata = Metadata::new();
            metadata.insert("schema".to_owned(), tool.schema);
            metadata.insert("extension_name".to_owned(), tool.extension_name);
            let kept = StoredToolRecord {
                id: tool.tool_name.clone(),
                name: tool.tool_name,
                description: tool.description,
                embedding: tool.vector,
                metadata,
            };
            assert(kept@ =~= kept_tool(t));
            match db.add_tool(kept, ready) {
                Ok(write) => {
                    writes.push(write);
                    ready = true;
                },
                Err(e) => {
                    return IndexBatch { reinitialize, writes, error: Some(e) };
                },
            }
        }
        assert forall|i: int| 0 <= i < tools@.len() implies (#[trigger] tools@[i]).vector@.len()
            == self.db.dimension by {
            assert(db.added(
                tool_stored(kept_tool(all[i]@)),
                index_ready || restarted || i > 0,
                Ok(writes@[i]),
            ));
        }
        IndexBatch { reinitialize, writes, error: None }
    }

    /// Searches the tools nearest to a query, within an extension if one is named.
    pub fn search_tools(
        &self,
        query_vector: &Vec<u32>,
        k: usize,
        extension_name: Option<&str>,
        neighbors: Option<Vec<usize>>,
        rows: &Vec<StoredRow>,
    ) -> (res: Result<Vec<ToolRecord>, VectorDbError>)
        requires
            self.wf(),
        ensures
            match self.db.search_result(
                query_vector@.len(),
                k,
                extension_filter(extension_name),
                neighbors,
                rows@,
            ) {
                Ok(records) => res matches Ok(tools) && indexed_views(tools@) == restored_of::<
                    StoredToolRecord,
                >(records).map_values(|t: ToolView| found_tool(t)),
                Err(e) => res == Err::<Vec<ToolRecord>, _>(e),
            },
    {
        let filter = match extension_name {
            Some(ext) => {
                let mut f = Metadata::new();
                f.insert("extension_name".to_owned(), ext.to_owned());
                Some(f)
            },
            None => None,
        };
        let found = match self.db.search_similar(query_vector, k, filter.as_ref(), neighbors, rows) {
            Ok(found) => found,
            Err(e) => return Err(e),
        };
        let ghost held = held_of(found@);
        let mut tools: Vec<ToolRecord> = Vec::new();
        let mut i: usize = 0;
        while i < found.len()
            invariant
                i <= found@.len(),
                held == held_of(found@),
                tools@.len() == i,
                forall|j: int| 0 <= j < i ==> (#[trigger] tools@[j])@ == found_tool(held[j]),
            decreases found@.len() - i,
        {
            let t = &found[i];
            let schema = match t.metadata.get("schema") {
                Some(s) => s.clone(),
                None => String::new(),
            };
            let ext = match t.metadata.get("extension_name") {
                Some(s) => s.clone(),
                None => String::new(),
            };
            let vector = t.embedding.clone();
            assert(vector@ =~= t.embedding@);
            let tool = ToolRecord {
                tool_name: t.name.clone(),
                description: t.description.clone(),
                schema,
                vector,
                extension_name: ext,
            };
            assert(tool@ =~= found_tool(t@));
            tools.push(tool);
            i += 1;
        }
        assert(indexed_views(tools@) =~= held.map_values(|t: ToolView| found_tool(t)));
        Ok(tools)
    }

    /// Removing a tool succeeds whether or not it was there; `affected` is the number of rows
    /// that were deleted.
    pub fn remove_tool(&self, affected: usize) -> (res: bool)
        ensures
            res == (affected > 0),
    {
        self.db.remove_tool(affected)
    }

    /// What the index is told when all tools have been deleted.
    pub fn clear_tools(&self) -> (res: HnswMessage)
        ensures
            res == (HnswMessage::Initialize {
                dimension: self.db.dimension,
                max_elements: self.db.max_elements,
            }),
    {
        self.db.clear()
    }
}

// ---------------------------------------------------------------------------------------------
// Table names
// ---------------------------------------------------------------------------------------------
/// A moment of local time.
#[derive(Debug, Clone, Copy, PartialEq, Eq)]
pub struct LocalTime {
    pub year: i32,
    pub month: u32,
    pub day: u32,
    pub hour: u32,
    pub minute: u32,
    pub second: u32,
}

impl LocalTime {
    /// Every part is within its range.
    pub open spec fn wf(&self) -> bool {
        &&& 1 <= self.month <= 12
        &&& 1 <= self.day <= 31
        &&& self.hour < 24
        &&& self.minute < 60
        &&& self.second < 60
    }
}

/// `n` in decimal notation with at least `width` digits.
pub open spec fn padded(n: nat, width: nat) -> Seq<char> {
    let d = decimal_of(n);
    Seq::new(
        if d.len() < width {
            (width - d.len()) as nat
        } else {
            0
        },
        |i: int| '0',
    ) + d
}

/// A year in four digits; one outside of these has a sign.
pub open spec fn year_text(year: int) -> Seq<char> {
    if year < 0 {
        "-"@ + padded((-year) as nat, 4)
    } else if year > 9999 {
        "+"@ + padded(year as nat, 4)
    } else {
        padded(year as nat, 4)
    }
}

/// The table name for a moment: `YYYYMMDD_hhmmss`.
pub open spec fn table_id_of(t: LocalTime) -> Seq<char> {
    year_text(t.year as int) + padded(t.month as nat, 2) + padded(t.day as nat, 2) + "_"@ + padded(
        t.hour as nat,
        2,
    ) + padded(t.minute as nat, 2) + padded(t.second as nat, 2)
}

fn pad(n: u64, width: usize) -> (res: String)
    ensures
        res@ == padded(n as nat, width as nat),
{
    let d = decimal(n);
    let len: usize = crate::text::chars_of(d.as_str()).len();
    let mut out = String::new();
    let mut i: usize = len;
    assert(out@ =~= Seq::new(0, |k: int| '0'));
    while i < width
        invariant
            len <= i,
            i <= width || i == len,
            out@ =~= Seq::new((i - len) as nat, |k: int| '0'),
        decreases width - i,
    {
        out.push('0');
        i += 1;
    }
    out.concat(d.as_str())
}

/// The table name for a moment.
pub fn table_id(t: LocalTime) -> (res: String)
    ensures
        res@ == table_id_of(t),
{
    let year = if t.year < 0 {
        let m: u64 = (-(t.year as i64)) as u64;
        "-".to_owned().concat(pad(m, 4).as_str())
    } else if t.year > 9999 {
        "+".to_owned().concat(pad(t.year as u64, 4).as_str())
    } else {
        pad(t.year as u64, 4)
    };
    year.concat(pad(t.month as u64, 2).as_str()).concat(pad(t.day as u64, 2).as_str()).concat(
        "_",
    ).concat(pad(t.hour as u64, 2).as_str()).concat(pad(t.minute as u64, 2).as_str()).concat(
        pad(t.second as u64, 2).as_str(),
    )
}

/// `chrono::Local::now`, with the parts of the moment as `chrono` names them. Nothing is claimed
/// of the moment but that each part is within its range.
#[verifier::external_body]
fn local_now() -> (res: LocalTime)
    ensures
        res.wf(),
{
    let now = chrono::Local::now();
    LocalTime {
        year: chrono::Datelike::year(&now),
        month: chrono::Datelike::month(&now),
        day: chrono::Datelike::day(&now),
        hour: chrono::Timelike::hour(&now),
        minute: chrono::Timelike::minute(&now),
        second: chrono::Timelike::second(&now),
    }
}

/// A table name made from the current time.
pub fn generate_table_id() -> (res: String)
    ensures
        exists|t: LocalTime| t.wf() && res@ == #[trigger] table_id_of(t),
{
    let now = local_now();
    table_id(now)
}

} // verus!
