use hnsw_rs::prelude::{DistCosine, Hnsw};
use rusqlite::Connection;
use vectordb::document_vectordb::DocumentRecord;
use vectordb::hnsw::{HnswAction, HnswActor, HnswMessage, VectorDbError};
use vectordb::message_vectordb::MessageRecord;
use vectordb::metadata::Metadata;
use vectordb::records::{StoredRecord, ToolRecord, VectorRecord, VectorStorageRecord};
use vectordb::sqlite_vectordb::{SqliteVectorDB, StorageWrite, StoredRow};
use vectordb::stats::StatValue;
use vectordb::tool_vectordb::{SqliteAdapter, ToolRecord as AdapterTool};
use vectordb::vector_database::VectorDatabase;

fn bits(values: &[f32]) -> Vec<u32> {
    values.iter().map(|v| v.to_bits()).collect()
}

fn floats(embedding: &[u32]) -> Vec<f32> {
    embedding.iter().map(|b| f32::from_bits(*b)).collect()
}

/// A table in memory with its index.
struct Table {
    conn: Connection,
    actor: HnswActor,
    index: Option<Hnsw<'static, f32, DistCosine>>,
}

impl Table {
    fn new(dimension: usize, max_elements: usize) -> Self {
        let conn = Connection::open_in_memory().unwrap();
        conn.execute(
            "CREATE TABLE vector_records (id TEXT PRIMARY KEY, content TEXT NOT NULL,
             embedding BLOB NOT NULL, metadata TEXT NOT NULL)",
            [],
        )
        .unwrap();
        let mut table = Table {
            conn,
            actor: HnswActor::new(dimension, max_elements),
            index: None,
        };
        table.tell(HnswMessage::Initialize {
            dimension,
            max_elements,
        });
        table
    }

    fn tell(&mut self, message: HnswMessage) -> Vec<usize> {
        let action = self.actor.handle(message).unwrap();
        match action {
            HnswAction::Create {
                m,
                max_elements,
                ef_construction,
                ef,
            } => {
                self.index = Some(Hnsw::new(
                    m,
                    max_elements,
                    ef_construction,
                    ef,
                    DistCosine {},
                ));
                vec![]
            }
            HnswAction::Insert { points } => {
                let index = self.index.as_ref().unwrap();
                for point in points {
                    index.insert((&floats(&point.embedding), point.point_id));
                }
                vec![]
            }
            HnswAction::Search { query, k, ef } => self
                .index
                .as_ref()
                .unwrap()
                .search(&floats(&query), k, ef)
                .into_iter()
                .map(|n| n.d_id)
                .collect(),
        }
    }

    fn write(&mut self, write: StorageWrite) {
        self.conn
            .execute(
                "INSERT OR REPLACE INTO vector_records (id, content, embedding, metadata)
                 VALUES (?, ?, ?, ?)",
                (
                    write.row.id,
                    write.row.content,
                    write.row.embedding,
                    write.row.metadata,
                ),
            )
            .unwrap();
        assert!(!write.create_index);
        self.tell(HnswMessage::Insert {
            embedding: write.embedding,
            point_id: write.point_id,
        });
    }

    fn rows(&self) -> Vec<StoredRow> {
        let mut stmt = self
            .conn
            .prepare("SELECT id, content, embedding, metadata FROM vector_records ORDER BY rowid")
            .unwrap();
        let rows = stmt
            .query_map([], |row| {
                Ok(StoredRow {
                    id: row.get(0)?,
                    content: row.get(1)?,
                    embedding: row.get(2)?,
                    metadata: row.get(3)?,
                })
            })
            .unwrap();
        rows.map(|r| r.unwrap()).collect()
    }

    /// The rows in the order of their identifiers.
    fn rows_by_id(&self) -> Vec<StoredRow> {
        let mut stmt = self
            .conn
            .prepare("SELECT id, content, embedding, metadata FROM vector_records ORDER BY id")
            .unwrap();
        let rows = stmt
            .query_map([], |row| {
                Ok(StoredRow {
                    id: row.get(0)?,
                    content: row.get(1)?,
                    embedding: row.get(2)?,
                    metadata: row.get(3)?,
                })
            })
            .unwrap();
        rows.map(|r| r.unwrap()).collect()
    }

    fn metadata(&self) -> Vec<String> {
        self.rows().into_iter().map(|r| r.metadata).collect()
    }

    fn delete(&mut self, id: &str) -> usize {
        self.conn
            .execute("DELETE FROM vector_records WHERE id = ?", [id])
            .unwrap()
    }

    fn delete_all(&mut self) {
        self.conn.execute("DELETE FROM vector_records", []).unwrap();
    }
}

struct Store {
    db: SqliteVectorDB,
    table: Table,
}

impl Store {
    fn new(path: &str, dimension: usize, max_elements: usize) -> Self {
        Store {
            db: SqliteVectorDB::new(path.to_string(), dimension, max_elements),
            table: Table::new(dimension, max_elements),
        }
    }

    fn add<T: StoredRecord>(&mut self, record: T) {
        let write = VectorDatabase::<T>::add_record(&self.db, record, true).unwrap();
        self.table.write(write);
    }

    fn search<T: StoredRecord>(
        &mut self,
        query: &[f32],
        limit: usize,
        filter: Option<Metadata>,
    ) -> Vec<T> {
        let query = bits(query);
        let message = self.db.neighbor_query(&query, limit).unwrap();
        let neighbors = Some(self.table.tell(message));
        let rows = self.table.rows();
        VectorDatabase::<T>::search_records(
            &self.db,
            &query,
            limit,
            filter.as_ref(),
            neighbors,
            &rows,
        )
        .unwrap()
    }

    fn stat(&self, name: &str) -> Option<StatValue> {
        let stats = self.db.stats(&self.table.metadata()).unwrap();
        stats
            .entries()
            .into_iter()
            .find(|e| e.0 == name)
            .map(|e| e.1)
    }
}

struct ToolStore {
    adapter: SqliteAdapter,
    table: Table,
}

impl ToolStore {
    fn new(name: &str) -> Self {
        let adapter = SqliteAdapter::new(name.to_string(), &vec![]);
        let table = Table::new(adapter.db.dimension, adapter.db.max_elements);
        ToolStore { adapter, table }
    }

    /// Opens the same table again.
    fn reopen(mut self) -> Self {
        let rows = self.table.rows();
        self.adapter = SqliteAdapter::new(self.adapter.db.db_path.clone(), &rows);
        self.table.tell(HnswMessage::Initialize {
            dimension: self.adapter.db.dimension,
            max_elements: self.adapter.db.max_elements,
        });
        let embeddings = self.adapter.db.load_index(&rows).unwrap();
        self.table.tell(HnswMessage::LoadFromDb { embeddings });
        self
    }

    fn index(&mut self, tools: Vec<AdapterTool>) -> Result<(), VectorDbError> {
        let empty = self.table.rows().is_empty();
        let batch = self.adapter.index_tools(tools, empty, true);
        if let Some(message) = batch.reinitialize {
            self.table.tell(message);
        }
        for write in batch.writes {
            self.table.write(write);
        }
        match batch.error {
            Some(e) => Err(e),
            None => Ok(()),
        }
    }

    fn search(
        &mut self,
        query: &[f32],
        k: usize,
        extension_name: Option<&str>,
    ) -> Result<Vec<AdapterTool>, VectorDbError> {
        let query = bits(query);
        let message = self.adapter.db.neighbor_query(&query, k)?;
        let neighbors = Some(self.table.tell(message));
        let rows = self.table.rows();
        self.adapter
            .search_tools(&query, k, extension_name, neighbors, &rows)
    }

    fn clear(&mut self) {
        self.table.delete_all();
        let message = self.adapter.clear_tools();
        self.table.tell(message);
    }
}

fn map(entries: &[(&str, &str)]) -> Metadata {
    let mut m = Metadata::new();
    for (k, v) in entries {
        m.insert(k.to_string(), v.to_string());
    }
    m
}

fn tool(id: &str, name: &str, description: &str, embedding: &[f32]) -> ToolRecord {
    ToolRecord {
        id: id.to_string(),
        name: name.to_string(),
        description: description.to_string(),
        embedding: bits(embedding),
        metadata: Metadata::new(),
    }
}

fn message(id: &str, session: &str, content: &str, time: i64, embedding: &[f32]) -> MessageRecord {
    MessageRecord {
        message_id: id.to_string(),
        session_id: session.to_string(),
        content: content.to_string(),
        role: "user".to_string(),
        timestamp: time,
        embedding: bits(embedding),
        metadata: Metadata::new(),
    }
}

fn adapter_tool(name: &str, description: &str, ext: &str, vector: Vec<f32>) -> AdapterTool {
    AdapterTool {
        tool_name: name.to_string(),
        description: description.to_string(),
        schema: r#"{"type": "object"}"#.to_string(),
        vector: bits(&vector),
        extension_name: ext.to_string(),
    }
}

#[test]
fn test_vector_storage_record_conversions() {
    let metadata = map(&[("schema", "test_schema")]);
    let tool_record = ToolRecord {
        id: "tool_1".to_string(),
        name: "test_tool".to_string(),
        description: "A test tool".to_string(),
        embedding: bits(&[0.1, 0.2, 0.3]),
        metadata: metadata.clone(),
    };

    let storage_record: VectorStorageRecord = tool_record.clone().into();
    assert_eq!(storage_record.id, "tool_1");
    assert_eq!(storage_record.content, "A test tool");
    assert_eq!(floats(&storage_record.embedding), vec![0.1, 0.2, 0.3]);
    assert_eq!(
        storage_record.metadata.get("name"),
        Some(&"test_tool".to_string())
    );
    assert_eq!(
        storage_record.metadata.get("record_type"),
        Some(&"tool".to_string())
    );

    let converted_tool: ToolRecord = storage_record.into();
    assert_eq!(converted_tool.id, tool_record.id);
    assert_eq!(converted_tool.name, tool_record.name);
    assert_eq!(converted_tool.description, tool_record.description);
    assert_eq!(converted_tool.embedding, tool_record.embedding);
    assert_eq!(
        converted_tool.metadata.get("schema"),
        Some(&"test_schema".to_string())
    );
    assert_eq!(converted_tool.metadata.get("name"), None);
    assert_eq!(converted_tool.metadata.get("record_type"), None);
}

#[test]
fn test_message_record_conversions() {
    let message_record = message(
        "msg_1",
        "session_1",
        "Hello world",
        1234567890,
        &[0.1, 0.2, 0.3],
    );

    let storage_record: VectorStorageRecord = message_record.clone().into();
    assert_eq!(storage_record.id, "msg_1");
    assert_eq!(storage_record.content, "Hello world");
    assert_eq!(
        storage_record.metadata.get("record_type"),
        Some(&"message".to_string())
    );
    assert_eq!(
        storage_record.metadata.get("session_id"),
        Some(&"session_1".to_string())
    );
    assert_eq!(
        storage_record.metadata.get("role"),
        Some(&"user".to_string())
    );

    let converted_message: MessageRecord = storage_record.into();
    assert_eq!(converted_message.message_id, message_record.message_id);
    assert_eq!(converted_message.session_id, message_record.session_id);
    assert_eq!(converted_message.content, message_record.content);
    assert_eq!(converted_message.role, message_record.role);
    assert_eq!(converted_message.timestamp, message_record.timestamp);
}

#[test]
fn test_document_record_conversions() {
    let doc_record = DocumentRecord {
        document_id: "doc_1".to_string(),
        file_path: "/path/to/file.txt".to_string(),
        title: "Test Document".to_string(),
        content: "Document content".to_string(),
        content_type: "text".to_string(),
        chunk_index: 0,
        total_chunks: 1,
        file_size: 1024,
        last_modified: 1234567890,
        embedding: bits(&[0.1, 0.2, 0.3]),
        metadata: Metadata::new(),
    };

    let storage_record: VectorStorageRecord = doc_record.clone().into();
    assert_eq!(storage_record.id, "doc_1");
    assert_eq!(storage_record.content, "Document content");
    assert_eq!(
        storage_record.metadata.get("record_type"),
        Some(&"document".to_string())
    );
    assert_eq!(
        storage_record.metadata.get("file_path"),
        Some(&"/path/to/file.txt".to_string())
    );
    assert_eq!(
        storage_record.metadata.get("content_type"),
        Some(&"text".to_string())
    );

    let converted_doc: DocumentRecord = storage_record.into();
    assert_eq!(converted_doc.document_id, doc_record.document_id);
    assert_eq!(converted_doc.file_path, doc_record.file_path);
    assert_eq!(converted_doc.content, doc_record.content);
    assert_eq!(converted_doc.content_type, doc_record.content_type);
    assert_eq!(converted_doc.chunk_index, doc_record.chunk_index);
    assert_eq!(converted_doc.title, "Test Document");
    assert_eq!(converted_doc.total_chunks, 1);
    assert_eq!(converted_doc.file_size, 1024);
    assert_eq!(converted_doc.last_modified, 1234567890);
}

#[test]
fn test_generic_vectordb_operations() {
    let mut store = Store::new("generic_test.db", 3, 1000);

    store.add(tool("tool_1", "test_tool", "A test tool", &[0.1, 0.2, 0.3]));
    store.add(message(
        "msg_1",
        "session_1",
        "Hello world",
        1234567890,
        &[0.4, 0.5, 0.6],
    ));
    store.add(DocumentRecord {
        document_id: "doc_1".to_string(),
        file_path: "/test.txt".to_string(),
        title: "Test".to_string(),
        content: "Document content".to_string(),
        content_type: "text".to_string(),
        chunk_index: 0,
        total_chunks: 1,
        file_size: 100,
        last_modified: 1234567890,
        embedding: bits(&[0.7, 0.8, 0.9]),
        metadata: Metadata::new(),
    });

    let tool_results: Vec<ToolRecord> = store.search(&[0.1, 0.2, 0.3], 5, None);
    assert_eq!(tool_results.len(), 1);
    assert_eq!(tool_results[0].name, "test_tool");

    let msg_results: Vec<MessageRecord> = store.search(&[0.4, 0.5, 0.6], 5, None);
    assert_eq!(msg_results.len(), 1);
    assert_eq!(msg_results[0].content, "Hello world");

    let doc_results: Vec<DocumentRecord> = store.search(&[0.7, 0.8, 0.9], 5, None);
    assert_eq!(doc_results.len(), 1);
    assert_eq!(doc_results[0].content, "Document content");

    assert_eq!(store.stat("total_records"), Some(StatValue::Number(3)));
    assert_eq!(store.stat("tool_count"), Some(StatValue::Number(1)));
    assert_eq!(store.stat("message_count"), Some(StatValue::Number(1)));
    assert_eq!(store.stat("document_count"), Some(StatValue::Number(1)));
    assert_eq!(store.stat("dimension"), Some(StatValue::Number(3)));
    assert_eq!(
        store.stat("db_path"),
        Some(StatValue::Text("generic_test.db".to_string()))
    );
    assert_eq!(store.stat("unknown_count"), None);
}

#[test]
fn test_type_filtering_in_search() {
    let mut store = Store::new("filter_test.db", 2, 1000);
    let similar_embedding = [0.5, 0.5];

    store.add(tool(
        "tool_1",
        "similar_tool",
        "Similar content",
        &similar_embedding,
    ));
    store.add(message(
        "msg_1",
        "session_1",
        "Similar content",
        1234567890,
        &similar_embedding,
    ));

    let tool_results: Vec<ToolRecord> = store.search(&similar_embedding, 10, None);
    assert_eq!(tool_results.len(), 1);
    assert_eq!(tool_results[0].name, "similar_tool");

    let msg_results: Vec<MessageRecord> = store.search(&similar_embedding, 10, None);
    assert_eq!(msg_results.len(), 1);
    assert_eq!(msg_results[0].content, "Similar content");
}

#[test]
fn test_session_filtering_for_messages() {
    let mut store = Store::new("session_filter_test.db", 2, 1000);

    store.add(message(
        "msg_1",
        "session_a",
        "Message from session A",
        1234567890,
        &[0.1, 0.2],
    ));
    store.add(message(
        "msg_2",
        "session_b",
        "Message from session B",
        1234567891,
        &[0.2, 0.3],
    ));

    let filter = map(&[("session_id", "session_a")]);
    let filtered_results: Vec<MessageRecord> = store.search(&[0.1, 0.2], 10, Some(filter));
    assert_eq!(filtered_results.len(), 1);
    assert_eq!(filtered_results[0].session_id, "session_a");
}

#[test]
fn test_adapter_creation() {
    let mut adapter = ToolStore::new("test_adapter");
    adapter.clear();

    adapter
        .index(vec![adapter_tool(
            "test_tool",
            "A test tool",
            "test",
            vec![0.1; 1536],
        )])
        .unwrap();

    let results = adapter.search(&vec![0.1; 1536], 1, None).unwrap();

    assert_eq!(results.len(), 1);
    assert_eq!(results[0].tool_name, "test_tool");

    let affected = adapter.table.delete("test_tool");
    assert!(adapter.adapter.remove_tool(affected));
}

#[test]
fn test_lightweight_vectordb_basic_operations() {
    let mut store = Store::new("test.db", 128, 1000);

    let record = ToolRecord {
        id: "test_tool_1".to_string(),
        name: "test_tool".to_string(),
        description: "A test tool for vector database".to_string(),
        embedding: bits(&vec![0.1; 128]),
        metadata: map(&[
            ("schema", r#"{"type": "object"}"#),
            ("extension_name", "test_extension"),
        ]),
    };
    let write = store.db.add_tool(record, true).unwrap();
    store.table.write(write);

    let query = vec![0.1; 128];
    let results: Vec<ToolRecord> = store.search(&query, 5, None);
    assert_eq!(results.len(), 1);
    assert_eq!(results[0].name, "test_tool");
    assert_eq!(results[0].description, "A test tool for vector database");

    let filter = map(&[("extension_name", "test_extension")]);
    let filtered_results: Vec<ToolRecord> = store.search(&query, 5, Some(filter));
    assert_eq!(filtered_results.len(), 1);

    let wrong_filter = map(&[("extension_name", "wrong_extension")]);
    let no_results: Vec<ToolRecord> = store.search(&query, 5, Some(wrong_filter));
    assert_eq!(no_results.len(), 0);

    let affected = store.table.delete("test_tool_1");
    assert!(store.db.remove_tool(affected));
    let again = store.table.delete("test_tool_1");
    assert!(!store.db.remove_record(again));

    let empty_results: Vec<ToolRecord> = store.search(&query, 5, None);
    assert_eq!(empty_results.len(), 0);
}

#[test]
fn test_lightweight_vectordb_multiple_tools() {
    let mut store = Store::new("test_multi.db", 128, 1000);

    for i in 0..10 {
        let mut embedding = vec![0.0; 128];
        embedding[i % 128] = 1.0;
        let record = ToolRecord {
            id: format!("tool_{}", i),
            name: format!("Tool {}", i),
            description: format!("Description for tool {}", i),
            embedding: bits(&embedding),
            metadata: map(&[
                ("schema", &format!(r#"{{"id": {}}}"#, i)),
                ("extension_name", &format!("extension_{}", i % 3)),
            ]),
        };
        store.add(record);
    }

    let query = vec![0.5; 128];
    let results: Vec<ToolRecord> = store.search(&query, 20, None);
    assert_eq!(results.len(), 10);

    let filter = map(&[("extension_name", "extension_0")]);
    let filtered: Vec<ToolRecord> = store.search(&query, 20, Some(filter));
    assert_eq!(filtered.len(), 4);

    store.table.delete_all();
    let message = store.db.clear();
    store.table.tell(message);

    let empty: Vec<ToolRecord> = store.search(&query, 20, None);
    assert_eq!(empty.len(), 0);
}

#[test]
fn test_heterogeneous_vectors_same_session() {
    let mut adapter = ToolStore::new("test_heterogeneous_same");
    adapter.clear();

    adapter
        .index(vec![
            adapter_tool(
                "tool_512_1",
                "First tool with 512 dimensions",
                "test",
                vec![0.5; 512],
            ),
            adapter_tool(
                "tool_512_2",
                "Second tool with 512 dimensions",
                "test",
                vec![0.5; 512],
            ),
        ])
        .unwrap();

    let result = adapter.index(vec![adapter_tool(
        "tool_768_1",
        "Tool with 768 dimensions",
        "test",
        vec![0.5; 768],
    )]);
    assert_eq!(
        result,
        Err(VectorDbError::DimensionMismatch {
            expected: 512,
            got: 768
        })
    );

    let results = adapter.search(&vec![0.5; 512], 5, None).unwrap();
    assert_eq!(results.len(), 2);
}

#[test]
fn test_schema_migration_new_table() {
    let mut adapter1 = ToolStore::new("test_migration_v1");
    adapter1.clear();
    adapter1
        .index(vec![adapter_tool(
            "legacy_tool_1",
            "Tool from v1 with 512 dimensions",
            "v1",
            vec![0.5; 512],
        )])
        .unwrap();

    let mut adapter2 = ToolStore::new("test_migration_v2");
    adapter2.clear();
    adapter2
        .index(vec![adapter_tool(
            "new_tool_1",
            "Tool from v2 with 768 dimensions",
            "v2",
            vec![0.5; 768],
        )])
        .unwrap();

    let results_v1 = adapter1.search(&vec![0.5; 512], 5, None).unwrap();
    let results_v2 = adapter2.search(&vec![0.5; 768], 5, None).unwrap();
    assert_eq!(results_v1.len(), 1);
    assert_eq!(results_v2.len(), 1);
}

#[test]
fn test_dimension_detection_and_validation() {
    let mut adapter = ToolStore::new("test_dimension_detection");
    adapter.clear();

    adapter
        .index(vec![adapter_tool(
            "tool_1024",
            "Tool with 1024 dimensions",
            "test",
            vec![0.5; 1024],
        )])
        .unwrap();
    assert_eq!(adapter.adapter.db.dimension, 1024);

    let refused = adapter.index(vec![adapter_tool(
        "tool_2048",
        "Tool with 2048 dimensions",
        "test",
        vec![0.5; 2048],
    )]);
    assert!(refused.is_err());

    adapter
        .index(vec![adapter_tool(
            "tool_1024_extra",
            "Another tool with 1024 dimensions",
            "test",
            vec![0.5; 1024],
        )])
        .unwrap();
}

#[test]
fn test_migration_strategy() {
    let named = |dimension: usize| {
        vec![
            AdapterTool {
                tool_name: "file_reader".to_string(),
                description: "Reads files from the filesystem".to_string(),
                schema: r#"{"type": "object", "properties": {"path": {"type": "string"}}}"#
                    .to_string(),
                vector: bits(&vec![0.5; dimension]),
                extension_name: "core".to_string(),
            },
            AdapterTool {
                tool_name: "http_client".to_string(),
                description: "Makes HTTP requests".to_string(),
                schema: r#"{"type": "object", "properties": {"url": {"type": "string"}}}"#
                    .to_string(),
                vector: bits(&vec![0.5; dimension]),
                extension_name: "core".to_string(),
            },
        ]
    };

    let mut adapter_old = ToolStore::new("production_tools");
    adapter_old.clear();
    adapter_old.index(named(1536)).unwrap();
    let results = adapter_old.search(&vec![0.5; 1536], 10, None).unwrap();
    assert_eq!(results.len(), 2);

    let mut adapter_new = ToolStore::new("production_tools_v2");
    adapter_new.clear();
    adapter_new.index(named(3072)).unwrap();
    let results_new = adapter_new.search(&vec![0.5; 3072], 10, None).unwrap();
    assert_eq!(results_new.len(), 2);
}

#[test]
fn test_provider_switching_implications() {
    let mut adapter = ToolStore::new("test_provider_switch");
    adapter.clear();

    adapter
        .index(vec![adapter_tool(
            "calculator",
            "Performs mathematical calculations",
            "math",
            vec![0.5; 1536],
        )])
        .unwrap();

    let refused = adapter.index(vec![adapter_tool(
        "calculator",
        "Performs mathematical calculations",
        "math",
        vec![0.5; 768],
    )]);
    assert!(refused.is_err());

    let results = adapter.search(&vec![0.5; 1536], 5, None).unwrap();
    assert_eq!(results.len(), 1);
}

#[test]
fn persisted_tool_is_found_after_reopening() {
    let mut vectordb = ToolStore::new("migration_test");
    let mut vector = vec![0.0; 768];
    vector[3] = 1.0;
    vectordb
        .index(vec![AdapterTool {
            tool_name: "test_tool".to_string(),
            description: "A test tool for migration".to_string(),
            schema: "{}".to_string(),
            vector: bits(&vector),
            extension_name: "test".to_string(),
        }])
        .unwrap();

    let mut vectordb2 = vectordb.reopen();
    assert_eq!(vectordb2.adapter.db.dimension, 768);
    let results = vectordb2.search(&vec![0.25; 768], 10, None).unwrap();
    assert_eq!(results.len(), 1);
    assert_eq!(results[0].tool_name, "test_tool");
    assert_eq!(results[0].schema, "{}");
    assert_eq!(results[0].extension_name, "test");
    assert_eq!(floats(&results[0].vector), vector);
}

#[test]
fn tools_are_found_within_their_extension() {
    let mut vectordb = ToolStore::new("ollama_test_tools");
    let mut one = vec![0.0; 8];
    one[0] = 1.0;
    let mut two = vec![0.0; 8];
    two[1] = 1.0;
    vectordb
        .index(vec![
            adapter_tool("file_reader", "Reads files", "filesystem", one.clone()),
            adapter_tool("web_search", "Searches the web", "web", two.clone()),
        ])
        .unwrap();

    let results = vectordb.search(&one, 2, None).unwrap();
    assert_eq!(results[0].tool_name, "file_reader");
    let web = vectordb.search(&one, 10, Some("web")).unwrap();
    assert_eq!(web.len(), 1);
    assert_eq!(web[0].tool_name, "web_search");
}

#[test]
fn statistics_name_the_tools_and_the_dimension() {
    let mut store = Store::new("test_sqlite.db", 768, 1000);
    let along = |axis: usize| -> Vec<f32> {
        let mut embedding = vec![0.0; 768];
        embedding[axis] = 1.0;
        embedding
    };
    store.add(tool(
        "tool_code_search",
        "code_search",
        "Search for code patterns in the repository",
        &along(0),
    ));
    store.add(tool(
        "tool_file_write",
        "file_write",
        "Write content to a file",
        &along(1),
    ));
    store.add(tool(
        "tool_terminal_execute",
        "terminal_execute",
        "Execute commands in the terminal",
        &along(2),
    ));

    let mut query = along(0);
    query[1] = 0.1;
    let results: Vec<ToolRecord> = store.search(&query, 2, None);
    assert_eq!(results.len(), 2);
    assert_eq!(results[0].name, "code_search");
    assert_eq!(store.stat("total_tools"), Some(StatValue::Number(3)));
    assert_eq!(store.stat("dimension"), Some(StatValue::Number(768)));
    assert_eq!(store.stat("tool_count"), Some(StatValue::Number(3)));
}

#[test]
fn records_are_listed_by_kind() {
    let mut store = Store::new("list.db", 2, 1000);
    store.add(message("m", "s", "Hi", -5, &[0.5, 0.25]));
    store.add(tool("t", "name", "About", &[1.0, 2.0]));
    let rows = store.table.rows();

    let all = store.db.list_storage_records(&rows).unwrap();
    assert_eq!(all.len(), 2);
    assert_eq!(all[0].id(), "m");
    assert_eq!(floats(all[0].embedding()), vec![0.5, 0.25]);
    assert_eq!(
        all[0].metadata().get("timestamp"),
        Some(&"-5".to_string())
    );

    let tools = store.db.list_tools(&rows).unwrap();
    assert_eq!(tools.len(), 1);
    assert_eq!(tools[0].name, "name");
    let messages: Vec<MessageRecord> =
        VectorDatabase::<MessageRecord>::list_records(&store.db, &rows).unwrap();
    assert_eq!(messages.len(), 1);
    assert_eq!(messages[0].timestamp, -5);
    let documents: Vec<DocumentRecord> =
        VectorDatabase::<DocumentRecord>::list_records(&store.db, &rows).unwrap();
    assert_eq!(documents.len(), 0);
}

#[test]
fn a_query_of_another_length_is_refused() {
    let mut store = ToolStore::new("queries");
    assert_eq!(
        store.search(&[0.5; 4], 1, None).unwrap_err(),
        VectorDbError::QueryDimensionMismatch {
            expected: 1536,
            got: 4
        }
    );
}

fn note(id: &str, content: &str) -> VectorStorageRecord {
    let mut metadata = Metadata::new();
    metadata.insert("record_type".to_string(), "note".to_string());
    VectorStorageRecord {
        id: id.to_string(),
        content: content.to_string(),
        embedding: bits(&[1.0, 0.5]),
        metadata,
    }
}

#[test]
fn the_list_holds_the_last_record_of_each_identifier() {
    let db = SqliteVectorDB::new("t".to_string(), 2, 1000);
    let mut table = Table::new(2, 1000);
    let listed = |table: &Table| -> Vec<(String, String)> {
        db.list_storage_records(&table.rows_by_id())
            .unwrap()
            .into_iter()
            .map(|r| (r.id, r.content))
            .collect()
    };
    let pairs = |entries: &[(&str, &str)]| -> Vec<(String, String)> {
        entries.iter().map(|(a, b)| (a.to_string(), b.to_string())).collect()
    };
    for (id, content) in [("b", "1"), ("é", "2"), ("a", "3"), ("Z", "4"), ("ab", "5"), ("𝄞", "6")] {
        table.write(db.add_storage_record(note(id, content), true).unwrap());
    }
    assert_eq!(
        listed(&table),
        pairs(&[("Z", "4"), ("a", "3"), ("ab", "5"), ("b", "1"), ("é", "2"), ("𝄞", "6")])
    );
    table.write(db.add_storage_record(note("a", "7"), true).unwrap());
    assert_eq!(
        listed(&table),
        pairs(&[("Z", "4"), ("a", "7"), ("ab", "5"), ("b", "1"), ("é", "2"), ("𝄞", "6")])
    );
    assert!(db.remove_record(table.delete("ab")));
    assert!(!db.remove_record(table.delete("ab")));
    assert!(!db.remove_record(table.delete("never")));
    assert_eq!(
        listed(&table),
        pairs(&[("Z", "4"), ("a", "7"), ("b", "1"), ("é", "2"), ("𝄞", "6")])
    );
    table.write(db.add_storage_record(note("ab", "8"), true).unwrap());
    assert_eq!(listed(&table)[2], ("ab".to_string(), "8".to_string()));
    table.delete_all();
    assert_eq!(listed(&table), vec![]);
    table.write(db.add_storage_record(note("x", "9"), true).unwrap());
    assert_eq!(listed(&table), pairs(&[("x", "9")]));
}

#[test]
fn the_listed_tools_are_the_tools_that_were_added() {
    let db = SqliteVectorDB::new("t".to_string(), 2, 1000);
    let mut table = Table::new(2, 1000);
    table.write(db.add_storage_record(note("m", "no tool"), true).unwrap());
    for id in ["z", "a"] {
        let mut metadata = Metadata::new();
        metadata.insert("schema".to_string(), "{}".to_string());
        let tool = ToolRecord {
            id: id.to_string(),
            name: format!("{}-name", id),
            description: format!("{} does something", id),
            embedding: bits(&[0.25, 2.0]),
            metadata,
        };
        table.write(db.add_tool(tool, true).unwrap());
    }
    let tools = db.list_tools(&table.rows_by_id()).unwrap();
    assert_eq!(tools.len(), 2);
    for (tool, id) in tools.iter().zip(["a", "z"]) {
        assert_eq!(tool.id, id);
        assert_eq!(tool.name, format!("{}-name", id));
        assert_eq!(tool.description, format!("{} does something", id));
        assert_eq!(tool.embedding, bits(&[0.25, 2.0]));
        assert_eq!(tool.metadata.entries().len(), 1);
        assert_eq!(tool.metadata.get("schema"), Some(&"{}".to_string()));
    }
}

#[test]
fn a_filter_leaves_out_what_fails_it() {
    let db = SqliteVectorDB::new("t".to_string(), 2, 1000);
    let mut table = Table::new(2, 1000);
    for (i, colour) in ["red", "blue", "red", "green"].iter().enumerate() {
        let mut record = note(&i.to_string(), &format!("content {}", i));
        record.embedding = bits(&[1.0, i as f32]);
        record.metadata.insert("colour".to_string(), colour.to_string());
        table.write(db.add_storage_record(record, true).unwrap());
    }
    let query = bits(&[1.0, 0.0]);
    let neighbors = table.tell(db.neighbor_query(&query, 4).unwrap());
    let rows = table.rows();
    let ids = |filter: Option<&Metadata>| -> Vec<String> {
        db.search_storage_records(&query, 4, filter, Some(neighbors.clone()), &rows)
            .unwrap()
            .into_iter()
            .map(|r| r.id)
            .collect()
    };
    let all = ids(None);
    assert_eq!(all.len(), 4);
    let mut red = Metadata::new();
    red.insert("colour".to_string(), "red".to_string());
    let kept: Vec<String> = all.iter().filter(|id| *id == "0" || *id == "2").cloned().collect();
    assert_eq!(ids(Some(&red)), kept);
    assert_eq!(ids(Some(&Metadata::new())), all);
    let few = |limit: usize, filter: Option<&Metadata>| -> Vec<String> {
        db.search_storage_records(&query, limit, filter, Some(neighbors.clone()), &rows)
            .unwrap()
            .into_iter()
            .map(|r| r.id)
            .collect()
    };
    assert_eq!(few(2, None), all[..2].to_vec());
    assert_eq!(few(9, Some(&red)), kept);
    assert!(db.remove_record(table.delete("2")));
    let rows = table.rows();
    let left = db
        .search_storage_records(&query, 4, Some(&red), Some(neighbors.clone()), &rows)
        .unwrap();
    assert_eq!(left.into_iter().map(|r| r.id).collect::<Vec<String>>(), vec!["0"]);
}
