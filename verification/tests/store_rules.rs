use std::collections::hash_map::DefaultHasher;
use std::collections::HashMap;
use std::hash::{Hash, Hasher};
use vectordb::document_vectordb::DocumentRecord;
use vectordb::hnsw::{
    content_to_point_id, hash_to_point_id, HnswAction, HnswActor, HnswMessage, StoredEmbedding,
    VectorDbError,
};
use vectordb::message_vectordb::MessageRecord;
use vectordb::matching::{id_at_point, select_matches, IndexedRow};
use vectordb::metadata::Metadata;
use vectordb::records::{ToolRecord, VectorStorageRecord};
use vectordb::sqlite_vectordb::{
    collect_records, read_row, SqliteVectorDB, StoredRow, CURRENT_SCHEMA_VERSION,
};
use vectordb::tool_vectordb::{
    generate_table_id, table_id, LocalTime, SqliteAdapter, ToolRecord as AdapterTool,
};

fn map(entries: &[(&str, &str)]) -> Metadata {
    let mut m = Metadata::new();
    for (k, v) in entries {
        m.insert(k.to_string(), v.to_string());
    }
    m
}

fn record(id: &str, content: &str, embedding: &[f32], metadata: Metadata) -> VectorStorageRecord {
    VectorStorageRecord {
        id: id.to_string(),
        content: content.to_string(),
        embedding: embedding.iter().map(|v| v.to_bits()).collect(),
        metadata,
    }
}

fn store() -> SqliteVectorDB {
    SqliteVectorDB::new("records.db".to_string(), 2, 1000)
}

fn row_of(db: &SqliteVectorDB, r: VectorStorageRecord) -> StoredRow {
    db.add_storage_record(r, true).unwrap().row
}

fn point(content: &str, kind: &str, max: usize) -> usize {
    let text = format!("{}:{}", kind, content);
    (farmhash::hash64(text.as_bytes()) % max as u64) as usize
}

/// What is said of bytes that keep no embedding.
fn blob_reason(bytes: &[u8]) -> String {
    bincode::deserialize::<Vec<f32>>(bytes).unwrap_err().to_string()
}

/// What is said of text that holds no metadata.
fn metadata_reason(json: &str) -> String {
    serde_json::from_str::<HashMap<String, String>>(json).unwrap_err().to_string()
}

#[test]
fn an_embedding_is_kept_as_its_length_and_its_components() {
    let write = store()
        .add_storage_record(record("a", "x", &[1.0, -2.5], Metadata::new()), true)
        .unwrap();
    assert_eq!(
        write.row.embedding,
        vec![2, 0, 0, 0, 0, 0, 0, 0, 0, 0, 0x80, 0x3f, 0, 0, 0x20, 0xc0]
    );
    let floats: Vec<f32> = bincode::deserialize(&write.row.embedding).unwrap();
    assert_eq!(floats, vec![1.0, -2.5]);
    assert_eq!(write.embedding, vec![1.0_f32.to_bits(), (-2.5_f32).to_bits()]);
}

#[test]
fn metadata_is_kept_as_json() {
    let write = store()
        .add_storage_record(
            record("a", "x", &[0.0, 0.0], map(&[("k", "v\"\n"), ("record_type", "note")])),
            true,
        )
        .unwrap();
    let read: HashMap<String, String> = serde_json::from_str(&write.row.metadata).unwrap();
    assert_eq!(read.len(), 2);
    assert_eq!(read["k"], "v\"\n");
    assert_eq!(read["record_type"], "note");
}

#[test]
fn a_record_is_read_back_as_it_was_written() {
    let db = store();
    let row = row_of(
        &db,
        record("id", "content", &[0.1, 0.2], map(&[("a", "b"), ("c", "")])),
    );
    let back = read_row(&row).unwrap();
    assert_eq!(back.id, "id");
    assert_eq!(back.content, "content");
    assert_eq!(back.embedding, vec![0.1_f32.to_bits(), 0.2_f32.to_bits()]);
    assert_eq!(back.metadata.get("a"), Some(&"b".to_string()));
    assert_eq!(back.metadata.get("c"), Some(&"".to_string()));
    assert_eq!(back.metadata.entries().len(), 2);
}

#[test]
fn a_record_of_another_length_is_refused() {
    let db = store();
    let refused = db.add_storage_record(record("a", "x", &[1.0], Metadata::new()), true);
    assert_eq!(
        refused.unwrap_err(),
        VectorDbError::DimensionMismatch {
            expected: 2,
            got: 1
        }
    );
    let rows = vec![];
    let refused = db.search_storage_records(&vec![1, 2, 3], 1, None, Some(vec![]), &rows);
    assert_eq!(
        refused.unwrap_err(),
        VectorDbError::QueryDimensionMismatch {
            expected: 2,
            got: 3
        }
    );
    let refused = db.search_storage_records(&vec![1, 2], 1, None, None, &rows);
    assert_eq!(refused.unwrap_err(), VectorDbError::NotInitialized);
}

#[test]
fn a_record_lies_at_the_hash_of_its_type_and_content() {
    let db = store();
    let write = db
        .add_storage_record(
            record("a", "héllo", &[1.0, 2.0], map(&[("record_type", "tool")])),
            false,
        )
        .unwrap();
    assert_eq!(write.point_id, point("héllo", "tool", 1000));
    assert!(write.create_index);
    let write = db
        .add_storage_record(record("a", "héllo", &[1.0, 2.0], Metadata::new()), true)
        .unwrap();
    assert_eq!(write.point_id, point("héllo", "unknown", 1000));
    assert!(!write.create_index);
    assert_eq!(content_to_point_id("héllo", "unknown", 7), point("héllo", "unknown", 7));
}

#[test]
fn identifiers_are_hashed_by_the_standard_hasher() {
    let db = store();
    let mut hasher = DefaultHasher::new();
    "some id".hash(&mut hasher);
    let expected = (hasher.finish() % 1000) as usize;
    assert_eq!(db.record_id_to_point_id("some id"), expected);
    assert_eq!(hash_to_point_id(12345, 1000), 345);
}

#[test]
fn unreadable_columns_are_named() {
    let db = store();
    let good = row_of(&db, record("a", "x", &[1.0, 2.0], Metadata::new()));
    let mut short = good.clone();
    short.embedding.pop();
    assert_eq!(
        read_row(&short).unwrap_err(),
        VectorDbError::BadColumn {
            column: 2,
            blob: true,
            reason: blob_reason(&short.embedding)
        }
    );
    let mut empty = good.clone();
    empty.embedding = vec![1, 0, 0];
    assert_eq!(
        read_row(&empty).unwrap_err().message(),
        format!("Conversion error from type Blob at index: 2, {}", blob_reason(&[1, 0, 0]))
    );
    let mut huge = good.clone();
    huge.embedding = vec![0xff; 20];
    assert_eq!(
        read_row(&huge).unwrap_err().message(),
        format!("Conversion error from type Blob at index: 2, {}", blob_reason(&[0xff; 20]))
    );
    let mut long = good.clone();
    long.embedding.push(9);
    assert_eq!(read_row(&long).unwrap().embedding.len(), 2);
    let mut bad = good.clone();
    bad.metadata = "{\"a\": 1}".to_string();
    assert_eq!(
        read_row(&bad).unwrap_err(),
        VectorDbError::BadColumn {
            column: 3,
            blob: false,
            reason: "invalid type: integer `1`, expected a string at line 1 column 7".to_string()
        }
    );
    let listed = db.list_storage_records(&vec![good.clone(), bad.clone(), short.clone()]);
    assert_eq!(
        listed.unwrap_err(),
        VectorDbError::BadColumn {
            column: 3,
            blob: false,
            reason: metadata_reason("{\"a\": 1}")
        }
    );
    assert_eq!(
        db.load_index(&vec![good.clone(), bad.clone(), short.clone(), huge]).unwrap_err(),
        VectorDbError::BadColumn {
            column: 1,
            blob: true,
            reason: blob_reason(&short.embedding)
        }
    );
    let loaded = db.load_index(&vec![good, bad]).unwrap();
    assert_eq!(loaded.len(), 2);
    assert_eq!(loaded[1].record_type, "unknown");
    assert_eq!(
        db.stats(&vec!["{}".to_string(), "[]".to_string()]).unwrap_err(),
        VectorDbError::BadColumn {
            column: 0,
            blob: false,
            reason: metadata_reason("[]")
        }
    );
}

#[test]
fn errors_have_texts() {
    let text = |e: VectorDbError| e.message();
    assert_eq!(
        text(VectorDbError::DimensionMismatch {
            expected: 1536,
            got: 768
        }),
        "Dimension mismatch: expected 1536, got 768"
    );
    assert_eq!(
        text(VectorDbError::QueryDimensionMismatch {
            expected: 2,
            got: 0
        }),
        "Query dimension mismatch: expected 2, got 0"
    );
    assert_eq!(text(VectorDbError::NotInitialized), "HNSW index not initialized");
    assert_eq!(
        text(VectorDbError::NoRecord { point_id: 10 }),
        "No record found for point_id 10"
    );
    assert_eq!(
        text(VectorDbError::BadMetadata {
            reason: "expected value at line 1 column 1".to_string()
        }),
        "Failed to parse metadata: expected value at line 1 column 1"
    );
    assert_eq!(
        text(VectorDbError::BadColumn {
            column: 2,
            blob: true,
            reason: "io error".to_string()
        }),
        "Conversion error from type Blob at index: 2, io error"
    );
    assert_eq!(
        text(VectorDbError::BadColumn {
            column: 3,
            blob: false,
            reason: "".to_string()
        }),
        "Conversion error from type Text at index: 3, "
    );
}

#[test]
fn a_point_leads_to_its_record() {
    let db = store();
    let rows = vec![
        row_of(&db, record("a", "one", &[1.0, 2.0], Metadata::new())),
        row_of(&db, record("b", "two", &[1.0, 2.0], Metadata::new())),
    ];
    let at = point("two", "unknown", 1000);
    assert_eq!(db.point_id_to_record_id(at, &rows).unwrap(), "b");
    let nowhere = (0..1000)
        .find(|p| *p != at && *p != point("one", "unknown", 1000))
        .unwrap();
    assert_eq!(
        db.point_id_to_record_id(nowhere, &rows).unwrap_err(),
        VectorDbError::NoRecord { point_id: nowhere }
    );
    let mut broken = rows.clone();
    broken[0].metadata = "?".to_string();
    assert_eq!(
        db.point_id_to_record_id(at, &broken).unwrap_err(),
        VectorDbError::BadMetadata {
            reason: metadata_reason("?")
        }
    );
}

#[test]
fn a_search_stops_at_its_limit_and_skips_what_it_cannot_find() {
    let db = store();
    let rows = vec![
        row_of(&db, record("a", "one", &[1.0, 2.0], map(&[("x", "1")]))),
        row_of(&db, record("b", "two", &[1.0, 2.0], map(&[("x", "2")]))),
        row_of(&db, record("c", "three", &[1.0, 2.0], map(&[("x", "1")]))),
    ];
    let p = |c: &str| point(c, "unknown", 1000);
    let nowhere = (0..1000)
        .find(|q| *q != p("one") && *q != p("two") && *q != p("three"))
        .unwrap();
    let query = vec![0, 0];
    let ids = |limit: usize, filter: Option<&Metadata>, neighbors: Vec<usize>| -> Vec<String> {
        db.search_storage_records(&query, limit, filter, Some(neighbors), &rows)
            .unwrap()
            .into_iter()
            .map(|r| r.id)
            .collect()
    };
    let near = vec![nowhere, p("three"), p("two"), p("one")];
    assert_eq!(ids(10, None, near.clone()), vec!["c", "b", "a"]);
    assert_eq!(ids(2, None, near.clone()), vec!["c", "b"]);
    let filter = map(&[("x", "1")]);
    assert_eq!(ids(10, Some(&filter), near.clone()), vec!["c", "a"]);
    assert_eq!(ids(1, Some(&filter), near), vec!["c"]);
    assert_eq!(ids(3, None, vec![]), Vec::<String>::new());
}

#[test]
fn what_is_not_a_tool_is_left_out_of_a_tool_search() {
    let db = store();
    let tool = ToolRecord {
        id: "t".to_string(),
        name: "tool".to_string(),
        description: "same".to_string(),
        embedding: vec![0, 0],
        metadata: Metadata::new(),
    };
    let rows = vec![
        db.add_tool(tool, true).unwrap().row,
        row_of(&db, record("n", "note", &[0.0, 0.0], map(&[("record_type", "note")]))),
    ];
    let near = vec![point("note", "note", 1000), point("same", "tool", 1000)];
    let found = db.search_similar(&vec![0, 0], 5, None, Some(near), &rows).unwrap();
    assert_eq!(found.len(), 1);
    assert_eq!(found[0].id, "t");
    let all = db.list_tools(&rows).unwrap();
    assert_eq!(all.len(), 1);
    assert_eq!(all[0].name, "tool");
}

#[test]
fn a_stored_record_without_a_name_is_unknown() {
    let tool = ToolRecord::from(record("a", "x", &[], map(&[("record_type", "tool"), ("k", "v")])));
    assert_eq!(tool.name, "unknown");
    assert_eq!(tool.metadata.entries(), &vec![("k".to_string(), "v".to_string())]);
}

#[test]
fn numbers_that_cannot_be_read_are_zero() {
    let message = MessageRecord::from(record("a", "x", &[], map(&[("timestamp", "soon")])));
    assert_eq!(message.timestamp, 0);
    assert_eq!(message.session_id, "");
    let message = MessageRecord::from(record(
        "a",
        "x",
        &[],
        map(&[("timestamp", "-9223372036854775808")]),
    ));
    assert_eq!(message.timestamp, i64::MIN);
    let message = MessageRecord::from(record(
        "a",
        "x",
        &[],
        map(&[("timestamp", "9223372036854775808")]),
    ));
    assert_eq!(message.timestamp, 0);
    let document = DocumentRecord::from(record(
        "a",
        "x",
        &[],
        map(&[("file_size", "18446744073709551615"), ("chunk_index", "07"), ("total_chunks", "-1")]),
    ));
    assert_eq!(document.file_size, u64::MAX);
    assert_eq!(document.chunk_index, 7);
    assert_eq!(document.total_chunks, 0);
}

#[test]
fn statistics_add_up() {
    let db = store();
    let column: Vec<String> = vec![
        "{\"record_type\":\"tool\"}".to_string(),
        "{}".to_string(),
        "{\"record_type\":\"note\"}".to_string(),
        "{\"record_type\":\"tool\"}".to_string(),
    ];
    let stats = db.stats(&column).unwrap();
    assert_eq!(stats.total_records, 4);
    assert_eq!(stats.total_tools, 2);
    let sum: u64 = stats.type_counts.iter().map(|c| c.1).sum();
    assert_eq!(sum, 4);
    let counts: HashMap<String, u64> = stats.type_counts.into_iter().collect();
    assert_eq!(counts["tool"], 2);
    assert_eq!(counts["unknown"], 1);
    assert_eq!(counts["note"], 1);
}

#[test]
fn the_index_is_started_before_it_is_used() {
    let mut actor = HnswActor::new(2, 1000);
    assert_eq!(actor.ef_construction, 200);
    assert_eq!(actor.m, 16);
    assert_eq!(
        actor
            .handle(HnswMessage::Search {
                query: vec![0, 0],
                k: 1
            })
            .unwrap_err(),
        VectorDbError::NotInitialized
    );
    assert_eq!(
        actor
            .handle(HnswMessage::Insert {
                embedding: vec![0, 0],
                point_id: 1
            })
            .unwrap_err(),
        VectorDbError::NotInitialized
    );
    assert_eq!(
        actor
            .handle(HnswMessage::LoadFromDb { embeddings: vec![] })
            .unwrap_err(),
        VectorDbError::NotInitialized
    );
    let created = actor
        .handle(HnswMessage::Initialize {
            dimension: 3,
            max_elements: 50,
        })
        .unwrap();
    assert!(matches!(
        created,
        HnswAction::Create {
            m: 16,
            max_elements: 50,
            ef_construction: 200,
            ef: 200
        }
    ));
    assert_eq!(
        actor
            .handle(HnswMessage::Search {
                query: vec![0, 0],
                k: 1
            })
            .unwrap_err(),
        VectorDbError::QueryDimensionMismatch {
            expected: 3,
            got: 2
        }
    );
    assert_eq!(
        actor
            .handle(HnswMessage::Insert {
                embedding: vec![0],
                point_id: 1
            })
            .unwrap_err(),
        VectorDbError::DimensionMismatch {
            expected: 3,
            got: 1
        }
    );
    match actor
        .handle(HnswMessage::Search {
            query: vec![1, 2, 3],
            k: 4,
        })
        .unwrap()
    {
        HnswAction::Search { query, k, ef } => {
            assert_eq!(query, vec![1, 2, 3]);
            assert_eq!((k, ef), (4, 200));
        }
        other => panic!("{:?}", other),
    }
}

#[test]
fn loading_puts_records_where_adding_put_them() {
    let db = SqliteVectorDB::new("p".to_string(), 2, 50);
    let write = db
        .add_storage_record(
            record("a", "text", &[1.0, 2.0], map(&[("record_type", "tool")])),
            true,
        )
        .unwrap();
    let loaded = db.load_index(&vec![write.row]).unwrap();
    let mut actor = HnswActor::new(2, 50);
    actor
        .handle(HnswMessage::Initialize {
            dimension: 2,
            max_elements: 50,
        })
        .unwrap();
    let mut embeddings = loaded;
    embeddings.push(StoredEmbedding {
        content: "other".to_string(),
        record_type: "tool".to_string(),
        embedding: vec![1, 2, 3],
    });
    match actor.handle(HnswMessage::LoadFromDb { embeddings }).unwrap() {
        HnswAction::Insert { points } => {
            assert_eq!(points.len(), 1);
            assert_eq!(points[0].point_id, write.point_id);
            assert_eq!(points[0].embedding, write.embedding);
        }
        other => panic!("{:?}", other),
    }
}

#[test]
fn clearing_starts_the_index_anew() {
    match store().clear() {
        HnswMessage::Initialize {
            dimension,
            max_elements,
        } => assert_eq!((dimension, max_elements), (2, 1000)),
        other => panic!("{:?}", other),
    }
    assert_eq!(CURRENT_SCHEMA_VERSION, 1);
}

#[test]
fn tables_lie_where_the_configuration_says() {
    let s = |t: &str| Some(t.to_string());
    assert_eq!(
        SqliteAdapter::get_db_path(s("mine"), s("/custom"), s("/home")).unwrap(),
        vec!["/custom", "mine.db"]
    );
    assert_eq!(
        SqliteAdapter::get_db_path(None, s("/custom"), None).unwrap(),
        vec!["/custom", "tools.db"]
    );
    assert_eq!(
        SqliteAdapter::get_db_path(None, None, s("/data")).unwrap(),
        vec!["/data", "goose", "tool_db", "tools.db"]
    );
    assert_eq!(SqliteAdapter::get_db_path(s("x"), None, None), None);
    let fresh = SqliteAdapter::new("p".to_string(), &vec![]);
    assert_eq!((fresh.db.dimension, fresh.db.max_elements), (1536, 10000));
}

#[test]
fn indexing_stops_at_the_first_wrong_length() {
    let tool = |name: &str, n: usize| AdapterTool {
        tool_name: name.to_string(),
        description: format!("about {}", name),
        schema: "{}".to_string(),
        vector: vec![0; n],
        extension_name: "ext".to_string(),
    };
    let mut adapter = SqliteAdapter::new("p".to_string(), &vec![]);
    let batch = adapter.index_tools(vec![tool("a", 3), tool("b", 3), tool("c", 4), tool("d", 3)], true, false);
    assert!(batch.reinitialize.is_some());
    assert_eq!(batch.writes.len(), 2);
    assert!(!batch.writes[0].create_index);
    assert_eq!(
        batch.error,
        Some(VectorDbError::DimensionMismatch {
            expected: 3,
            got: 4
        })
    );
    let batch = adapter.index_tools(vec![tool("e", 3), tool("f", 3)], false, false);
    assert!(batch.reinitialize.is_none());
    assert_eq!(batch.error, None);
    assert!(batch.writes[0].create_index);
    assert!(!batch.writes[1].create_index);
    let batch = adapter.index_tools(vec![tool("g", 0)], true, true);
    assert_eq!(
        batch.error,
        Some(VectorDbError::DimensionMismatch {
            expected: 3,
            got: 0
        })
    );
}

#[test]
fn table_names_are_made_from_the_time() {
    let t = LocalTime {
        year: 2024,
        month: 3,
        day: 9,
        hour: 7,
        minute: 5,
        second: 59,
    };
    assert_eq!(table_id(t), "20240309_070559");
    assert_eq!(table_id(LocalTime { year: 33, ..t }), "00330309_070559");
    assert_eq!(table_id(LocalTime { year: 12024, ..t }), "+120240309_070559");
    assert_eq!(table_id(LocalTime { year: -44, ..t }), "-00440309_070559");
    let date = chrono::NaiveDate::from_ymd_opt(-44, 3, 9).unwrap();
    assert_eq!(date.format("%Y%m%d").to_string(), "-00440309");
    let now = generate_table_id();
    assert_eq!(now.len(), 15);
    assert_eq!(now.as_bytes()[8], b'_');
    assert!(now.bytes().filter(|b| b.is_ascii_digit()).count() == 14);
}

#[test]
fn metadata_is_a_map() {
    let mut m = Metadata::from_entries(vec![
        ("a".to_string(), "1".to_string()),
        ("b".to_string(), "2".to_string()),
        ("a".to_string(), "3".to_string()),
    ]);
    assert_eq!(m.entries().len(), 2);
    assert_eq!(m.get("a"), Some(&"3".to_string()));
    assert_eq!(m.remove("a"), Some("3".to_string()));
    assert_eq!(m.remove("a"), None);
    assert_eq!(m.get("a"), None);
    assert!(m.satisfies(&Metadata::new()));
    assert!(m.satisfies(&map(&[("b", "2")])));
    assert!(!m.satisfies(&map(&[("b", "3")])));
    assert!(!m.satisfies(&map(&[("c", "2")])));
}

#[test]
fn neighbours_are_matched_with_rows() {
    let row = |id: &str, point: Option<usize>, kind: Option<&str>| IndexedRow {
        id: id.to_string(),
        point: point.ok_or("unreadable".to_string()),
        record: kind.map(|k| record(id, "x", &[], map(&[("kind", k)]))),
    };
    let rows = vec![
        row("a", Some(1), Some("tool")),
        row("b", Some(2), None),
        row("c", Some(1), Some("tool")),
        row("d", Some(3), Some("note")),
        row("e", None, Some("tool")),
        row("f", Some(4), Some("tool")),
    ];
    assert_eq!(id_at_point(&rows, 1).unwrap(), "a");
    assert_eq!(id_at_point(&rows, 3).unwrap(), "d");
    assert_eq!(
        id_at_point(&rows, 4).unwrap_err(),
        VectorDbError::BadMetadata {
            reason: "unreadable".to_string()
        }
    );
    assert_eq!(
        id_at_point(&rows[..4].iter().map(|r| row(&r.id, r.point.clone().ok(), None)).collect(), 9).unwrap_err(),
        VectorDbError::NoRecord { point_id: 9 }
    );
    let ids = |neighbors: Vec<usize>, limit: usize, filter: Option<&Metadata>| -> Vec<String> {
        select_matches(&rows, &neighbors, limit, filter)
            .into_iter()
            .map(|r| r.id)
            .collect()
    };
    assert_eq!(ids(vec![3, 2, 4, 1, 1], 9, None), vec!["d", "a", "a"]);
    assert_eq!(ids(vec![3, 2, 4, 1, 1], 2, None), vec!["d", "a"]);
    let filter = map(&[("kind", "tool")]);
    assert_eq!(ids(vec![3, 2, 4, 1], 9, Some(&filter)), vec!["a"]);
    assert_eq!(ids(vec![3, 1], 0, None), vec!["d"]);
    let everything = Metadata::new();
    assert_eq!(ids(vec![3, 2, 4, 1, 1], 5, Some(&everything)), vec!["d", "a", "a"]);
    assert_eq!(ids(vec![3, 1], 2, Some(&filter)), vec!["a"]);
    assert_eq!(ids(vec![3, 1], 0, Some(&filter)), Vec::<String>::new());
}

#[test]
fn the_first_unreadable_record_is_the_error() {
    let bad = |column: usize| VectorDbError::BadColumn {
        column,
        blob: true,
        reason: "short".to_string(),
    };
    let fine = || Ok(record("a", "x", &[], Metadata::new()));
    assert_eq!(collect_records(vec![fine(), fine()]).unwrap().len(), 2);
    assert_eq!(
        collect_records(vec![fine(), Err(bad(2)), Err(bad(3))]).unwrap_err(),
        bad(2)
    );
}

#[test]
fn types_are_counted() {
    let types = ["tool", "note", "tool", "tool"];
    let stats = store().count_types(types.iter().map(|t| t.to_string()).collect());
    assert_eq!(stats.total_records, 4);
    assert_eq!(stats.total_tools, 3);
    assert_eq!(stats.dimension, 2);
    assert_eq!(stats.db_path, "records.db");
    let mut counts = stats.type_counts.clone();
    counts.sort();
    assert_eq!(counts, vec![("note".to_string(), 1), ("tool".to_string(), 3)]);
    let names: Vec<String> = stats.entries().into_iter().map(|e| e.0).collect();
    assert_eq!(
        names[..4].to_vec(),
        vec!["total_records", "dimension", "db_path", "total_tools"]
    );
    assert!(names.contains(&"note_count".to_string()));
}
