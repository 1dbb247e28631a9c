use search_writer::document::{FieldEntry, FieldValue, SearchDocument, SearchFieldDef, SearchFieldType};
use search_writer::error::WriterError;
use search_writer::writer::{CommitOutcome, Writer, WriterDirectory, WriterRequest};

fn temp_directory(oid: u64) -> (tempfile::TempDir, WriterDirectory) {
    let dir = tempfile::TempDir::new().expect("temp dir");
    let path = dir.path().to_str().expect("utf8 path").to_string();
    (dir, WriterDirectory { index_oid: oid, path })
}

fn key_body_fields() -> Vec<SearchFieldDef> {
    vec![
        SearchFieldDef { name: "id".to_string(), field_type: SearchFieldType::Unsigned },
        SearchFieldDef { name: "body".to_string(), field_type: SearchFieldType::Text },
    ]
}

fn doc(id: u64, body: &str) -> SearchDocument {
    SearchDocument {
        entries: vec![
            FieldEntry { field_id: 0, value: FieldValue::Unsigned(id) },
            FieldEntry { field_id: 1, value: FieldValue::Text(body.to_string()) },
        ],
    }
}

fn visible_doc_count(path: &str) -> u64 {
    let index = tantivy::Index::open_in_dir(path).expect("open index");
    let reader = index.reader().expect("reader");
    reader.searcher().num_docs()
}

#[test]
fn acquire_twice_returns_the_cached_writer() {
    let (_guard, directory) = temp_directory(1);
    let mut writer = Writer::new();
    writer
        .create_index(&directory, key_body_fields(), "uuid-1".to_string(), 0)
        .expect("create");
    assert!(!writer.is_cached(&directory));
    writer.acquire(&directory).expect("first acquire");
    assert!(writer.is_cached(&directory));
    assert_eq!(writer.cached_count(), 1);
    writer.acquire(&directory).expect("second acquire");
    assert!(writer.is_cached(&directory));
    assert_eq!(writer.cached_count(), 1);
}

#[test]
fn commit_on_missing_directory_is_not_an_error() {
    let mut writer = Writer::new();
    let directory = WriterDirectory {
        index_oid: 7,
        path: "/nonexistent/search-writer-test/idx".to_string(),
    };
    let outcome = writer.commit(&directory).expect("commit must not fail");
    assert_eq!(outcome, CommitOutcome { engine_committed: false, index_dropped: false });
}

#[test]
fn commit_on_missing_directory_still_clears_pending_drop() {
    let mut writer = Writer::new();
    let directory = WriterDirectory {
        index_oid: 8,
        path: "/nonexistent/search-writer-test/idx".to_string(),
    };
    writer.drop_index(&directory).expect("drop");
    assert!(writer.is_drop_pending(&directory));
    let outcome = writer.commit(&directory).expect("commit must not fail");
    assert_eq!(outcome, CommitOutcome { engine_committed: false, index_dropped: true });
    assert!(!writer.is_drop_pending(&directory));
}

#[test]
fn insert_commit_delete_commit_leaves_only_the_second_document() {
    let (_guard, directory) = temp_directory(2);
    let mut writer = Writer::new();
    writer
        .create_index(&directory, key_body_fields(), "uuid-2".to_string(), 0)
        .expect("create");
    writer.insert(&directory, &doc(1, "hello")).expect("insert 1");
    writer.commit(&directory).expect("commit 1");
    writer.insert(&directory, &doc(2, "world")).expect("insert 2");
    writer.delete(&directory, 0, &vec![1]).expect("delete key 1");
    writer.commit(&directory).expect("commit 2");
    assert_eq!(visible_doc_count(&directory.path), 1);
    // deleting key 2 empties the index: the surviving document was id 2
    writer.delete(&directory, 0, &vec![2]).expect("delete key 2");
    writer.commit(&directory).expect("commit 3");
    assert_eq!(visible_doc_count(&directory.path), 0);
}

#[test]
fn insert_then_abort_leaves_index_empty() {
    let (_guard, directory) = temp_directory(3);
    let mut writer = Writer::new();
    writer
        .create_index(&directory, key_body_fields(), "uuid-3".to_string(), 0)
        .expect("create");
    writer.insert(&directory, &doc(3, "ghost")).expect("insert");
    writer.abort(&directory).expect("abort");
    // a later transaction commits; the aborted insert must not surface
    writer.commit(&directory).expect("commit");
    assert_eq!(visible_doc_count(&directory.path), 0);
}

#[test]
fn insert_then_commit_is_visible_and_durable() {
    let (_guard, directory) = temp_directory(4);
    let path = directory.path.clone();
    {
        let mut writer = Writer::new();
        writer
            .create_index(&directory, key_body_fields(), "uuid-4".to_string(), 0)
            .expect("create");
        writer.insert(&directory, &doc(1, "persisted")).expect("insert");
        writer.commit(&directory).expect("commit");
        assert_eq!(visible_doc_count(&path), 1);
    }
    // the coordinator (and its writer) is gone; a fresh reader over the
    // directory still observes the document
    assert_eq!(visible_doc_count(&path), 1);
}

#[test]
fn delete_buffers_one_tombstone_per_value() {
    let (_guard, directory) = temp_directory(5);
    let mut writer = Writer::new();
    writer
        .create_index(&directory, key_body_fields(), "uuid-5".to_string(), 0)
        .expect("create");
    writer.insert(&directory, &doc(1, "a")).expect("insert 1");
    writer.insert(&directory, &doc(2, "b")).expect("insert 2");
    writer.insert(&directory, &doc(3, "c")).expect("insert 3");
    writer.commit(&directory).expect("commit 1");
    assert_eq!(visible_doc_count(&directory.path), 3);
    writer.delete(&directory, 0, &vec![1, 3]).expect("delete");
    writer.commit(&directory).expect("commit 2");
    assert_eq!(visible_doc_count(&directory.path), 1);
}

#[test]
fn drop_then_abort_leaves_the_index_intact() {
    let (_guard, directory) = temp_directory(6);
    let mut writer = Writer::new();
    writer
        .create_index(&directory, key_body_fields(), "uuid-6".to_string(), 0)
        .expect("create");
    writer.insert(&directory, &doc(1, "kept")).expect("insert");
    writer.commit(&directory).expect("commit");
    writer.drop_index(&directory).expect("drop");
    assert!(writer.is_drop_pending(&directory));
    writer.abort(&directory).expect("abort");
    assert!(!writer.is_drop_pending(&directory));
    // fully intact and queryable
    assert_eq!(visible_doc_count(&directory.path), 1);
    // and a later commit does not delete it either
    writer.commit(&directory).expect("commit after abort");
    assert_eq!(visible_doc_count(&directory.path), 1);
}

#[test]
fn drop_then_commit_removes_the_directory() {
    let (_guard, directory) = temp_directory(9);
    let mut writer = Writer::new();
    writer
        .create_index(&directory, key_body_fields(), "uuid-9".to_string(), 0)
        .expect("create");
    writer.insert(&directory, &doc(1, "doomed")).expect("insert");
    writer.drop_index(&directory).expect("drop");
    let outcome = writer.commit(&directory).expect("commit");
    assert!(outcome.index_dropped);
    assert!(!writer.is_cached(&directory));
    assert!(!writer.is_drop_pending(&directory));
    // no on-disk trace: opening the directory again must fail rather
    // than resurrect the old writer's buffered state
    assert!(tantivy::Index::open_in_dir(&directory.path).is_err());
    let mut fresh = Writer::new();
    let acquired = fresh.acquire(&directory);
    assert!(matches!(acquired, Err(WriterError::WriterUnavailable(_))));
}

#[test]
fn create_index_rejects_a_key_field_index_out_of_range() {
    let (_guard, directory) = temp_directory(10);
    let mut writer = Writer::new();
    let result = writer.create_index(&directory, key_body_fields(), "uuid-10".to_string(), 2);
    assert!(matches!(result, Err(WriterError::SchemaError(_))));
    // nothing was created
    assert!(tantivy::Index::open_in_dir(&directory.path).is_err());
}

#[test]
fn create_index_on_a_populated_directory_fails_fast() {
    let (_guard, directory) = temp_directory(11);
    let mut writer = Writer::new();
    writer
        .create_index(&directory, key_body_fields(), "uuid-11".to_string(), 0)
        .expect("first create");
    let second = writer.create_index(&directory, key_body_fields(), "uuid-11b".to_string(), 0);
    assert!(matches!(second, Err(WriterError::IoError(_))));
}

#[test]
fn vacuum_reports_success_on_a_live_index() {
    let (_guard, directory) = temp_directory(12);
    let mut writer = Writer::new();
    writer
        .create_index(&directory, key_body_fields(), "uuid-12".to_string(), 0)
        .expect("create");
    writer.insert(&directory, &doc(1, "a")).expect("insert");
    writer.commit(&directory).expect("commit");
    writer.vacuum(&directory).expect("vacuum");
    assert_eq!(visible_doc_count(&directory.path), 1);
}

#[test]
fn handle_routes_requests_to_the_operations() {
    let (_guard, directory) = temp_directory(13);
    let path = directory.path.clone();
    let mut writer = Writer::new();
    writer
        .handle(WriterRequest::CreateIndex {
            directory: WriterDirectory { index_oid: 13, path: path.clone() },
            fields: key_body_fields(),
            uuid: "uuid-13".to_string(),
            key_field_index: 0,
        })
        .expect("create");
    writer
        .handle(WriterRequest::Insert {
            directory: WriterDirectory { index_oid: 13, path: path.clone() },
            document: doc(1, "routed"),
        })
        .expect("insert");
    writer
        .handle(WriterRequest::Commit {
            directory: WriterDirectory { index_oid: 13, path: path.clone() },
        })
        .expect("commit");
    assert_eq!(visible_doc_count(&path), 1);
    writer
        .handle(WriterRequest::Delete {
            directory: WriterDirectory { index_oid: 13, path: path.clone() },
            field: 0,
            ctids: vec![1],
        })
        .expect("delete");
    writer
        .handle(WriterRequest::Abort {
            directory: WriterDirectory { index_oid: 13, path: path.clone() },
        })
        .expect("abort");
    writer
        .handle(WriterRequest::Commit {
            directory: WriterDirectory { index_oid: 13, path: path.clone() },
        })
        .expect("second commit");
    // the aborted delete left the document in place
    assert_eq!(visible_doc_count(&path), 1);
}

#[test]
fn error_kind_names_are_stable() {
    assert_eq!(WriterError::WriterUnavailable("x".to_string()).kind_name(), "WriterUnavailable");
    assert_eq!(WriterError::WriteFailed("x".to_string()).kind_name(), "WriteFailed");
    assert_eq!(WriterError::SchemaError("x".to_string()).kind_name(), "SchemaError");
    assert_eq!(WriterError::IoError("x".to_string()).kind_name(), "IoError");
    assert_eq!(WriterError::CommitFailed("x".to_string()).kind_name(), "CommitFailed");
    assert_eq!(WriterError::RollbackFailed("x".to_string()).kind_name(), "RollbackFailed");
    assert_eq!(WriterError::DeletionFailed("x".to_string()).kind_name(), "DeletionFailed");
    assert_eq!(WriterError::VacuumFailed("x".to_string()).kind_name(), "VacuumFailed");
}

#[test]
fn inserted_text_is_searchable_after_commit() {
    let (_guard, directory) = temp_directory(14);
    let mut writer = Writer::new();
    writer
        .create_index(&directory, key_body_fields(), "uuid-14".to_string(), 0)
        .expect("create");
    writer.insert(&directory, &doc(1, "hello world")).expect("insert");
    writer.commit(&directory).expect("commit");
    let index = tantivy::Index::open_in_dir(&directory.path).expect("open");
    let searcher = index.reader().expect("reader").searcher();
    let body = tantivy::schema::Field::from_field_id(1);
    let term = tantivy::Term::from_field_text(body, "world");
    let query = tantivy::query::TermQuery::new(term, tantivy::schema::IndexRecordOption::Basic);
    let hits = searcher.search(&query, &tantivy::collector::Count).expect("search");
    assert_eq!(hits, 1);
    let missing = tantivy::Term::from_field_text(body, "absent");
    let none = tantivy::query::TermQuery::new(missing, tantivy::schema::IndexRecordOption::Basic);
    assert_eq!(searcher.search(&none, &tantivy::collector::Count).expect("search"), 0);
}

#[test]
fn operations_on_a_missing_directory_report_writer_unavailable() {
    let mut writer = Writer::new();
    let directory = WriterDirectory {
        index_oid: 15,
        path: "/nonexistent/search-writer-test/idx".to_string(),
    };
    let inserted = writer.insert(&directory, &doc(1, "nowhere"));
    assert!(matches!(inserted, Err(WriterError::WriterUnavailable(_))));
    let deleted = writer.delete(&directory, 0, &vec![1]);
    assert!(matches!(deleted, Err(WriterError::WriterUnavailable(_))));
    assert!(!writer.is_cached(&directory));
}

#[test]
fn handle_reports_a_schema_error_for_a_bad_key_field_index() {
    let (_guard, directory) = temp_directory(16);
    let mut writer = Writer::new();
    let result = writer.handle(WriterRequest::CreateIndex {
        directory,
        fields: key_body_fields(),
        uuid: "uuid-16".to_string(),
        key_field_index: 9,
    });
    assert!(matches!(result, Err(WriterError::SchemaError(_))));
}

#[test]
fn create_index_rejects_duplicate_field_names() {
    let (_guard, directory) = temp_directory(17);
    let mut writer = Writer::new();
    let fields = vec![
        SearchFieldDef { name: "id".to_string(), field_type: SearchFieldType::Unsigned },
        SearchFieldDef { name: "id".to_string(), field_type: SearchFieldType::Text },
    ];
    let result = writer.create_index(&directory, fields, "uuid-17".to_string(), 0);
    assert!(matches!(result, Err(WriterError::SchemaError(_))));
    // nothing was created
    assert!(tantivy::Index::open_in_dir(&directory.path).is_err());
}

#[test]
fn handle_propagates_the_operation_error_kind() {
    let mut writer = Writer::new();
    let missing = || WriterDirectory {
        index_oid: 18,
        path: "/nonexistent/search-writer-test/idx".to_string(),
    };
    let inserted = writer.handle(WriterRequest::Insert {
        directory: missing(),
        document: doc(1, "x"),
    });
    assert!(matches!(inserted, Err(WriterError::WriterUnavailable(_))));
    let created = writer.handle(WriterRequest::CreateIndex {
        directory: missing(),
        fields: key_body_fields(),
        uuid: "uuid-18".to_string(),
        key_field_index: 9,
    });
    assert!(matches!(created, Err(WriterError::SchemaError(_))));
}

#[test]
fn delete_with_an_unknown_field_id_is_a_write_failure() {
    let (_guard, directory) = temp_directory(19);
    let mut writer = Writer::new();
    writer
        .create_index(&directory, key_body_fields(), "uuid-19".to_string(), 0)
        .expect("create");
    writer.insert(&directory, &doc(1, "kept")).expect("insert");
    writer.commit(&directory).expect("commit");
    // the schema has two fields; id 2 names none and must be rejected,
    // not passed to the engine
    let result = writer.delete(&directory, 2, &vec![1]);
    assert!(matches!(result, Err(WriterError::WriteFailed(_))));
    // nothing was buffered and the writer stays usable
    writer.delete(&directory, 0, &vec![1]).expect("valid delete");
    writer.commit(&directory).expect("second commit");
    assert_eq!(visible_doc_count(&directory.path), 0);
}

#[test]
fn insert_with_an_unknown_field_id_is_a_write_failure() {
    let (_guard, directory) = temp_directory(20);
    let mut writer = Writer::new();
    writer
        .create_index(&directory, key_body_fields(), "uuid-20".to_string(), 0)
        .expect("create");
    let bad = SearchDocument {
        entries: vec![FieldEntry { field_id: 5, value: FieldValue::Unsigned(1) }],
    };
    let result = writer.insert(&directory, &bad);
    assert!(matches!(result, Err(WriterError::WriteFailed(_))));
    // the writer was not poisoned: a valid insert and commit still work
    writer.insert(&directory, &doc(1, "fine")).expect("insert");
    writer.commit(&directory).expect("commit");
    assert_eq!(visible_doc_count(&directory.path), 1);
}
