use context_store::doc::{Document, DocumentId, SourceType};
use context_store::error::StoreError;
use context_store::search::SearchQuery;
use context_store::store::Store;

const JAN_2024: i64 = 1704067200;
const JAN_2000: i64 = 946684800;

fn sample_document(id: &str, project: &str, key: &str, body: &str) -> Document {
    let now = JAN_2024;
    Document {
        id: DocumentId(id.to_string()),
        project: project.to_string(),
        key: Some(key.to_string()),
        namespace: Some("notes".to_string()),
        title: Some("Sample".to_string()),
        tags: vec!["rust".to_string()],
        body_markdown: body.to_string(),
        created_at: now,
        updated_at: now,
        source: SourceType::User,
        version: 1,
        ttl_seconds: None,
        deleted_at: None,
    }
}

#[test]
fn put_and_get_by_key_roundtrip() {
    let mut storage = Store::new();
    let doc = sample_document("doc-1", "demo", "intro", "hello world");

    storage.put(doc.clone(), JAN_2024).unwrap();

    let fetched = storage
        .get_by_key(&doc.project, doc.key.as_ref().unwrap(), JAN_2024)
        .unwrap();

    let fetched = fetched.expect("document exists");
    assert_eq!(fetched.id.0, doc.id.0);
    assert_eq!(fetched.project, doc.project);
    assert_eq!(fetched.key, doc.key);
    assert_eq!(fetched.body_markdown, doc.body_markdown);
    assert_eq!(fetched.version, doc.version);
}

#[test]
fn put_overwrites_existing_document_by_id() {
    let mut storage = Store::new();
    let mut doc = sample_document("doc-1", "demo", "intro", "v1");

    storage.put(doc.clone(), JAN_2024).unwrap();

    doc.body_markdown = "v2 body".to_string();
    doc.version = 2;
    doc.updated_at += 300;

    storage.put(doc.clone(), JAN_2024).unwrap();

    let fetched = storage
        .get_by_key(&doc.project, doc.key.as_ref().unwrap(), JAN_2024)
        .unwrap()
        .expect("document exists");

    assert_eq!(fetched.body_markdown, "v2 body");
    assert_eq!(fetched.version, 2);

    // The version history records both revisions.
    assert_eq!(storage.version_count(&doc.id.0), 2);
}

#[test]
fn search_returns_matches_in_project() {
    let mut storage = Store::new();

    let rust_doc = sample_document("doc-rust", "proj-a", "rust", "rust search works");
    let mut python_doc = sample_document("doc-py", "proj-a", "py", "python tips");
    python_doc.tags = vec!["python".to_string()];
    let mut other_project_doc = sample_document("doc-other", "proj-b", "rust", "rust in another project");
    other_project_doc.tags = vec!["rust".to_string()];

    storage.put(rust_doc.clone(), JAN_2024).unwrap();
    storage.put(python_doc, JAN_2024).unwrap();
    storage.put(other_project_doc, JAN_2024).unwrap();

    let hits = storage.search(
        &SearchQuery {
            project: Some(rust_doc.project.clone()),
            text: "rust".to_string(),
            limit: None,
        },
        JAN_2024 + 60,
    );

    let ids: Vec<_> = hits.into_iter().map(|h| h.document.id.0).collect();
    assert_eq!(ids, vec!["doc-rust".to_string()]);
}

#[test]
fn ttl_expired_documents_are_filtered_out() {
    let mut storage = Store::new();

    let mut doc = sample_document("doc-expired", "demo", "old", "expired body");
    doc.created_at = JAN_2000;
    doc.updated_at = JAN_2000;
    doc.ttl_seconds = Some(60);

    storage.put(doc.clone(), JAN_2024).unwrap();

    let fetched = storage
        .get_by_key(&doc.project, doc.key.as_ref().unwrap(), JAN_2024)
        .unwrap();
    assert!(fetched.is_none(), "expired document should not be returned");

    let hits = storage.search(
        &SearchQuery {
            project: Some(doc.project.clone()),
            text: "expired".to_string(),
            limit: None,
        },
        JAN_2024,
    );
    assert!(hits.is_empty(), "expired document should not appear in search");
}

#[test]
fn soft_deleted_documents_are_ignored() {
    let mut storage = Store::new();
    let mut doc = sample_document("doc-deleted", "demo", "deleted", "body");
    doc.deleted_at = Some(JAN_2024);
    doc.version = 1;

    storage.put(doc.clone(), JAN_2024).unwrap();

    assert!(
        storage
            .get_by_key(&doc.project, doc.key.as_ref().unwrap(), JAN_2024)
            .unwrap()
            .is_none(),
        "soft-deleted doc should not be fetched"
    );

    let hits = storage.search(
        &SearchQuery {
            project: Some(doc.project.clone()),
            text: "body".to_string(),
            limit: None,
        },
        JAN_2024,
    );
    assert!(
        hits.is_empty(),
        "soft-deleted doc should not appear in search results"
    );
}

#[test]
fn documents_enforce_unique_key_per_project() {
    let mut storage = Store::new();
    let first = sample_document("doc-1", "demo", "install", "Rust setup instructions");
    storage.put(first, JAN_2024).unwrap();

    // A different document claiming the same visible (project, key) is
    // rejected and leaves the store unchanged.
    let second = sample_document("doc-2", "demo", "install", "Install Guide Copy");
    let err = storage
        .put(second, JAN_2024)
        .expect_err("second document with same key in project should fail");
    assert_eq!(err, StoreError::ConstraintViolation);

    let kept = storage
        .get_by_key("demo", "install", JAN_2024)
        .unwrap()
        .expect("first document still visible");
    assert_eq!(kept.id.0, "doc-1");
    assert_eq!(kept.body_markdown, "Rust setup instructions");
}

#[test]
fn same_key_in_other_project_is_allowed() {
    let mut storage = Store::new();
    storage
        .put(sample_document("doc-1", "proj-a", "install", "a"), JAN_2024)
        .unwrap();
    storage
        .put(sample_document("doc-2", "proj-b", "install", "b"), JAN_2024)
        .unwrap();
    assert_eq!(
        storage
            .get_by_key("proj-b", "install", JAN_2024)
            .unwrap()
            .unwrap()
            .id
            .0,
        "doc-2"
    );
}

#[test]
fn key_of_expired_document_can_be_reclaimed() {
    let mut storage = Store::new();
    let mut old = sample_document("doc-old", "demo", "slot", "stale");
    old.created_at = JAN_2000;
    old.ttl_seconds = Some(60);
    storage.put(old, JAN_2024).unwrap();

    // The previous holder of the key expired long ago, so a new document
    // may take the key over.
    let fresh = sample_document("doc-new", "demo", "slot", "fresh");
    storage.put(fresh, JAN_2024).unwrap();
    assert_eq!(
        storage
            .get_by_key("demo", "slot", JAN_2024)
            .unwrap()
            .unwrap()
            .id
            .0,
        "doc-new"
    );
}

#[test]
fn versioning_counts_every_put() {
    let mut storage = Store::new();
    let mut doc = sample_document("doc-v", "demo", "counted", "v1");
    for v in 1..=3u64 {
        doc.version = v;
        doc.body_markdown = format!("body {v}");
        storage.put(doc.clone(), JAN_2024).unwrap();
    }
    assert_eq!(storage.version_count("doc-v"), 3);
    assert_eq!(storage.version_count("doc-other"), 0);
    let live = storage
        .get_by_key("demo", "counted", JAN_2024)
        .unwrap()
        .unwrap();
    assert_eq!(live.version, 3);
    assert_eq!(live.body_markdown, "body 3");
}

#[test]
fn ttl_window_boundaries() {
    let mut storage = Store::new();
    let mut doc = sample_document("doc-ttl", "demo", "short", "short lived note");
    doc.ttl_seconds = Some(60);
    storage.put(doc.clone(), JAN_2024).unwrap();

    // Visible 30 seconds after creation.
    assert!(storage
        .get_by_key("demo", "short", JAN_2024 + 30)
        .unwrap()
        .is_some());
    let hits = storage.search(
        &SearchQuery {
            project: None,
            text: "lived".to_string(),
            limit: None,
        },
        JAN_2024 + 30,
    );
    assert_eq!(hits.len(), 1);

    // Invisible 90 seconds after creation.
    assert!(storage
        .get_by_key("demo", "short", JAN_2024 + 90)
        .unwrap()
        .is_none());
    let hits = storage.search(
        &SearchQuery {
            project: None,
            text: "lived".to_string(),
            limit: None,
        },
        JAN_2024 + 90,
    );
    assert!(hits.is_empty());
}

#[test]
fn search_limit_keeps_top_of_order() {
    let mut storage = Store::new();
    for i in 0..5 {
        let mut doc = sample_document(
            &format!("doc-{i}"),
            "demo",
            &format!("key-{i}"),
            "shared topic",
        );
        doc.tags = vec![];
        // Later documents are fresher and must rank higher.
        doc.updated_at = JAN_2024 + i * 600;
        storage.put(doc, JAN_2024).unwrap();
    }
    let hits = storage.search(
        &SearchQuery {
            project: Some("demo".to_string()),
            text: "topic".to_string(),
            limit: Some(2),
        },
        JAN_2024 + 3600,
    );
    assert_eq!(hits.len(), 2);
    assert_eq!(hits[0].document.id.0, "doc-4");
    assert_eq!(hits[1].document.id.0, "doc-3");
}

#[test]
fn empty_query_matches_nothing() {
    let mut storage = Store::new();
    storage
        .put(sample_document("doc-1", "demo", "k", "anything"), JAN_2024)
        .unwrap();
    let hits = storage.search(
        &SearchQuery {
            project: None,
            text: "   ".to_string(),
            limit: None,
        },
        JAN_2024,
    );
    assert!(hits.is_empty());
}

#[test]
fn source_type_round_trip_and_corruption() {
    for (s, v) in [
        ("Agent", SourceType::Agent),
        ("User", SourceType::User),
        ("Import", SourceType::Import),
        ("System", SourceType::System),
    ] {
        assert_eq!(SourceType::parse(s).unwrap(), v);
        assert_eq!(v.as_str(), s);
    }
    assert_eq!(
        SourceType::parse("agent").unwrap_err(),
        StoreError::Corruption
    );
    assert_eq!(SourceType::parse("").unwrap_err(), StoreError::Corruption);
}

#[test]
fn search_tracks_document_updates() {
    let mut storage = Store::new();
    let mut doc = sample_document("doc-fts", "demo", "search-doc", "rust search works");
    doc.tags = vec![];
    storage.put(doc.clone(), JAN_2024).unwrap();

    let query = |text: &str| SearchQuery {
        project: Some("demo".to_string()),
        text: text.to_string(),
        limit: None,
    };
    assert_eq!(storage.search(&query("rust"), JAN_2024).len(), 1);

    // Overwriting the body re-indexes the document: the old content no
    // longer matches, the new content does.
    doc.body_markdown = "sqlite fts is great".to_string();
    doc.version = 2;
    storage.put(doc, JAN_2024).unwrap();

    assert!(
        storage.search(&query("rust"), JAN_2024).is_empty(),
        "old content should no longer be indexed"
    );
    assert_eq!(storage.search(&query("fts"), JAN_2024).len(), 1);
}

#[test]
fn search_matches_title_and_tags() {
    let mut storage = Store::new();
    let mut doc = sample_document("doc-t", "demo", "titled", "plain body");
    doc.title = Some("Install Guide".to_string());
    doc.tags = vec!["setup".to_string()];
    storage.put(doc, JAN_2024).unwrap();

    let query = |text: &str| SearchQuery {
        project: None,
        text: text.to_string(),
        limit: None,
    };
    assert_eq!(storage.search(&query("guide"), JAN_2024).len(), 1);
    assert_eq!(storage.search(&query("setup"), JAN_2024).len(), 1);
    assert_eq!(storage.search(&query("absent"), JAN_2024).len(), 0);
}

#[test]
fn search_requires_every_term() {
    let mut storage = Store::new();
    storage
        .put(sample_document("doc-1", "demo", "k1", "alpha beta"), JAN_2024)
        .unwrap();
    let query = |text: &str| SearchQuery {
        project: None,
        text: text.to_string(),
        limit: None,
    };
    assert_eq!(storage.search(&query("alpha beta"), JAN_2024).len(), 1);
    assert_eq!(storage.search(&query("alpha gamma"), JAN_2024).len(), 0);
}

fn put_through_storage<S: context_store::store::Storage>(
    backend: &mut S,
    doc: Document,
    now: i64,
) -> Result<Document, StoreError> {
    backend.put(doc, now)
}

#[test]
fn storage_trait_substitutes_for_the_store() {
    // Callers written against the Storage capability set work with the
    // in-memory backend unchanged.
    let mut storage = Store::new();
    let doc = sample_document("doc-1", "demo", "intro", "hello world");
    put_through_storage(&mut storage, doc, JAN_2024).unwrap();
    assert!(storage
        .get_by_key("demo", "intro", JAN_2024)
        .unwrap()
        .is_some());
}

#[test]
fn tag_bonus_ranks_tagged_document_first() {
    // Document A carries the matching tag and was updated an hour ago;
    // document B matches only by text and was updated ten minutes ago.
    // B's recency lead is under half a point, so A's tag bonus wins.
    let now = JAN_2024 + 7200;
    let mut storage = Store::new();

    let mut a = sample_document("doc-a", "demo", "a", "rust notes");
    a.tags = vec!["rust".to_string()];
    a.updated_at = now - 3600;
    storage.put(a, JAN_2024).unwrap();

    let mut b = sample_document("doc-b", "demo", "b", "rust notes");
    b.tags = vec![];
    b.updated_at = now - 600;
    storage.put(b, JAN_2024).unwrap();

    let hits = storage.search(
        &SearchQuery {
            project: Some("demo".to_string()),
            text: "rust".to_string(),
            limit: None,
        },
        now,
    );
    let ids: Vec<_> = hits.iter().map(|h| h.document.id.0.clone()).collect();
    assert_eq!(ids, vec!["doc-a".to_string(), "doc-b".to_string()]);
}
