use octobrain::clock::Timestamp;
use octobrain::config::Config;
use octobrain::fixed::Score;
use octobrain::memory::rows::{
    memory_to_row, quote_filter_string, relationship_to_row, row_to_memory, row_to_relationship,
    MemoryRow, RowPredicate, StoreError,
};
use octobrain::memory::hybrid::SearchPlan;
use octobrain::memory::store::{IndexAction, MemoryStore};
use octobrain::memory::types::{
    HybridSearchQuery, Memory, MemoryConfig, MemoryMetadata, MemoryQuery, MemoryRelationship,
    MemorySortBy, MemoryType, RelationshipType, SortOrder,
};

fn sc(x: f64) -> Score {
    Score::from_micros((x * 1_000_000.0).round() as i64)
}

const NOW: i64 = 1_704_067_200_000; // 2024-01-01T00:00:00Z

fn now() -> Timestamp {
    Timestamp::from_millis(NOW)
}

fn store() -> MemoryStore {
    MemoryStore::new(MemoryConfig::default(), Config::default(), 3)
}

fn plain_store() -> MemoryStore {
    let config = MemoryConfig { decay_enabled: false, ..Default::default() };
    MemoryStore::new(config, Config::default(), 3)
}

fn memory(id: &str, kind: MemoryType, title: &str, content: &str, tags: &[&str], importance: f64) -> Memory {
    let mut metadata = MemoryMetadata::default_at(now());
    metadata.tags = tags.iter().map(|t| t.to_string()).collect();
    metadata.importance = sc(importance);
    Memory::new_at(kind, title.to_string(), content.to_string(), Some(metadata), id.to_string(), now())
}

#[test]
fn a_memory_is_written_as_a_row() {
    let mut m = memory("id-1", MemoryType::BugFix, "Arc vs Rc", "use Arc for cross-thread", &["concurrency", "rust"], 0.7);
    m.metadata.related_files = vec!["src/lib.rs".to_string()];
    m.metadata.git_commit = Some("abc123".to_string());
    m.updated_at = Timestamp::from_millis(NOW + 1_500);
    let row = memory_to_row(&m).unwrap();
    assert_eq!(row.id, "id-1");
    assert_eq!(row.memory_type, "bug_fix");
    assert_eq!(row.title, "Arc vs Rc");
    assert_eq!(row.content, "use Arc for cross-thread");
    assert_eq!(row.created_at, "2024-01-01T00:00:00+00:00");
    assert_eq!(row.updated_at, "2024-01-01T00:00:01.500+00:00");
    assert_eq!(row.importance, sc(0.7));
    assert_eq!(row.confidence, sc(1.0));
    assert_eq!(row.tags.as_deref(), Some("[\"concurrency\",\"rust\"]"));
    assert_eq!(row.related_files.as_deref(), Some("[\"src/lib.rs\"]"));
    assert_eq!(row.git_commit.as_deref(), Some("abc123"));
}

#[test]
fn a_stored_memory_reads_back() {
    let mut m = memory("id-1", MemoryType::Security, "A title", "Some content", &["a", "b \"quoted\""], 0.7);
    m.metadata.related_files = vec!["src/main.rs".to_string(), "it's.rs".to_string()];
    m.metadata.git_commit = Some("deadbeef".to_string());
    m.metadata.confidence = sc(0.4);
    m.updated_at = Timestamp::from_millis(NOW + 123);
    let row = memory_to_row(&m).unwrap();
    let back = row_to_memory(&row, now()).unwrap();
    assert_eq!(back.id, m.id);
    assert_eq!(back.memory_type, m.memory_type);
    assert_eq!(back.title, m.title);
    assert_eq!(back.content, m.content);
    assert_eq!(back.created_at, m.created_at);
    assert_eq!(back.updated_at, m.updated_at);
    assert_eq!(back.metadata.tags, m.metadata.tags);
    assert_eq!(back.metadata.related_files, m.metadata.related_files);
    assert_eq!(back.metadata.git_commit, m.metadata.git_commit);
    assert_eq!(back.metadata.importance, m.metadata.importance);
    assert_eq!(back.metadata.confidence, m.metadata.confidence);
    assert!(back.relevance_score.is_none());
    assert_eq!(back.metadata.decay.access_count, 0);
    assert_eq!(back.metadata.decay.last_accessed, now());
}

#[test]
fn every_kind_reads_back() {
    let kinds = vec![
        MemoryType::Code,
        MemoryType::Architecture,
        MemoryType::BugFix,
        MemoryType::Feature,
        MemoryType::Documentation,
        MemoryType::UserPreference,
        MemoryType::Decision,
        MemoryType::Learning,
        MemoryType::Configuration,
        MemoryType::Testing,
        MemoryType::Performance,
        MemoryType::Security,
        MemoryType::Insight,
    ];
    for kind in kinds {
        let m = memory("id", kind, "A title", "c", &[], 0.5);
        let back = row_to_memory(&memory_to_row(&m).unwrap(), now()).unwrap();
        assert_eq!(back.memory_type, kind);
        assert_eq!(MemoryType::from(kind.to_string()), kind);
    }
    assert_eq!(MemoryType::from("BUG".to_string()), MemoryType::BugFix);
    assert_eq!(MemoryType::from("Docs".to_string()), MemoryType::Documentation);
    assert_eq!(MemoryType::from("deployment".to_string()), MemoryType::Configuration);
    assert_eq!(MemoryType::from("whatever".to_string()), MemoryType::Insight);
}

#[test]
fn scores_are_clamped_on_write() {
    let mut m = memory("id", MemoryType::Code, "A title", "c", &[], 1.7);
    m.metadata.confidence = sc(-0.3);
    let row = memory_to_row(&m).unwrap();
    assert_eq!(row.importance, sc(1.0));
    assert_eq!(row.confidence, sc(0.0));
    let edge = MemoryRelationship {
        id: "e".to_string(),
        source_id: "a".to_string(),
        target_id: "b".to_string(),
        relationship_type: RelationshipType::DependsOn,
        strength: sc(2.0),
        description: "d".to_string(),
        created_at: now(),
    };
    assert_eq!(relationship_to_row(&edge).unwrap().strength, sc(1.0));
}

#[test]
fn rows_with_bad_values_are_handled() {
    let good = memory_to_row(&memory("id", MemoryType::Code, "A title", "c", &["t"], 0.5)).unwrap();
    let bad_time = MemoryRow { created_at: "yesterday".to_string(), ..clone_row(&good) };
    assert!(matches!(row_to_memory(&bad_time, now()), Err(StoreError::Storage(_))));
    let bad_json = MemoryRow { tags: Some("not json".to_string()), ..clone_row(&good) };
    assert!(row_to_memory(&bad_json, now()).unwrap().metadata.tags.is_empty());
    let null_tags = MemoryRow { tags: None, related_files: None, ..clone_row(&good) };
    let m = row_to_memory(&null_tags, now()).unwrap();
    assert!(m.metadata.tags.is_empty() && m.metadata.related_files.is_empty());
    let other_zone = MemoryRow { created_at: "2024-01-01T02:00:00+02:00".to_string(), ..clone_row(&good) };
    assert_eq!(row_to_memory(&other_zone, now()).unwrap().created_at, now());
}

fn clone_row(r: &MemoryRow) -> MemoryRow {
    MemoryRow {
        id: r.id.clone(),
        memory_type: r.memory_type.clone(),
        title: r.title.clone(),
        content: r.content.clone(),
        created_at: r.created_at.clone(),
        updated_at: r.updated_at.clone(),
        importance: r.importance,
        confidence: r.confidence,
        tags: r.tags.clone(),
        related_files: r.related_files.clone(),
        git_commit: r.git_commit.clone(),
    }
}

#[test]
fn a_memory_outside_the_calendar_cannot_be_written() {
    let mut m = memory("id", MemoryType::Code, "A title", "c", &[], 0.5);
    m.created_at = Timestamp::from_millis(i64::MAX);
    assert!(matches!(memory_to_row(&m), Err(StoreError::Storage(_))));
    assert!(matches!(store().store_memory(&m, 3), Err(StoreError::Storage(_))));
}

#[test]
fn storing_deletes_by_id_and_appends() {
    let m = memory("it's", MemoryType::Code, "A title", "c", &[], 0.5);
    let plan = store().store_memory(&m, 3).unwrap();
    assert_eq!(plan.delete_where.to_sql(), "id = 'it''s'");
    assert_eq!(plan.row.id, "it's");
    let same = store().update_memory(&m, 3).unwrap();
    assert_eq!(same.delete_where.to_sql(), plan.delete_where.to_sql());
    assert!(matches!(store().store_memory(&m, 4), Err(StoreError::Embedding(_))));
}

#[test]
fn deleting_chooses_the_memory_and_its_edges() {
    let plan = store().delete_memory("m1");
    assert_eq!(plan.memories_where.to_sql(), "id = 'm1'");
    assert_eq!(plan.relationships_where.to_sql(), "source_id = 'm1' OR target_id = 'm1'");
    let lookup = store().get_memory("m1");
    assert_eq!(lookup.filter.to_sql(), "id = 'm1'");
    assert_eq!(lookup.limit, 1);
    assert_eq!(
        store().get_memory_relationships("a'b").to_sql(),
        "source_id = 'a''b' OR target_id = 'a''b'"
    );

    let row = memory_to_row(&memory("m1", MemoryType::Code, "A title", "c", &[], 0.5)).unwrap();
    let other = memory_to_row(&memory("m2", MemoryType::Code, "A title", "c", &[], 0.5)).unwrap();
    assert!(plan.memories_where.selects_memory(&row));
    assert!(!plan.memories_where.selects_memory(&other));

    let edge = |id: &str, s: &str, t: &str| {
        relationship_to_row(&MemoryRelationship {
            id: id.to_string(),
            source_id: s.to_string(),
            target_id: t.to_string(),
            relationship_type: RelationshipType::RelatedTo,
            strength: sc(0.5),
            description: "d".to_string(),
            created_at: now(),
        })
        .unwrap()
    };
    assert!(plan.relationships_where.selects_relationship(&edge("1", "m1", "x")));
    assert!(plan.relationships_where.selects_relationship(&edge("2", "x", "m1")));
    assert!(!plan.relationships_where.selects_relationship(&edge("3", "x", "y")));
}

#[test]
fn quoting_doubles_single_quotes() {
    assert_eq!(quote_filter_string("plain"), "plain");
    assert_eq!(quote_filter_string("o'clock"), "o''clock");
    assert_eq!(quote_filter_string("' OR 1=1 --"), "'' OR 1=1 --");
    assert_eq!(quote_filter_string("''"), "''''");
    assert_eq!(quote_filter_string(""), "");
}

#[test]
fn relationships_are_written_and_read() {
    let edge = MemoryRelationship {
        id: "e1".to_string(),
        source_id: "a".to_string(),
        target_id: "b".to_string(),
        relationship_type: RelationshipType::Custom("blocks".to_string()),
        strength: sc(0.25),
        description: "a blocks b".to_string(),
        created_at: now(),
    };
    let plan = store().store_relationship(&edge).unwrap();
    assert_eq!(plan.delete_where.to_sql(), "id = 'e1'");
    assert_eq!(plan.row.relationship_type, "blocks");
    assert_eq!(plan.row.created_at, "2024-01-01T00:00:00+00:00");
    let back = row_to_relationship(&plan.row).unwrap();
    assert_eq!(back.id, "e1");
    assert_eq!(back.source_id, "a");
    assert_eq!(back.target_id, "b");
    assert_eq!(back.relationship_type.to_string(), "blocks");
    assert_eq!(back.strength, sc(0.25));
    assert_eq!(back.description, "a blocks b");
    assert_eq!(back.created_at, now());
    let all = store().batch_to_relationships(&vec![plan.row]).unwrap();
    assert_eq!(all.len(), 1);
}

#[test]
fn batches_are_read_whole_or_not_at_all() {
    let a = memory_to_row(&memory("a", MemoryType::Code, "A title", "c", &[], 0.5)).unwrap();
    let b = memory_to_row(&memory("b", MemoryType::Code, "A title", "c", &[], 0.5)).unwrap();
    let all = store().batch_to_memories_at(&vec![clone_row(&a), clone_row(&b)], now()).unwrap();
    assert_eq!(all.iter().map(|m| m.id.as_str()).collect::<Vec<_>>(), vec!["a", "b"]);
    assert_eq!(store().batch_to_memories(&vec![clone_row(&a)]).unwrap().len(), 1);
    let broken = MemoryRow { updated_at: "".to_string(), ..clone_row(&b) };
    assert!(store().batch_to_memories_at(&vec![clone_row(&a), broken], now()).is_err());
    assert!(store().found_memory(&vec![], now()).unwrap().is_none());
    assert_eq!(store().found_memory(&vec![a, b], now()).unwrap().unwrap().id, "a");
}

#[test]
fn upsert_and_retrieve() {
    // One stored memory is the one result of a search for it, with a positive score.
    let mut m = memory("m", MemoryType::Code, "Arc vs Rc", "use Arc for cross-thread", &["concurrency"], 0.5);
    m.metadata.decay.access_count = 1;
    let plan = store().store_memory(&m, 3).unwrap();
    let rows = vec![row_to_memory(&plan.row, now()).unwrap()];
    let query = MemoryQuery { query_text: Some("Arc concurrency".to_string()), limit: Some(1), ..Default::default() };
    let results = plain_store().vector_search_at(&query, &rows, &vec![sc(0.2)], now());
    assert_eq!(results.len(), 1);
    assert_eq!(results[0].memory.id, "m");
    assert_eq!(results[0].memory.title, "Arc vs Rc");
    assert!(results[0].relevance_score.micros > 0);
    // similarity 0.8 times importance 0.5
    assert_eq!(results[0].relevance_score, sc(0.4));
    assert_eq!(results[0].selection_reason, "Semantic similarity: 0.40");
}

#[test]
fn filter_composition() {
    let rows = vec![
        memory("1", MemoryType::Code, "A title", "c", &[], 0.5),
        memory("2", MemoryType::Testing, "A title", "c", &[], 0.5),
        memory("3", MemoryType::Security, "A title", "c", &[], 0.5),
    ];
    let query = MemoryQuery {
        memory_types: Some(vec![MemoryType::Security]),
        limit: Some(10),
        ..Default::default()
    };
    let results = plain_store().vector_search_at(&query, &rows, &vec![], now());
    assert_eq!(results.len(), 1);
    assert_eq!(results[0].memory.id, "3");
    assert_eq!(results[0].selection_reason, "Matches memory type filter");
    let all = plain_store().search_memories(&query, &vec![], &vec![], &rows).unwrap();
    assert_eq!(all.len(), 1);
}

#[test]
fn filters_are_a_conjunction() {
    let s = store();
    let mut m = memory("1", MemoryType::Code, "A title", "c", &["rust", "async"], 0.6);
    m.metadata.related_files = vec!["src/a.rs".to_string()];
    m.metadata.git_commit = Some("abc".to_string());
    m.metadata.confidence = sc(0.9);
    let pass = |q: MemoryQuery| s.matches_filters(&m, &q);
    assert!(pass(MemoryQuery::default()));
    assert!(pass(MemoryQuery { tags: Some(vec!["go".to_string(), "async".to_string()]), ..Default::default() }));
    assert!(!pass(MemoryQuery { tags: Some(vec!["go".to_string()]), ..Default::default() }));
    assert!(!pass(MemoryQuery { tags: Some(vec![]), ..Default::default() }));
    assert!(pass(MemoryQuery { related_files: Some(vec!["src/a.rs".to_string()]), ..Default::default() }));
    assert!(!pass(MemoryQuery { related_files: Some(vec!["src/b.rs".to_string()]), ..Default::default() }));
    assert!(pass(MemoryQuery { git_commit: Some("abc".to_string()), ..Default::default() }));
    assert!(!pass(MemoryQuery { git_commit: Some("abd".to_string()), ..Default::default() }));
    assert!(pass(MemoryQuery { min_importance: Some(sc(0.6)), ..Default::default() }));
    assert!(!pass(MemoryQuery { min_importance: Some(sc(0.61)), ..Default::default() }));
    assert!(pass(MemoryQuery { min_confidence: Some(sc(0.9)), ..Default::default() }));
    assert!(!pass(MemoryQuery { min_confidence: Some(sc(0.95)), ..Default::default() }));
    assert!(pass(MemoryQuery { created_after: Some(now()), created_before: Some(now()), ..Default::default() }));
    assert!(!pass(MemoryQuery { created_after: Some(Timestamp::from_millis(NOW + 1)), ..Default::default() }));
    assert!(!pass(MemoryQuery { created_before: Some(Timestamp::from_millis(NOW - 1)), ..Default::default() }));
    assert!(!pass(MemoryQuery {
        memory_types: Some(vec![MemoryType::Code]),
        tags: Some(vec!["rust".to_string()]),
        git_commit: Some("zzz".to_string()),
        ..Default::default()
    }));
    let mut bare = memory("2", MemoryType::Code, "A title", "c", &[], 0.6);
    bare.metadata.git_commit = None;
    assert!(!s.matches_filters(
        &bare,
        &MemoryQuery { git_commit: Some("abc".to_string()), ..Default::default() }
    ));
}

#[test]
fn plain_search_orders_and_cuts() {
    let rows = vec![
        memory("low", MemoryType::Code, "A title", "c", &[], 0.2),
        memory("high", MemoryType::Code, "A title", "c", &[], 0.9),
        memory("mid", MemoryType::Code, "A title", "c", &[], 0.5),
        memory("mid2", MemoryType::Code, "A title", "c", &[], 0.5),
    ];
    let s = plain_store();
    let ids = |q: &MemoryQuery, d: &Vec<Score>| -> Vec<String> {
        s.vector_search_at(q, &rows, d, now()).iter().map(|r| r.memory.id.clone()).collect()
    };
    // without a text: by importance, ties in the order of the rows
    assert_eq!(ids(&MemoryQuery::default(), &vec![]), vec!["high", "mid", "mid2", "low"]);
    assert_eq!(ids(&MemoryQuery { limit: Some(2), ..Default::default() }, &vec![]), vec!["high", "mid"]);
    assert_eq!(
        ids(&MemoryQuery { min_relevance: Some(sc(0.5)), ..Default::default() }, &vec![]),
        vec!["high", "mid", "mid2"]
    );
    assert_eq!(
        ids(
            &MemoryQuery {
                sort_by: Some(MemorySortBy::Importance),
                sort_order: Some(SortOrder::Ascending),
                ..Default::default()
            },
            &vec![]
        ),
        vec!["low", "mid", "mid2", "high"]
    );
    // with a text: similarity times importance; rows without a distance are not looked at
    let q = MemoryQuery { query_text: Some("q".to_string()), ..Default::default() };
    let d = vec![sc(0.0), sc(0.9), sc(0.5)];
    // scores: low 0.2, high 0.09, mid 0.25
    assert_eq!(ids(&q, &d), vec!["mid", "low", "high"]);
    // a distance above one gives a negative score, which the floor of zero rejects
    assert_eq!(ids(&q, &vec![sc(1.5), sc(0.0)]), vec!["high"]);
    // the limit never exceeds what the store allows
    let small = MemoryStore::new(
        MemoryConfig { decay_enabled: false, max_search_results: 1, ..Default::default() },
        Config::default(),
        3,
    );
    assert_eq!(small.vector_search_at(&MemoryQuery { limit: Some(10), ..Default::default() }, &rows, &vec![], now()).len(), 1);
    assert_eq!(small.candidate_count(&MemoryQuery { limit: Some(10), ..Default::default() }), 2);
    assert_eq!(s.candidate_count(&MemoryQuery { limit: Some(10), ..Default::default() }), 20);
}

#[test]
fn plain_search_orders_by_date() {
    let mut old = memory("old", MemoryType::Code, "A title", "c", &[], 0.9);
    old.created_at = Timestamp::from_millis(NOW - 1000);
    let new = memory("new", MemoryType::Code, "A title", "c", &[], 0.1);
    let rows = vec![old, new];
    let s = plain_store();
    let q = MemoryQuery { sort_by: Some(MemorySortBy::CreatedAt), ..Default::default() };
    let r = s.vector_search_at(&q, &rows, &vec![], now());
    assert_eq!(r[0].memory.id, "new");
    let q = MemoryQuery {
        sort_by: Some(MemorySortBy::CreatedAt),
        sort_order: Some(SortOrder::Ascending),
        ..Default::default()
    };
    let r = s.vector_search_at(&q, &rows, &vec![], now());
    assert_eq!(r[0].memory.id, "old");
}

#[test]
fn selection_reasons_list_the_filters() {
    let s = store();
    assert_eq!(s.generate_selection_reason(&MemoryQuery::default(), sc(0.5)), "Matches search criteria");
    let q = MemoryQuery {
        query_text: Some("q".to_string()),
        memory_types: Some(vec![]),
        tags: Some(vec![]),
        related_files: Some(vec![]),
        git_commit: Some("c".to_string()),
        ..Default::default()
    };
    assert_eq!(
        s.generate_selection_reason(&q, sc(0.876)),
        "Semantic similarity: 0.88, Matches memory type filter, Contains matching tags, Related to specified files, Matches Git commit filter"
    );
}

#[test]
fn keyword_search_normalizes_and_orders() {
    let rows = vec![
        memory("content", MemoryType::Code, "Other words", "rust here now", &[], 0.5),
        memory("none", MemoryType::Code, "Nothing here", "at all", &[], 0.5),
        memory("title", MemoryType::Code, "Rust tips", "nothing", &[], 0.5),
        memory("tags", MemoryType::Testing, "Other words", "nothing", &["rust"], 0.5),
    ];
    let s = store();
    let keywords = vec!["rust".to_string()];
    let hits = s.keyword_search(&keywords, &MemoryQuery::default(), &rows);
    let got: Vec<(String, i64)> = hits.iter().map(|(m, s)| (m.id.clone(), s.micros)).collect();
    // raw: content 1/3, title 3/2, tags 2; divided by 2
    assert_eq!(
        got,
        vec![
            ("tags".to_string(), 1_000_000),
            ("title".to_string(), 750_000),
            ("content".to_string(), 166_666),
        ]
    );
    assert!(s.keyword_search(&[], &MemoryQuery::default(), &rows).is_empty());
    let only_tests = MemoryQuery { memory_types: Some(vec![MemoryType::Testing]), ..Default::default() };
    assert_eq!(s.keyword_search(&keywords, &only_tests, &rows).len(), 1);
}

#[test]
fn hybrid_ranking_tie_break() {
    // Two memories with the same similarity; the one tagged `rust` ranks higher.
    let rows = vec![
        memory("plain", MemoryType::Code, "First note", "nothing special", &[], 0.5),
        memory("tagged", MemoryType::Code, "Second note", "nothing special", &["rust"], 0.5),
    ];
    let query = HybridSearchQuery {
        vector_query: Some("notes".to_string()),
        keywords: Some(vec!["rust".to_string()]),
        vector_weight: sc(0.5),
        keyword_weight: sc(0.5),
        recency_weight: sc(0.0),
        importance_weight: sc(0.0),
        filters: MemoryQuery::default(),
    };
    let distances = vec![sc(0.2), sc(0.2)];
    let results = plain_store().hybrid_search_at(&query, &rows, &distances, &rows, now()).unwrap();
    assert_eq!(results.len(), 2);
    assert_eq!(results[0].memory.id, "tagged");
    assert_eq!(results[1].memory.id, "plain");
    assert!(results[0].relevance_score.micros > results[1].relevance_score.micros);
    // vector 0.8 * 0.5 = 0.4; final = 0.5 * 0.4 + 0.5 * kw
    assert_eq!(results[0].relevance_score, sc(0.7));
    assert_eq!(results[1].relevance_score, sc(0.2));
    assert_eq!(
        results[0].selection_reason,
        "Hybrid: vector=0.40, keyword=1.00, recency=1.00, importance=0.50, final=0.70"
    );
}

#[test]
fn hybrid_search_refuses_bad_queries() {
    let query = HybridSearchQuery { vector_weight: sc(1.5), ..Default::default() };
    let e = store().hybrid_search(&query, &vec![], &vec![], &vec![]).unwrap_err();
    assert_eq!(e, "Invalid hybrid query: vector_weight must be in [0.0, 1.0], got 1.5");
    let e = store().hybrid_search(&HybridSearchQuery::default(), &vec![], &vec![], &vec![]).unwrap_err();
    assert_eq!(e, "Invalid hybrid query: At least one of vector_query or keywords must be provided");
}

#[test]
fn hybrid_search_falls_back_to_all_rows() {
    let mut old = memory("old", MemoryType::Code, "A title", "c", &[], 0.9);
    old.created_at = now().minus_days(30);
    let rows = vec![old, memory("new", MemoryType::Code, "A title", "c", &[], 0.1)];
    let query = HybridSearchQuery {
        vector_query: None,
        keywords: Some(vec!["absent".to_string()]),
        vector_weight: sc(0.0),
        keyword_weight: sc(0.0),
        recency_weight: sc(1.0),
        importance_weight: sc(0.0),
        filters: MemoryQuery { limit: Some(5), ..Default::default() },
    };
    let results = plain_store().hybrid_search_at(&query, &vec![], &vec![], &rows, now()).unwrap();
    let got: Vec<(String, i64)> =
        results.iter().map(|r| (r.memory.id.clone(), r.relevance_score.micros)).collect();
    assert_eq!(got, vec![("new".to_string(), 1_000_000), ("old".to_string(), 367_879)]);
}

#[test]
fn searches_are_planned() {
    let with_text = MemoryQuery { query_text: Some("q".to_string()), ..Default::default() };
    let with_limit =
        MemoryQuery { query_text: Some("q".to_string()), limit: Some(3), ..Default::default() };
    let without_text = MemoryQuery { limit: Some(3), ..Default::default() };

    let hybrid = store();
    assert_eq!(hybrid.plan_search(&with_text), SearchPlan { nearest: Some(100), scan: true });
    assert_eq!(hybrid.plan_search(&with_limit), SearchPlan { nearest: Some(12), scan: true });
    assert_eq!(hybrid.plan_search(&without_text), SearchPlan { nearest: None, scan: true });

    let mut config = Config::default();
    config.search.hybrid.enabled = false;
    let plain = MemoryStore::new(MemoryConfig::default(), config, 3);
    assert_eq!(plain.plan_search(&with_text), SearchPlan { nearest: Some(100), scan: false });
    assert_eq!(plain.plan_search(&with_limit), SearchPlan { nearest: Some(6), scan: false });
    assert_eq!(plain.plan_search(&without_text), SearchPlan { nearest: None, scan: true });

    let mut h = HybridSearchQuery { vector_query: Some("q".to_string()), ..Default::default() };
    assert_eq!(hybrid.hybrid_candidate_count(&h), 100);
    h.filters.limit = Some(3);
    assert_eq!(hybrid.hybrid_candidate_count(&h), 12);
    h.filters.limit = Some(40);
    assert_eq!(hybrid.hybrid_candidate_count(&h), 100);
    h.filters.limit = Some(usize::MAX);
    assert_eq!(hybrid.hybrid_candidate_count(&h), 100);
    h.vector_query = None;
    h.keywords = Some(vec!["k".to_string()]);
    assert_eq!(hybrid.hybrid_candidate_count(&h), 0);
}

#[test]
fn search_dispatches_on_the_settings() {
    let rows = vec![memory("m", MemoryType::Code, "A title", "c", &[], 0.5)];
    let query = MemoryQuery { query_text: Some("q".to_string()), ..Default::default() };
    let hybrid = plain_store().search_memories(&query, &rows, &vec![sc(0.0)], &rows).unwrap();
    assert!(hybrid[0].selection_reason.starts_with("Hybrid: "));
    let mut config = Config::default();
    config.search.hybrid.enabled = false;
    let plain = MemoryStore::new(MemoryConfig { decay_enabled: false, ..Default::default() }, config, 3);
    let results = plain.search_memories(&query, &rows, &vec![sc(0.0)], &rows).unwrap();
    assert_eq!(results[0].selection_reason, "Semantic similarity: 0.50");
    let h = plain.convert_to_hybrid_query(&query);
    assert_eq!(h.vector_query.as_deref(), Some("q"));
    assert!(h.keywords.is_none());
    assert_eq!(h.vector_weight, sc(0.6));
    assert_eq!(h.importance_weight, sc(0.1));
}

#[test]
fn decay_over_time() {
    let s = store();
    let at = |days: u32| {
        let mut m = memory("m", MemoryType::Code, "A title", "c", &[], 1.0);
        m.metadata.decay.base_importance = sc(1.0);
        m.metadata.decay.last_accessed = now().minus_days(days);
        m.metadata.decay.access_count = 1;
        m.get_current_importance_at(true, sc(0.0), now()).micros
    };
    assert!(at(90) < at(60) && at(60) < at(30));
    let _ = s;
}

#[test]
fn cleanup() {
    let config = MemoryConfig {
        auto_cleanup_days: Some(30),
        cleanup_min_importance: sc(0.2),
        ..Default::default()
    };
    let s = MemoryStore::new(config, Config::default(), 3);
    let predicate = s.cleanup_old_memories_at(now()).unwrap().unwrap();
    assert_eq!(
        predicate.to_sql(),
        "created_at < '2023-12-02T00:00:00+00:00' AND importance < 0.2"
    );
    let row = |id: &str, days_old: u32, importance: f64| {
        let mut m = memory(id, MemoryType::Code, "A title", "c", &[], importance);
        m.created_at = now().minus_days(days_old);
        memory_to_row(&m).unwrap()
    };
    let rows = vec![row("old-low", 60, 0.1), row("old-high", 60, 0.5), row("new-low", 1, 0.1)];
    let removed: Vec<&str> =
        rows.iter().filter(|r| predicate.selects_memory(r)).map(|r| r.id.as_str()).collect();
    assert_eq!(removed, vec!["old-low"]);
    assert!(matches!(s.cleanup_old_memories(), Ok(Some(RowPredicate::Stale { .. }))));

    let never = MemoryStore::new(
        MemoryConfig { auto_cleanup_days: None, ..Default::default() },
        Config::default(),
        3,
    );
    assert!(never.cleanup_old_memories().unwrap().is_none());
}

#[test]
fn clear_all() {
    let s = store();
    assert_eq!(s.clear_all_memory_data(Some(7), Some(3)), 10);
    assert_eq!(s.clear_all_memory_data(None, Some(3)), 3);
    assert_eq!(s.clear_all_memory_data(Some(7), None), 7);
    assert_eq!(s.clear_all_memory_data(Some(usize::MAX), Some(1)), usize::MAX);
    // after the wipe both tables are made anew
    let made = s.initialize_tables(&vec![]);
    assert!(made.memories && made.relationships);
    let kept = s.initialize_tables(&vec!["memories".to_string(), "other".to_string()]);
    assert!(!kept.memories && kept.relationships);
}

#[test]
fn index_is_built_only_when_worth_it() {
    let s = MemoryStore::new(MemoryConfig::default(), Config::default(), 768);
    assert_eq!(s.ensure_optimal_index(999, false), IndexAction::Keep);
    assert_eq!(s.ensure_optimal_index(5000, true), IndexAction::Keep);
    match s.ensure_optimal_index(10_000, false) {
        IndexAction::Create(p) => {
            assert!(p.should_create_index);
            assert_eq!(p.num_partitions, 100);
            assert_eq!(p.num_sub_vectors, 96);
            assert_eq!(p.num_bits, 8);
        },
        IndexAction::Keep => panic!("an index is due"),
    }
}

#[test]
fn schemas_name_the_columns() {
    let s = store();
    let names: Vec<&str> = s.memories_schema().iter().map(|c| c.name).collect();
    assert_eq!(
        names,
        vec![
            "id", "memory_type", "title", "content", "created_at", "updated_at", "importance",
            "confidence", "tags_json", "related_files_json", "git_commit", "embedding"
        ]
    );
    let names: Vec<&str> = s.relationships_schema().iter().map(|c| c.name).collect();
    assert_eq!(
        names,
        vec!["id", "source_id", "target_id", "relationship_type", "strength", "description", "created_at"]
    );
}

#[test]
fn titles_have_five_to_two_hundred_characters() {
    assert!(MemoryStore::validate_title("12345").is_ok());
    assert!(MemoryStore::validate_title(&"x".repeat(200)).is_ok());
    assert!(MemoryStore::validate_title("äöüß€").is_ok());
    assert!(matches!(MemoryStore::validate_title("1234"), Err(StoreError::InvalidInput(_))));
    assert!(matches!(MemoryStore::validate_title(&"x".repeat(201)), Err(StoreError::InvalidInput(_))));
}

#[test]
fn a_missing_memory_is_reported() {
    let m = memory("m", MemoryType::Code, "A title", "c", &[], 0.5);
    assert_eq!(MemoryStore::require_found("m", Some(m)).unwrap().id, "m");
    match MemoryStore::require_found("gone", None) {
        Err(StoreError::NotFound(e)) => assert_eq!(e, "Memory not found: gone"),
        _ => panic!("a missing memory is not found"),
    }
}
