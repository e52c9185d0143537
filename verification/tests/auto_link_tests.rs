use octobrain::clock::Timestamp;
use octobrain::fixed::Score;
use octobrain::memory::graph::LinkCandidate;
use octobrain::memory::store::MemoryStore;
use octobrain::memory::types::{
    Memory, MemoryConfig, MemoryGraph, MemoryRelationship, MemoryType, RelationshipType,
};
use octobrain::config::Config;

fn sc(x: f64) -> Score {
    Score::from_micros((x * 1_000_000.0).round() as i64)
}

fn f(s: Score) -> f32 {
    s.micros as f32 / 1_000_000.0
}

fn memory_with_id(id: &str) -> Memory {
    Memory::new_at(
        MemoryType::Code,
        "Test Memory".to_string(),
        "Test content".to_string(),
        None,
        id.to_string(),
        Timestamp::from_millis(1_700_000_000_000),
    )
}

fn edge(id: &str, source: &str, target: &str) -> MemoryRelationship {
    MemoryRelationship {
        id: id.to_string(),
        source_id: source.to_string(),
        target_id: target.to_string(),
        relationship_type: RelationshipType::RelatedTo,
        strength: sc(0.5),
        description: "d".to_string(),
        created_at: Timestamp::from_millis(0),
    }
}

#[test]
fn test_auto_link_config_defaults() {
    let config = MemoryConfig::default();

    assert!(
        config.auto_linking_enabled,
        "Auto-linking should be enabled by default"
    );
    assert_eq!(
        f(config.auto_link_threshold),
        0.78,
        "Default threshold should be 0.78"
    );
    assert_eq!(
        config.max_auto_links_per_memory, 5,
        "Default max links should be 5"
    );
    assert!(
        config.bidirectional_links,
        "Bidirectional links should be enabled by default"
    );
}

#[test]
fn test_relationship_type_auto_linked() {
    let rel_type = RelationshipType::AutoLinked;
    let output = rel_type.to_string();

    assert_eq!(output, "auto_linked");
}

#[test]
fn test_memory_graph_creation() {
    let graph = MemoryGraph {
        root: "test-id".to_string(),
        memories: Vec::new(),
        relationships: Vec::new(),
    };

    assert_eq!(graph.root, "test-id");
    assert!(graph.memories.is_empty());
    assert!(graph.relationships.is_empty());
}

#[test]
fn test_auto_link_threshold_validation() {
    let config = MemoryConfig::default();

    // Threshold should be in reasonable range for quality links
    assert!(
        f(config.auto_link_threshold) >= 0.7 && f(config.auto_link_threshold) <= 0.9,
        "Threshold should be between 0.7 and 0.9 for quality links"
    );
}

#[test]
fn test_max_auto_links_reasonable() {
    let config = MemoryConfig::default();

    // Max links should be reasonable to prevent over-linking
    assert!(
        config.max_auto_links_per_memory >= 3 && config.max_auto_links_per_memory <= 10,
        "Max links should be between 3 and 10"
    );
}

#[test]
fn test_bidirectional_links_default() {
    let config = MemoryConfig::default();
    assert!(
        config.bidirectional_links,
        "Bidirectional links should be enabled for Zettelkasten-style linking"
    );
}

#[test]
fn test_auto_link_config_customization() {
    let config = MemoryConfig {
        auto_linking_enabled: false,
        auto_link_threshold: sc(0.85),
        max_auto_links_per_memory: 3,
        bidirectional_links: false,
        ..Default::default()
    };

    assert!(!config.auto_linking_enabled);
    assert_eq!(f(config.auto_link_threshold), 0.85);
    assert_eq!(config.max_auto_links_per_memory, 3);
    assert!(!config.bidirectional_links);
}

#[test]
fn test_memory_graph_with_data() {
    let mut graph = MemoryGraph {
        root: "root-id".to_string(),
        memories: Vec::new(),
        relationships: Vec::new(),
    };

    // Add a memory
    let memory = Memory::new(
        MemoryType::Code,
        "Test Memory".to_string(),
        "Test content".to_string(),
        None,
    );
    graph.memories.push(memory);

    // Add a relationship
    let rel = MemoryRelationship {
        id: "rel-1".to_string(),
        source_id: "root-id".to_string(),
        target_id: "target-id".to_string(),
        relationship_type: RelationshipType::AutoLinked,
        strength: sc(0.85),
        description: "Auto-linked".to_string(),
        created_at: Timestamp::now(),
    };
    graph.relationships.push(rel);

    assert_eq!(graph.memories.len(), 1);
    assert_eq!(graph.relationships.len(), 1);
    assert_eq!(
        graph.relationships[0].relationship_type.to_string(),
        "auto_linked"
    );
}

#[test]
fn relationship_labels_read_back() {
    let kinds = vec![
        (RelationshipType::RelatedTo, "related_to"),
        (RelationshipType::DependsOn, "depends_on"),
        (RelationshipType::Supersedes, "supersedes"),
        (RelationshipType::Similar, "similar"),
        (RelationshipType::Conflicts, "conflicts"),
        (RelationshipType::Implements, "implements"),
        (RelationshipType::Extends, "extends"),
        (RelationshipType::AutoLinked, "auto_linked"),
        (RelationshipType::Custom("blocks".to_string()), "blocks"),
    ];
    for (kind, label) in kinds {
        assert_eq!(kind.to_string(), label);
        assert_eq!(RelationshipType::from_label(label).to_string(), label);
    }
    assert!(matches!(RelationshipType::from_label("similar"), RelationshipType::Similar));
    assert!(matches!(RelationshipType::from_label("Similar"), RelationshipType::Custom(_)));
}

#[test]
fn link_candidates_are_the_nearest_rows_with_their_similarity() {
    let nearest = vec![memory_with_id("a"), memory_with_id("b"), memory_with_id("c")];
    let distances = vec![sc(0.05), sc(0.2)];
    let candidates = MemoryStore::link_candidates(&nearest, &distances);
    let pairs: Vec<(String, Score)> =
        candidates.iter().map(|c| (c.id.clone(), c.similarity)).collect();
    assert_eq!(pairs, vec![("a".to_string(), sc(0.95)), ("b".to_string(), sc(0.8))]);
    assert!(MemoryStore::link_candidates(&nearest, &vec![]).is_empty());
    let far = MemoryStore::link_candidates(&nearest, &vec![sc(1.5)]);
    assert_eq!(far[0].similarity, sc(-0.5));
}

#[test]
fn auto_link_reads_one_more_row_than_it_may_link() {
    let store = MemoryStore::new(MemoryConfig::default(), Config::default(), 4);
    assert_eq!(store.auto_link_reach(), 6);
    let off = MemoryConfig { auto_linking_enabled: false, ..Default::default() };
    assert_eq!(MemoryStore::new(off, Config::default(), 4).auto_link_reach(), 0);
    let all = MemoryConfig { max_auto_links_per_memory: usize::MAX, ..Default::default() };
    assert_eq!(MemoryStore::new(all, Config::default(), 4).auto_link_reach(), usize::MAX);
}

#[test]
fn auto_link_links_the_closest_above_the_threshold() {
    let store = MemoryStore::new(MemoryConfig::default(), Config::default(), 4);
    let me = memory_with_id("me");
    let candidates = vec![
        LinkCandidate { id: "me".to_string(), similarity: sc(1.0) },
        LinkCandidate { id: "a".to_string(), similarity: sc(0.95) },
        LinkCandidate { id: "b".to_string(), similarity: sc(0.78) },
        LinkCandidate { id: "c".to_string(), similarity: sc(0.80) },
    ];
    let now = Timestamp::from_millis(42);
    let edges = store.auto_link_at(&me, &candidates, now);
    let pairs: Vec<(String, String)> =
        edges.iter().map(|e| (e.source_id.clone(), e.target_id.clone())).collect();
    assert_eq!(
        pairs,
        vec![
            ("me".to_string(), "a".to_string()),
            ("a".to_string(), "me".to_string()),
            ("me".to_string(), "c".to_string()),
            ("c".to_string(), "me".to_string()),
        ]
    );
    for e in &edges {
        assert_eq!(e.relationship_type.to_string(), "auto_linked");
        assert_eq!(e.created_at, now);
        assert_eq!(e.id.len(), 36);
    }
    assert_eq!(edges[0].strength, sc(0.95));
    assert_eq!(edges[2].strength, sc(0.80));
}

#[test]
fn auto_link_respects_limit_direction_and_switch() {
    let me = memory_with_id("me");
    let candidates: Vec<LinkCandidate> = (0..10)
        .map(|i| LinkCandidate { id: format!("m{}", i), similarity: sc(0.9) })
        .collect();
    let one_way = MemoryConfig { bidirectional_links: false, max_auto_links_per_memory: 3, ..Default::default() };
    let store = MemoryStore::new(one_way, Config::default(), 4);
    let edges = store.auto_link_at(&me, &candidates, Timestamp::from_millis(0));
    assert_eq!(edges.len(), 3);
    assert!(edges.iter().all(|e| e.source_id == "me"));
    assert_eq!(edges[2].target_id, "m2");

    let off = MemoryConfig { auto_linking_enabled: false, ..Default::default() };
    let store = MemoryStore::new(off, Config::default(), 4);
    assert!(store.auto_link_at(&me, &candidates, Timestamp::from_millis(0)).is_empty());
    assert!(store.auto_link(&me, &candidates).is_empty());
}

#[test]
fn auto_link_clamps_strength() {
    let store = MemoryStore::new(MemoryConfig::default(), Config::default(), 4);
    let me = memory_with_id("me");
    let candidates = vec![LinkCandidate { id: "a".to_string(), similarity: sc(1.25) }];
    let edges = store.auto_link(&me, &candidates);
    assert_eq!(edges.len(), 2);
    assert_eq!(edges[0].strength, sc(1.0));
}

#[test]
fn neighbour_ids_are_the_other_ends_once() {
    let edges = vec![
        edge("1", "root", "a"),
        edge("2", "b", "root"),
        edge("3", "root", "a"),
        edge("4", "x", "y"),
        edge("5", "root", "root"),
    ];
    let ids = MemoryStore::neighbour_ids("root", &edges);
    assert_eq!(ids, vec!["a", "b", "root"]);
}

#[test]
fn memory_graph_leaves_out_dangling_edges() {
    let root = memory_with_id("root");
    let edges = vec![
        edge("1", "root", "a"),
        edge("2", "b", "root"),
        edge("3", "root", "gone"),
        edge("4", "x", "y"),
    ];
    let found = vec![memory_with_id("a"), memory_with_id("b"), memory_with_id("a"), memory_with_id("stranger")];
    let graph = MemoryStore::memory_graph(&root, &edges, &found);
    assert_eq!(graph.root, "root");
    let ids: Vec<&str> = graph.memories.iter().map(|m| m.id.as_str()).collect();
    assert_eq!(ids, vec!["root", "a", "b"]);
    let kept: Vec<&str> = graph.relationships.iter().map(|e| e.id.as_str()).collect();
    assert_eq!(kept, vec!["1", "2"]);
}
