use octobrain::clock::Timestamp;
use octobrain::fixed::Score;
use octobrain::memory::types::{
    HybridSearchQuery, Memory, MemoryDecay, MemoryMetadata, MemoryType,
};

fn sc(x: f64) -> Score {
    Score::from_micros((x * 1_000_000.0).round() as i64)
}

fn f(s: Score) -> f32 {
    s.micros as f32 / 1_000_000.0
}

fn days_ago(days: u32) -> Timestamp {
    Timestamp::now().minus_days(days)
}

#[test]
fn test_memory_decay_creation() {
    let decay = MemoryDecay::new(sc(0.8));

    assert_eq!(f(decay.base_importance), 0.8);
    assert_eq!(decay.access_count, 0);
    assert_eq!(f(decay.decay_rate), 1.0);

    // Last accessed should be recent (within last second)
    let now = Timestamp::now();
    let diff = ((now.millis - decay.last_accessed.millis) / 1000).abs();
    assert!(diff < 2, "Last accessed should be recent");
}

#[test]
fn test_importance_decay_over_time() {
    let mut decay = MemoryDecay::new(sc(1.0));

    // Simulate 30 days ago
    decay.last_accessed = days_ago(30);

    let current_importance = f(decay.calculate_current_importance(sc(0.05)));

    // After 30 days with decay_rate=1.0, importance should be ~0.368 (e^-1)
    // But with access_boost of ln(1) = 0, it becomes 0
    // So we need at least 1 access for meaningful importance
    assert!(
        current_importance >= 0.05,
        "Should respect minimum threshold"
    );
    assert!(current_importance < 1.0, "Should decay from its base");
}

#[test]
fn test_access_reinforcement() {
    let mut decay = MemoryDecay::new(sc(0.5));

    // Simulate 60 days ago
    decay.last_accessed = days_ago(60);

    // Calculate importance with no accesses
    let importance_no_access = f(decay.calculate_current_importance(sc(0.05)));

    // Add multiple accesses
    for _ in 0..10 {
        decay.record_access();
    }

    // Calculate importance with accesses
    let importance_with_access = f(decay.calculate_current_importance(sc(0.05)));

    // With accesses, importance should be higher
    assert!(
        importance_with_access > importance_no_access,
        "Access should boost importance: {} vs {}",
        importance_with_access,
        importance_no_access
    );
}

#[test]
fn test_record_access_updates_timestamp() {
    let mut decay = MemoryDecay::new(sc(0.7));

    // Set last accessed to 10 days ago
    let old_time = days_ago(10);
    decay.last_accessed = old_time;
    decay.access_count = 0;

    // Record access
    decay.record_access();

    // Check access count increased
    assert_eq!(decay.access_count, 1);

    // Check timestamp updated (should be within last second)
    let now = Timestamp::now();
    let diff = ((now.millis - decay.last_accessed.millis) / 1000).abs();
    assert!(diff < 2, "Last accessed should be updated to now");
}

#[test]
fn test_importance_floor() {
    let mut decay = MemoryDecay::new(sc(0.1));

    // Simulate very old memory (1 year)
    decay.last_accessed = days_ago(365);

    let min_threshold = 0.05;
    let current_importance = f(decay.calculate_current_importance(sc(0.05)));

    // Should never go below minimum threshold
    assert!(
        current_importance >= min_threshold,
        "Importance should not go below floor: {}",
        current_importance
    );
}

#[test]
fn test_update_base_importance() {
    let mut decay = MemoryDecay::new(sc(0.5));

    decay.update_base_importance(sc(0.9));
    assert_eq!(f(decay.base_importance), 0.9);

    // Test clamping to [0.0, 1.0]
    decay.update_base_importance(sc(1.5));
    assert_eq!(f(decay.base_importance), 1.0);

    decay.update_base_importance(sc(-0.5));
    assert_eq!(f(decay.base_importance), 0.0);
}

#[test]
fn test_memory_get_current_importance_with_decay_enabled() {
    let mut metadata = MemoryMetadata::default();
    metadata.importance = sc(0.8);
    metadata.decay = MemoryDecay::new(sc(0.8));

    // Simulate 30 days old
    metadata.decay.last_accessed = days_ago(30);
    metadata.decay.access_count = 5;

    let memory = Memory::new(
        MemoryType::Code,
        "Test".to_string(),
        "Content".to_string(),
        Some(metadata),
    );

    // With decay enabled
    let importance_with_decay = f(memory.get_current_importance(true, sc(0.05)));

    // Without decay
    let importance_without_decay = f(memory.get_current_importance(false, sc(0.05)));

    // Without decay should return base importance
    assert_eq!(importance_without_decay, 0.8);

    // With decay should be different (likely lower due to time)
    assert!(importance_with_decay <= 0.8);
}

#[test]
fn test_memory_record_access() {
    let mut memory = Memory::new(
        MemoryType::Code,
        "Test".to_string(),
        "Content".to_string(),
        None,
    );

    let initial_count = memory.metadata.decay.access_count;

    memory.record_access();

    assert_eq!(memory.metadata.decay.access_count, initial_count + 1);
}

#[test]
fn test_decay_formula_correctness() {
    let mut decay = MemoryDecay::new(sc(1.0));
    decay.decay_rate = sc(1.0);
    decay.access_count = 0;

    // Test at different time points

    // Day 0 (just created)
    decay.last_accessed = Timestamp::now();
    let importance_day_0 = f(decay.calculate_current_importance(sc(0.0)));
    // ln(1) = 0, so importance should be 0 or min_threshold
    assert_eq!(importance_day_0, 0.0);

    // Day 30
    decay.last_accessed = days_ago(30);
    decay.access_count = 1; // Need at least 1 access for non-zero importance
    let importance_day_30 = f(decay.calculate_current_importance(sc(0.0)));

    // Day 60
    decay.last_accessed = days_ago(60);
    decay.access_count = 1;
    let importance_day_60 = f(decay.calculate_current_importance(sc(0.0)));

    // Importance should decrease over time
    assert!(
        importance_day_30 > importance_day_60,
        "Importance should decay over time: day30={} vs day60={}",
        importance_day_30,
        importance_day_60
    );
}

#[test]
fn test_multiple_accesses_compound_boost() {
    let mut decay = MemoryDecay::new(sc(0.5));
    decay.last_accessed = days_ago(30);

    // Test with increasing access counts
    let mut importances = Vec::new();

    for count in [1, 5, 10, 20, 50] {
        decay.access_count = count;
        let importance = f(decay.calculate_current_importance(sc(0.0)));
        importances.push(importance);
    }

    // Each subsequent importance should be higher (logarithmic growth)
    for i in 1..importances.len() {
        assert!(
            importances[i] > importances[i - 1],
            "More accesses should increase importance: {} vs {}",
            importances[i],
            importances[i - 1]
        );
    }
}

#[test]
fn test_decay_disabled_returns_base_importance() {
    let mut metadata = MemoryMetadata::default();
    metadata.importance = sc(0.75);
    metadata.decay = MemoryDecay::new(sc(0.75));
    metadata.decay.last_accessed = days_ago(365); // Very old

    let memory = Memory::new(
        MemoryType::Code,
        "Test".to_string(),
        "Content".to_string(),
        Some(metadata),
    );

    // With decay disabled, should always return base importance
    let importance = f(memory.get_current_importance(false, sc(0.05)));
    assert_eq!(importance, 0.75);
}

// Hybrid Search Query Tests

#[test]
fn test_hybrid_query_default_weights() {
    let query = HybridSearchQuery::default();

    assert_eq!(f(query.vector_weight), 0.6);
    assert_eq!(f(query.keyword_weight), 0.2);
    assert_eq!(f(query.recency_weight), 0.1);
    assert_eq!(f(query.importance_weight), 0.1);

    // Weights should sum to 1.0
    let sum = f(query.vector_weight)
        + f(query.keyword_weight)
        + f(query.recency_weight)
        + f(query.importance_weight);
    assert!(
        (sum - 1.0).abs() < 0.001,
        "Weights should sum to 1.0, got {}",
        sum
    );
}

#[test]
fn test_weight_normalization() {
    let mut query = HybridSearchQuery {
        vector_query: Some("test".to_string()),
        keywords: None,
        vector_weight: sc(2.0),
        keyword_weight: sc(1.0),
        recency_weight: sc(1.0),
        importance_weight: sc(0.0),
        filters: Default::default(),
    };

    query.normalize_weights();

    // After normalization, weights should sum to 1.0
    let sum = f(query.vector_weight)
        + f(query.keyword_weight)
        + f(query.recency_weight)
        + f(query.importance_weight);
    assert!(
        (sum - 1.0).abs() < 0.001,
        "Normalized weights should sum to 1.0, got {}",
        sum
    );

    // Check proportions are maintained
    assert!((f(query.vector_weight) - 0.5).abs() < 0.001); // 2/4 = 0.5
    assert!((f(query.keyword_weight) - 0.25).abs() < 0.001); // 1/4 = 0.25
    assert!((f(query.recency_weight) - 0.25).abs() < 0.001); // 1/4 = 0.25
    assert_eq!(f(query.importance_weight), 0.0);
}

#[test]
fn test_weight_validation() {
    // Valid query
    let valid_query = HybridSearchQuery {
        vector_query: Some("test".to_string()),
        keywords: None,
        vector_weight: sc(0.5),
        keyword_weight: sc(0.3),
        recency_weight: sc(0.1),
        importance_weight: sc(0.1),
        filters: Default::default(),
    };
    assert!(valid_query.validate().is_ok());

    // Invalid: weight > 1.0
    let invalid_query = HybridSearchQuery {
        vector_query: Some("test".to_string()),
        keywords: None,
        vector_weight: sc(1.5),
        keyword_weight: sc(0.2),
        recency_weight: sc(0.1),
        importance_weight: sc(0.1),
        filters: Default::default(),
    };
    assert!(invalid_query.validate().is_err());

    // Invalid: weight < 0.0
    let invalid_query2 = HybridSearchQuery {
        vector_query: Some("test".to_string()),
        keywords: None,
        vector_weight: sc(0.5),
        keyword_weight: sc(-0.1),
        recency_weight: sc(0.1),
        importance_weight: sc(0.1),
        filters: Default::default(),
    };
    assert!(invalid_query2.validate().is_err());

    // Invalid: no query or keywords
    let invalid_query3 = HybridSearchQuery {
        vector_query: None,
        keywords: None,
        vector_weight: sc(0.5),
        keyword_weight: sc(0.3),
        recency_weight: sc(0.1),
        importance_weight: sc(0.1),
        filters: Default::default(),
    };
    assert!(invalid_query3.validate().is_err());
}

#[test]
fn validation_names_the_first_fault() {
    let mut query = HybridSearchQuery {
        vector_query: None,
        keywords: None,
        vector_weight: sc(1.5),
        keyword_weight: sc(-0.1),
        recency_weight: sc(2.0),
        importance_weight: sc(3.0),
        filters: Default::default(),
    };
    assert_eq!(query.validate().unwrap_err(), "vector_weight must be in [0.0, 1.0], got 1.5");
    query.vector_weight = sc(1.0);
    assert_eq!(query.validate().unwrap_err(), "keyword_weight must be in [0.0, 1.0], got -0.1");
    query.keyword_weight = sc(0.0);
    assert_eq!(query.validate().unwrap_err(), "recency_weight must be in [0.0, 1.0], got 2");
    query.recency_weight = sc(0.25);
    assert_eq!(query.validate().unwrap_err(), "importance_weight must be in [0.0, 1.0], got 3");
    query.importance_weight = sc(0.25);
    assert_eq!(
        query.validate().unwrap_err(),
        "At least one of vector_query or keywords must be provided"
    );
    query.keywords = Some(vec!["rust".to_string()]);
    assert!(query.validate().is_ok());
}

#[test]
fn normalization_keeps_a_zero_sum_and_rounds_down() {
    let mut zero = HybridSearchQuery {
        vector_query: None,
        keywords: None,
        vector_weight: sc(0.0),
        keyword_weight: sc(0.0),
        recency_weight: sc(0.0),
        importance_weight: sc(0.0),
        filters: Default::default(),
    };
    zero.normalize_weights();
    assert_eq!(zero.vector_weight.micros, 0);
    assert_eq!(zero.importance_weight.micros, 0);

    let mut thirds = HybridSearchQuery {
        vector_query: None,
        keywords: None,
        vector_weight: sc(1.0),
        keyword_weight: sc(1.0),
        recency_weight: sc(1.0),
        importance_weight: sc(0.0),
        filters: Default::default(),
    };
    thirds.normalize_weights();
    assert_eq!(thirds.vector_weight.micros, 333_333);
    assert_eq!(thirds.keyword_weight.micros, 333_333);
    assert_eq!(thirds.recency_weight.micros, 333_333);
    assert_eq!(thirds.importance_weight.micros, 0);
}

#[test]
fn importance_follows_the_formula() {
    let now = Timestamp::from_millis(1_700_000_000_000);
    let mut decay = MemoryDecay::new_at(sc(1.0), now.minus_days(30));
    decay.access_count = 1;
    // 1.0 * exp(-1) * ln(2) = 0.367879 * 0.693147
    let at_30 = decay.calculate_current_importance_at(now, sc(0.0));
    assert_eq!(at_30.micros, 254_994);
    decay.last_accessed = now.minus_days(60);
    let at_60 = decay.calculate_current_importance_at(now, sc(0.0));
    assert_eq!(at_60.micros, 93_807);
    decay.last_accessed = now.minus_days(90);
    let at_90 = decay.calculate_current_importance_at(now, sc(0.0));
    assert_eq!(at_90.micros, 34_509);
    assert!(at_90.micros < at_60.micros && at_60.micros < at_30.micros);
    // the floor
    assert_eq!(decay.calculate_current_importance_at(now, sc(0.05)).micros, 50_000);
    // never read: ln(1) = 0
    decay.access_count = 0;
    assert_eq!(decay.calculate_current_importance_at(now, sc(0.0)).micros, 0);
    // a last access in the future gives growth
    decay.access_count = 1;
    decay.last_accessed = Timestamp::from_millis(now.millis + 30 * 86_400_000);
    assert_eq!(decay.calculate_current_importance_at(now, sc(0.0)).micros, 1_884_168);
}

#[test]
fn access_count_stops_at_its_largest_value() {
    let mut decay = MemoryDecay::new(sc(0.5));
    decay.access_count = u32::MAX;
    decay.record_access_at(Timestamp::from_millis(7));
    assert_eq!(decay.access_count, u32::MAX);
    assert_eq!(decay.last_accessed.millis, 7);
}

#[test]
fn decay_default_is_one_half() {
    let decay = MemoryDecay::default();
    assert_eq!(decay.base_importance.micros, 500_000);
    assert_eq!(decay.access_count, 0);
    assert_eq!(decay.decay_rate.micros, 1_000_000);
}
