use octobrain::clock::Timestamp;
use octobrain::config::Config;
use octobrain::expmath::{exp_down_micros, exp_neg_micros, log_of};
use octobrain::fixed::Score;
use octobrain::memory::rows::{quote_filter_string, RowPredicate};
use octobrain::memory::store::MemoryStore;
use octobrain::memory::types::{
    HybridSearchQuery, Memory, MemoryConfig, MemoryDecay, MemoryMetadata, MemoryQuery, MemoryType,
};
use octobrain::order::sort_order;
use octobrain::vector_optimizer::VectorOptimizer;

/// A small generator of numbers that look random and are the same on every run.
struct Numbers(u64);

impl Numbers {
    fn next(&mut self) -> u64 {
        self.0 = self.0.wrapping_mul(6364136223846793005).wrapping_add(1442695040888963407);
        self.0 >> 33
    }

    fn below(&mut self, n: u64) -> u64 {
        self.next() % n
    }
}

#[test]
fn the_exponential_is_accurate() {
    let mut x: u64 = 0;
    while x <= 15_000_000 {
        let got = exp_down_micros(x) as f64 / 1e6;
        let want = (-(x as f64) / 1e6).exp();
        assert!((got - want).abs() <= 1.0e-6, "exp(-{}) = {} but got {}", x as f64 / 1e6, want, got);
        x += 9_973;
    }
    let mut t: i64 = 0;
    while t <= 24_000_000 {
        let got = exp_neg_micros(-t) as f64 / 1e6;
        let want = (t as f64 / 1e6).exp();
        assert!((got - want).abs() <= want * 1.0e-9 + 1.0e-6, "exp({}) = {} but got {}", t as f64 / 1e6, want, got);
        t += 99_991;
    }
}

#[test]
fn the_logarithm_is_accurate() {
    let mut numbers = Numbers(7);
    for n in 1..2_000u64 {
        let got = log_of(n) as f64 / 1e6;
        assert!((got - (n as f64).ln()).abs() <= 2.0e-6, "ln({}) but got {}", n, got);
    }
    for _ in 0..500 {
        let n = 1 + numbers.below(u32::MAX as u64 + 1);
        let got = log_of(n) as f64 / 1e6;
        assert!((got - (n as f64).ln()).abs() <= 2.0e-6, "ln({}) but got {}", n, got);
    }
}

#[test]
fn the_exponential_never_rises() {
    let mut last = exp_neg_micros(-30_000_000);
    let mut x: i64 = -30_000_000;
    while x <= 16_000_000 {
        let now = exp_neg_micros(x);
        assert!(now <= last, "exp(-x) rose at x = {}", x);
        last = now;
        x += 7_919;
    }
}

#[test]
fn importance_never_rises_with_time_nor_falls_with_reads() {
    let now = Timestamp::from_millis(1_700_000_000_000);
    let mut numbers = Numbers(11);
    for _ in 0..200 {
        let base = Score::from_micros(numbers.below(1_000_001) as i64);
        let floor = Score::from_micros(numbers.below(200_000) as i64);
        let count = numbers.below(1000) as u32;
        let mut decay = MemoryDecay::new_at(base, now);
        decay.decay_rate = Score::from_micros(1 + numbers.below(5_000_000) as i64);
        decay.access_count = count;
        let mut last = i64::MAX;
        for days in 0..400u32 {
            decay.last_accessed = now.minus_days(days);
            let current = decay.calculate_current_importance_at(now, floor).micros;
            assert!(current <= last);
            assert!(current >= floor.micros);
            last = current;
        }
        decay.last_accessed = now.minus_days(numbers.below(100) as u32);
        let mut last = i64::MIN;
        for reads in 0..200u32 {
            decay.access_count = reads;
            let current = decay.calculate_current_importance_at(now, floor).micros;
            assert!(current >= last);
            last = current;
        }
    }
}

#[test]
fn the_order_agrees_with_a_stable_sort() {
    let mut numbers = Numbers(3);
    for round in 0..200 {
        let len = numbers.below(40) as usize;
        let keys: Vec<i64> = (0..len).map(|_| numbers.below(8) as i64 - 4).collect();
        let mut up: Vec<usize> = (0..len).collect();
        up.sort_by_key(|&i| keys[i]);
        assert_eq!(sort_order(&keys, false), up, "round {}", round);
        let mut down: Vec<usize> = (0..len).collect();
        down.sort_by_key(|&i| std::cmp::Reverse(keys[i]));
        assert_eq!(sort_order(&keys, true), down, "round {}", round);
    }
}

#[test]
fn tokens_agree_with_a_split() {
    let texts = [
        "Hello, World! test-case with_underscores",
        "  leading and trailing  ",
        "snake_case CamelCase kebab-case 123abc _ __ a_b",
        "Ünïcode ÄÖÜ ß Straße ÉCOLE naïve",
        "tabs\tand\nnewlines\r\n",
        "日本語 テキスト 123",
        "a.b,c;d:e!f?g",
        "",
        "....",
    ];
    for text in texts {
        let want: Vec<String> = text
            .to_lowercase()
            .split(|c: char| !c.is_alphanumeric() && c != '_')
            .filter(|s| !s.is_empty())
            .map(|s| s.to_string())
            .collect();
        assert_eq!(MemoryStore::tokenize(text), want);
        for word in &want {
            let tf = MemoryStore::calculate_tf(word, text);
            let count = want.iter().filter(|w| *w == word).count() as i64;
            assert_eq!(tf.micros, count * 1_000_000 / want.len() as i64);
        }
    }
}

#[test]
fn normalized_weights_add_up_to_one() {
    let mut numbers = Numbers(5);
    for _ in 0..500 {
        let w: Vec<i64> = (0..4).map(|_| numbers.below(3_000_000) as i64).collect();
        let mut query = HybridSearchQuery {
            vector_query: None,
            keywords: None,
            vector_weight: Score::from_micros(w[0]),
            keyword_weight: Score::from_micros(w[1]),
            recency_weight: Score::from_micros(w[2]),
            importance_weight: Score::from_micros(w[3]),
            filters: Default::default(),
        };
        let sum: i64 = w.iter().sum();
        query.normalize_weights();
        let after = [
            query.vector_weight.micros,
            query.keyword_weight.micros,
            query.recency_weight.micros,
            query.importance_weight.micros,
        ];
        if sum == 0 {
            assert_eq!(after, [0, 0, 0, 0]);
            continue;
        }
        let total: i64 = after.iter().sum();
        assert!(999_996 < total && total <= 1_000_000);
        for i in 0..4 {
            assert!(after[i] >= 0 && after[i] <= 1_000_000);
            // the ratio to the sum is kept to within a millionth
            assert!(after[i] * sum <= w[i] * 1_000_000);
            assert!(w[i] * 1_000_000 < after[i] * sum + sum);
        }
    }
}

#[test]
fn partitions_are_the_square_root() {
    for n in 0..70_000usize {
        let p = VectorOptimizer::partition_count(n) as usize;
        let root = (n as f64).sqrt() as usize;
        assert_eq!(p, root.clamp(2, 256), "n = {}", n);
    }
}

#[test]
fn quoted_texts_cannot_end_their_literal() {
    let mut numbers = Numbers(13);
    let alphabet: Vec<char> = "ab' =-;\"\\".chars().collect();
    for _ in 0..500 {
        let len = numbers.below(12) as usize;
        let text: String =
            (0..len).map(|_| alphabet[numbers.below(alphabet.len() as u64) as usize]).collect();
        let quoted = quote_filter_string(&text);
        assert_eq!(quoted, text.replace('\'', "''"));
        // read back as a literal: every quote is one of a pair, and the pairs give the text
        let mut read = String::new();
        let mut chars = quoted.chars().peekable();
        while let Some(c) = chars.next() {
            if c == '\'' {
                assert_eq!(chars.next(), Some('\''));
            }
            read.push(c);
        }
        assert_eq!(read, text);
        assert_eq!(RowPredicate::IdIs(text).to_sql(), format!("id = '{}'", quoted));
    }
}

#[test]
fn searches_return_results_in_order_within_the_limit() {
    let now = Timestamp::from_millis(1_700_000_000_000);
    let mut numbers = Numbers(17);
    let store = MemoryStore::new(MemoryConfig::default(), Config::default(), 3);
    for _ in 0..50 {
        let count = numbers.below(30) as usize;
        let mut rows = Vec::new();
        let mut distances = Vec::new();
        for i in 0..count {
            let mut metadata = MemoryMetadata::default_at(now.minus_days(numbers.below(90) as u32));
            metadata.decay.access_count = numbers.below(20) as u32;
            metadata.decay.base_importance = Score::from_micros(numbers.below(1_000_001) as i64);
            if numbers.below(2) == 0 {
                metadata.tags = vec!["rust".to_string()];
            }
            let mut memory = Memory::new_at(
                MemoryType::Code,
                format!("Title {}", i % 7),
                "rust memory content".to_string(),
                Some(metadata),
                format!("id-{}", i % 11),
                now.minus_days(numbers.below(200) as u32),
            );
            memory.updated_at = now;
            rows.push(memory);
            distances.push(Score::from_micros(numbers.below(1_500_000) as i64));
        }
        let limit = numbers.below(12) as usize;
        let floor = Score::from_micros(numbers.below(300_000) as i64);
        let query = MemoryQuery {
            query_text: Some("q".to_string()),
            limit: Some(limit),
            min_relevance: Some(floor),
            tags: if numbers.below(2) == 0 { Some(vec!["rust".to_string()]) } else { None },
            ..Default::default()
        };
        let plain = store.vector_search_at(&query, &rows, &distances, now);
        assert!(plain.len() <= limit);
        for pair in plain.windows(2) {
            assert!(pair[0].relevance_score.micros >= pair[1].relevance_score.micros);
        }
        for r in &plain {
            assert!(r.relevance_score.micros >= floor.micros);
            assert!(store.matches_filters(&r.memory, &query));
        }

        let hybrid = HybridSearchQuery {
            vector_query: Some("q".to_string()),
            keywords: Some(vec!["rust".to_string(), "title".to_string()]),
            filters: MemoryQuery { query_text: None, ..clone_query(&query) },
            ..Default::default()
        };
        let found = store.hybrid_search_at(&hybrid, &rows, &distances, &rows, now).unwrap();
        assert!(found.len() <= limit);
        for pair in found.windows(2) {
            assert!(pair[0].relevance_score.micros >= pair[1].relevance_score.micros);
        }
        let mut ids: Vec<&str> = found.iter().map(|r| r.memory.id.as_str()).collect();
        ids.sort();
        ids.dedup();
        assert_eq!(ids.len(), found.len());
        for r in &found {
            assert!(r.relevance_score.micros >= floor.micros);
        }

        let hits = store.keyword_search(&["rust".to_string()], &query, &rows);
        if !hits.is_empty() {
            assert_eq!(hits[0].1.micros, 1_000_000);
        }
        for pair in hits.windows(2) {
            assert!(pair[0].1.micros >= pair[1].1.micros);
        }
    }
}

fn clone_query(q: &MemoryQuery) -> MemoryQuery {
    q.clone()
}

#[test]
fn empty_inputs_give_empty_results() {
    let now = Timestamp::from_millis(0);
    let store = MemoryStore::new(MemoryConfig::default(), Config::default(), 3);
    let none: Vec<Memory> = Vec::new();
    assert!(store.vector_search_at(&MemoryQuery::default(), &none, &vec![], now).is_empty());
    assert!(store.keyword_search(&["rust".to_string()], &MemoryQuery::default(), &none).is_empty());
    let hybrid = HybridSearchQuery { keywords: Some(vec![]), ..Default::default() };
    assert!(store.hybrid_search_at(&hybrid, &none, &vec![], &none, now).unwrap().is_empty());
    let zero = MemoryQuery { limit: Some(0), ..Default::default() };
    let rows = vec![Memory::new(MemoryType::Code, "A title".to_string(), "c".to_string(), None)];
    assert!(store.vector_search(&zero, &rows, &vec![]).is_empty());
    assert!(store.search_memories(&zero, &none, &vec![], &rows).unwrap().is_empty());
}
