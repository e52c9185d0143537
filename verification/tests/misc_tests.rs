use octobrain::clock::Timestamp;
use octobrain::config::{Config, EmbeddingConfig, HybridSearchConfig, KnowledgeConfig, RerankerConfig, SearchConfig};
use octobrain::embedding::{
    embedding_batches, embedding_provider_parts, split_provider_model, truncate_output,
    try_truncate_output,
    EmbeddingProviderKind,
};
use octobrain::expmath::{exp_down_micros, exp_neg_micros, exp_up_fine, log_of};
use octobrain::fixed::Score;
use octobrain::knowledge::formatting::{
    format_relative_time, format_relative_time_at, format_source_row, format_stats_body,
    result_block, score_percent, shorten, truncate_chars,
};
use octobrain::knowledge::manager::{index_decision, index_result, needs_indexing, IndexDecision};
use octobrain::knowledge::store::{KnowledgeStore, SourceRow};
use octobrain::knowledge::types::{KnowledgeChunk, KnowledgeSearchResult, KnowledgeStats};
use octobrain::mcp::{
    knowledge_search_output, line_action, method_not_found, parse_error, route, tool, LineAction,
    Route, Tool, METHOD_NOT_FOUND, PARSE_ERROR,
};
use octobrain::memory::git_utils::GitUtils;
use octobrain::memory::reranker_integration::RerankerIntegration;
use octobrain::memory::types::{
    Memory, MemoryMetadata, MemorySearchResult, MemoryType,
};
use octobrain::order::sort_order;
use octobrain::storage::{
    get_project_database_path, get_project_identifier, get_project_log_path,
    get_project_storage_path, get_system_config_path, normalize_git_url, sha256_hex,
    system_storage_dir, Platform,
};
use octobrain::text::{join, join_path, trim};
use octobrain::vector_optimizer::{DistanceType, VectorOptimizer};

fn sc(x: f64) -> Score {
    Score::from_micros((x * 1_000_000.0).round() as i64)
}

fn t(millis: i64) -> Timestamp {
    Timestamp::from_millis(millis)
}

#[test]
fn index_parameters_follow_the_policy() {
    let p = VectorOptimizer::calculate_index_params(999, 768);
    assert!(!p.should_create_index);
    assert_eq!((p.num_partitions, p.num_sub_vectors, p.num_bits), (0, 0, 0));
    assert_eq!(p.distance_type, DistanceType::Cosine);

    let p = VectorOptimizer::calculate_index_params(1000, 768);
    assert!(p.should_create_index);
    assert_eq!((p.num_partitions, p.num_sub_vectors, p.num_bits), (31, 96, 8));
    assert_eq!(p.distance_type, DistanceType::Cosine);

    let p = VectorOptimizer::calculate_index_params(10_000, 384);
    assert_eq!((p.num_partitions, p.num_sub_vectors), (100, 48));
    let p = VectorOptimizer::calculate_index_params(9_999, 8);
    assert_eq!((p.num_partitions, p.num_sub_vectors), (99, 1));
    let p = VectorOptimizer::calculate_index_params(65_535, 7);
    assert_eq!((p.num_partitions, p.num_sub_vectors), (255, 1));
    let p = VectorOptimizer::calculate_index_params(65_536, 0);
    assert_eq!((p.num_partitions, p.num_sub_vectors), (256, 1));
    let p = VectorOptimizer::calculate_index_params(usize::MAX, usize::MAX);
    assert_eq!((p.num_partitions, p.num_sub_vectors), (256, 96));
    assert_eq!(VectorOptimizer::partition_count(3), 2);
    assert_eq!(VectorOptimizer::partition_count(0), 2);
    assert_eq!(VectorOptimizer::partition_count(9), 3);
    assert!(!VectorOptimizer::should_optimize_for_growth(1_000_000, 768, true));
}

#[test]
fn git_urls_are_normalized() {
    assert_eq!(normalize_git_url("git@github.com:user/repo.git"), "github.com/user/repo");
    assert_eq!(normalize_git_url("https://github.com/user/repo.git"), "github.com/user/repo");
    assert_eq!(normalize_git_url("http://host/user/repo"), "host/user/repo");
    assert_eq!(normalize_git_url("  https://github.com/user/repo  \n"), "github.com/user/repo");
    assert_eq!(normalize_git_url("ssh://git@host/user/repo.git"), "git@host/user/repo");
    assert_eq!(normalize_git_url("/srv/git/repo.git"), "/srv/git/repo");
    assert_eq!(normalize_git_url("repo"), "repo");
    assert_eq!(normalize_git_url(".git"), "");
    assert_eq!(normalize_git_url("a:b@c"), "a:b@c");
    assert_eq!(normalize_git_url(""), "");
}

#[test]
fn project_identifiers_are_hash_prefixes() {
    let from_remote = get_project_identifier(Some("git@github.com:user/repo.git\n"), "/home/u/repo");
    assert_eq!(from_remote.len(), 16);
    assert_eq!(from_remote, sha256_hex("github.com/user/repo")[..16]);
    assert_eq!(
        get_project_identifier(Some("https://github.com/user/repo"), "/elsewhere"),
        from_remote
    );
    let from_path = get_project_identifier(None, "/home/u/repo");
    assert_eq!(from_path, sha256_hex("/home/u/repo")[..16]);
    assert_eq!(get_project_identifier(Some("  \n"), "/home/u/repo"), from_path);
    assert_ne!(from_path, from_remote);
    assert_eq!(sha256_hex("abc"), "ba7816bf8f01cfea414140de5dae2223b00361a396177a9cb410ff61f20015ad");
}

#[test]
fn storage_layout() {
    assert_eq!(
        system_storage_dir(Platform::MacOs, Some("/Users/u"), None, Some("/xdg")).unwrap(),
        "/Users/u/.local/share/octobrain"
    );
    assert_eq!(
        system_storage_dir(Platform::Other, Some("/home/u"), None, Some("/xdg")).unwrap(),
        "/xdg/octobrain"
    );
    assert_eq!(
        system_storage_dir(Platform::Other, Some("/home/u/"), None, None).unwrap(),
        "/home/u/.local/share/octobrain"
    );
    assert_eq!(
        system_storage_dir(Platform::Windows, None, Some("C:/Users/u/AppData/Roaming"), None).unwrap(),
        "C:/Users/u/AppData/Roaming/octobrain"
    );
    assert_eq!(
        system_storage_dir(Platform::MacOs, None, None, Some("/xdg")).unwrap_err(),
        "Unable to determine home directory"
    );
    assert_eq!(
        system_storage_dir(Platform::Other, None, None, None).unwrap_err(),
        "Unable to determine home directory"
    );
    assert_eq!(
        system_storage_dir(Platform::Windows, Some("/h"), None, None).unwrap_err(),
        "Unable to determine data directory"
    );
    assert_eq!(get_project_storage_path("/data/octobrain", "0123456789abcdef"), "/data/octobrain/0123456789abcdef");
    assert_eq!(
        get_project_database_path("/data/octobrain", "0123456789abcdef"),
        "/data/octobrain/0123456789abcdef/storage"
    );
    assert_eq!(get_project_log_path("/data/octobrain", "id"), "/data/octobrain/id/logs");
    assert_eq!(get_system_config_path("/data/octobrain"), "/data/octobrain/config.toml");
    assert_eq!(join_path("a/", "b"), "a/b");
    assert_eq!(join_path("", "b"), "/b");
}

#[test]
fn outputs_are_truncated() {
    assert_eq!(truncate_output("abcdefghij", 0), "abcdefghij");
    assert_eq!(truncate_output("abcdefghij", 3), "abcdefghij");
    assert_eq!(truncate_output("abcdefghij", 2), "abcdefgh...[truncated]");
    assert_eq!(truncate_output("", 1), "");
    assert_eq!(truncate_output("abcdefgh", 2), "abcdefgh");
    assert_eq!(truncate_output("ääääää", 1), "ää...[truncated]");
    assert_eq!(truncate_output("ääääa", 2), "ääää...[truncated]");
    assert_eq!(truncate_output("ääää", 2), "ääää");
}

#[test]
fn outputs_are_cut_by_bytes_and_only_between_characters() {
    assert_eq!(
        try_truncate_output("abcdefghij", 2),
        Some("abcdefgh...[truncated]".to_string())
    );
    assert_eq!(try_truncate_output("ääääää", 1), Some("ää...[truncated]".to_string()));
    assert_eq!(try_truncate_output("aaaäa", 1), None);
    assert_eq!(try_truncate_output("aaaä", 2), Some("aaaä".to_string()));
    assert_eq!(try_truncate_output("aaaäa", 0), Some("aaaäa".to_string()));
    assert_eq!(try_truncate_output("abc", usize::MAX), None);
    assert_eq!(try_truncate_output("abc", usize::MAX / 4), Some("abc".to_string()));
}

#[test]
fn model_names_are_split_at_the_first_colon() {
    assert_eq!(
        split_provider_model("voyage:voyage-3.5-lite"),
        Some(("voyage".to_string(), "voyage-3.5-lite".to_string()))
    );
    assert_eq!(split_provider_model("a:b:c"), Some(("a".to_string(), "b:c".to_string())));
    assert_eq!(split_provider_model(":"), Some(("".to_string(), "".to_string())));
    assert_eq!(split_provider_model("nocolon"), None);
}

#[test]
fn git_answers_are_read() {
    assert_eq!(GitUtils::commit_from_output(true, "abc123\n"), Some("abc123".to_string()));
    assert_eq!(GitUtils::commit_from_output(false, "abc123\n"), None);
    assert_eq!(
        GitUtils::files_from_output(true, "src/a.rs\n  src/b.rs  \n\n   \nREADME.md"),
        vec!["src/a.rs", "src/b.rs", "README.md"]
    );
    assert!(GitUtils::files_from_output(false, "src/a.rs\n").is_empty());
    assert!(GitUtils::files_from_output(true, "").is_empty());
    assert_eq!(
        GitUtils::get_relative_path("a.rs", Some("/repo"), Some("/repo/src/a.rs")),
        Some("src/a.rs".to_string())
    );
    assert_eq!(
        GitUtils::get_relative_path("a.rs", Some("/repo/"), Some("/repo/src/a.rs")),
        Some("src/a.rs".to_string())
    );
    assert_eq!(
        GitUtils::get_relative_path("a.rs", Some("/repo"), Some("/repository/a.rs")),
        Some("a.rs".to_string())
    );
    assert_eq!(GitUtils::get_relative_path("a.rs", Some("/repo"), Some("/repo")), Some("".to_string()));
    assert_eq!(GitUtils::get_relative_path("a.rs", None, Some("/repo/a.rs")), Some("a.rs".to_string()));
    assert_eq!(GitUtils::get_relative_path("a.rs", Some("/repo"), None), Some("a.rs".to_string()));
}

fn result(id: &str, title: &str, content: &str, tags: &[&str], score: f64) -> MemorySearchResult {
    let mut metadata = MemoryMetadata::default_at(t(0));
    metadata.tags = tags.iter().map(|x| x.to_string()).collect();
    MemorySearchResult {
        memory: Memory::new_at(
            MemoryType::Code,
            title.to_string(),
            content.to_string(),
            Some(metadata),
            id.to_string(),
            t(0),
        ),
        relevance_score: sc(score),
        selection_reason: "because".to_string(),
    }
}

#[test]
fn reranker_requests_and_answers() {
    let results = vec![
        result("a", "Title A", "Content A", &["x", "y"], 0.9),
        result("b", "Title B", "Content B", &[], 0.8),
        result("c", "Title C", "Content C", &["z"], 0.7),
    ];
    let off = RerankerIntegration::new(RerankerConfig::default());
    assert!(off.rerank_request(&results).unwrap().is_none());

    let config = RerankerConfig {
        enabled: true,
        model: "voyage:rerank-2.5".to_string(),
        top_k_candidates: 2,
        final_top_k: 1,
    };
    let on = RerankerIntegration::new(config);
    assert!(on.rerank_request(&vec![]).unwrap().is_none());
    let request = on.rerank_request(&results).unwrap().unwrap();
    assert_eq!(request.provider, "voyage");
    assert_eq!(request.model, "rerank-2.5");
    assert_eq!(request.top_n, 1);
    assert_eq!(
        request.documents,
        vec!["Title A\nContent A\nTags: x, y", "Title B\nContent B\nTags: "]
    );

    let answers = vec![(1usize, sc(0.99)), (7, sc(0.5)), (0, sc(0.25))];
    let ranked = on.rerank_memories(&results, &answers);
    let got: Vec<(String, Score)> =
        ranked.iter().map(|r| (r.memory.id.clone(), r.relevance_score)).collect();
    assert_eq!(got, vec![("b".to_string(), sc(0.99))]);
    assert_eq!(ranked[0].selection_reason, "because");
    let wide = RerankerIntegration::new(RerankerConfig {
        enabled: true,
        model: "voyage:rerank-2.5".to_string(),
        top_k_candidates: 3,
        final_top_k: 3,
    });
    let got: Vec<(String, Score)> = wide
        .rerank_memories(&results, &answers)
        .iter()
        .map(|r| (r.memory.id.clone(), r.relevance_score))
        .collect();
    assert_eq!(got, vec![("b".to_string(), sc(0.99)), ("a".to_string(), sc(0.25))]);

    let broken = RerankerIntegration::new(RerankerConfig {
        enabled: true,
        model: "nocolon".to_string(),
        top_k_candidates: 2,
        final_top_k: 1,
    });
    assert_eq!(broken.rerank_request(&results).unwrap_err(), "Invalid reranker model format: nocolon");
}

#[test]
fn scores_are_written_as_decimals() {
    assert_eq!(sc(0.2).to_decimal_string(), "0.2");
    assert_eq!(sc(-1.5).to_decimal_string(), "-1.5");
    assert_eq!(sc(3.0).to_decimal_string(), "3");
    assert_eq!(sc(0.0).to_decimal_string(), "0");
    assert_eq!(Score::from_micros(1).to_decimal_string(), "0.000001");
    assert_eq!(Score::from_micros(-1_050_000).to_decimal_string(), "-1.05");
    assert_eq!(Score::from_micros(i64::MIN).to_decimal_string(), "-9223372036854.775808");
    assert_eq!(sc(0.876).to_two_decimals(), "0.88");
    assert_eq!(sc(0.125).to_two_decimals(), "0.13");
    assert_eq!(sc(0.0).to_two_decimals(), "0.00");
    assert_eq!(sc(-0.001).to_two_decimals(), "-0.00");
    assert_eq!(sc(12.995).to_two_decimals(), "13.00");
    assert_eq!(sc(1.0).to_two_decimals(), "1.00");
}

#[test]
fn score_arithmetic_rounds_toward_zero_and_saturates() {
    assert_eq!(sc(0.5).times(sc(0.5)), sc(0.25));
    assert_eq!(Score::from_micros(3).times(Score::from_micros(333_333)).micros, 0);
    assert_eq!(Score::from_micros(-3).times(Score::from_micros(500_000)).micros, -1);
    assert_eq!(sc(1.0).over(sc(3.0)).micros, 333_333);
    assert_eq!(sc(-1.0).over(sc(3.0)).micros, -333_333);
    assert_eq!(Score::from_micros(i64::MAX).plus(sc(1.0)).micros, i64::MAX);
    assert_eq!(Score::from_micros(i64::MIN).minus(sc(1.0)).micros, i64::MIN);
    assert_eq!(Score::from_micros(i64::MAX).times(sc(2.0)).micros, i64::MAX);
    assert_eq!(sc(1.7).clamp_unit(), sc(1.0));
    assert_eq!(sc(-0.2).clamp_unit(), sc(0.0));
    assert_eq!(sc(0.3).clamp_unit(), sc(0.3));
    assert_eq!(Score::ratio(3, 5), sc(0.6));
    assert_eq!(Score::ratio(1, 0), sc(0.0));
    assert_eq!(Score::ratio(2, 3).micros, 666_666);
    assert_eq!(sc(0.3).at_least(sc(0.5)), sc(0.5));
    assert_eq!(Score::zero().micros, 0);
    assert_eq!(Score::one().micros, 1_000_000);
}

#[test]
fn exponential_and_logarithm() {
    assert_eq!(exp_up_fine(0), 1_000_000_000_000);
    assert_eq!(exp_up_fine(1_000_000), 2_718_281_828_399);
    assert_eq!(exp_down_micros(0), 1_000_000);
    assert_eq!(exp_down_micros(1_000_000), 367_879);
    assert_eq!(exp_down_micros(2_000_000), 135_335);
    assert_eq!(exp_down_micros(3_000_000), 49_787);
    assert_eq!(exp_down_micros(693_147), 500_000);
    assert_eq!(exp_down_micros(13_999_999), 0);
    assert_eq!(exp_down_micros(14_000_000), 0);
    assert_eq!(exp_down_micros(u64::MAX), 0);
    assert_eq!(exp_neg_micros(-1_000_000), 2_718_281);
    assert_eq!(exp_neg_micros(1_000_000), 367_879);
    assert_eq!(exp_neg_micros(i64::MIN), exp_neg_micros(-24_000_000));
    assert_eq!(log_of(1), 0);
    assert_eq!(log_of(2), 693_147);
    assert_eq!(log_of(3), 1_098_612);
    assert_eq!(log_of(11), 2_397_895);
    assert_eq!(log_of(4_294_967_296), 22_180_709);
    assert_eq!(log_of(u64::MAX), 24_000_000);
    let mut last = 0;
    for n in 1..200u64 {
        let l = log_of(n);
        assert!(l >= last);
        last = l;
    }
}

#[test]
fn the_order_is_stable() {
    assert_eq!(sort_order(&vec![3, 1, 2], false), vec![1, 2, 0]);
    assert_eq!(sort_order(&vec![3, 1, 2], true), vec![0, 2, 1]);
    assert_eq!(sort_order(&vec![5, 5, 1, 5], true), vec![0, 1, 3, 2]);
    assert_eq!(sort_order(&vec![5, 5, 1, 5], false), vec![2, 0, 1, 3]);
    assert_eq!(sort_order(&vec![i64::MIN, i64::MAX, 0], false), vec![0, 2, 1]);
    assert!(sort_order(&vec![], true).is_empty());
}

#[test]
fn text_helpers() {
    assert_eq!(trim("  a b \t\n"), "a b");
    assert_eq!(trim("   "), "");
    assert_eq!(trim("\u{a0}x\u{3000}"), "x");
    assert_eq!(join(&vec!["a".to_string(), "b".to_string(), "c".to_string()], ", "), "a, b, c");
    assert_eq!(join(&vec![], ", "), "");
    assert_eq!(join(&vec!["a".to_string()], ", "), "a");
}

#[test]
fn memories_are_made_and_changed() {
    let mut m = Memory::new(MemoryType::Code, "A title".to_string(), "content".to_string(), None);
    assert_eq!(m.id.len(), 36);
    assert_eq!(m.id.chars().filter(|c| *c == '-').count(), 4);
    assert_eq!(m.created_at, m.updated_at);
    assert!(m.relevance_score.is_none());
    assert_eq!(m.metadata.importance, sc(0.5));
    assert_eq!(m.metadata.confidence, sc(1.0));
    let other = Memory::new(MemoryType::Code, "A title".to_string(), "content".to_string(), None);
    assert_ne!(m.id, other.id);

    m.add_tag("rust".to_string());
    m.add_tag("async".to_string());
    m.add_tag("rust".to_string());
    assert_eq!(m.metadata.tags, vec!["rust", "async"]);
    m.remove_tag("rust");
    m.remove_tag("absent");
    assert_eq!(m.metadata.tags, vec!["async"]);
    m.add_related_file("src/a.rs".to_string());
    m.add_related_file("src/a.rs".to_string());
    m.add_related_file("src/b.rs".to_string());
    assert_eq!(m.metadata.related_files, vec!["src/a.rs", "src/b.rs"]);
    m.remove_related_file("src/a.rs");
    assert_eq!(m.metadata.related_files, vec!["src/b.rs"]);
    assert_eq!(m.get_searchable_text(), "A title content async src/b.rs");

    m.update(Some("New title".to_string()), None, None);
    assert_eq!(m.title, "New title");
    assert_eq!(m.content, "content");
    assert!(m.updated_at.millis >= m.created_at.millis);
    m.update_at(None, Some("new content".to_string()), None, t(0));
    assert_eq!(m.content, "new content");
    assert_eq!(m.updated_at, m.created_at);
    let later = t(m.created_at.millis + 5);
    m.update_at(None, None, Some(MemoryMetadata::default_at(later)), later);
    assert_eq!(m.updated_at, later);
    assert!(m.metadata.tags.is_empty());
}

#[test]
fn tags_and_files_change_at_the_instant_given() {
    let made = t(1_000);
    let mut m = Memory::new_at(
        MemoryType::Code,
        "A title".to_string(),
        "content".to_string(),
        None,
        "id".to_string(),
        made,
    );
    m.add_tag_at("rust".to_string(), t(2_000));
    assert_eq!(m.metadata.tags, vec!["rust"]);
    assert_eq!(m.updated_at, t(2_000));
    m.add_tag_at("rust".to_string(), t(3_000));
    assert_eq!(m.updated_at, t(2_000));
    m.remove_tag_at("absent", t(4_000));
    assert_eq!(m.updated_at, t(2_000));
    m.remove_tag_at("rust", t(5_000));
    assert!(m.metadata.tags.is_empty());
    assert_eq!(m.updated_at, t(5_000));
    m.add_related_file_at("src/a.rs".to_string(), t(6_000));
    assert_eq!(m.metadata.related_files, vec!["src/a.rs"]);
    assert_eq!(m.updated_at, t(6_000));
    m.add_related_file_at("src/a.rs".to_string(), t(7_000));
    assert_eq!(m.updated_at, t(6_000));
    m.remove_related_file_at("src/b.rs", t(8_000));
    assert_eq!(m.updated_at, t(6_000));
    m.remove_related_file_at("src/a.rs", t(500));
    assert!(m.metadata.related_files.is_empty());
    assert_eq!(m.updated_at, made);
    assert_eq!(m.created_at, made);
}

#[test]
fn searchable_text_keeps_its_spaces() {
    let m = Memory::new_at(MemoryType::Code, "T".to_string(), "C".to_string(), None, "id".to_string(), t(0));
    assert_eq!(m.get_searchable_text(), "T C  ");
}

#[test]
fn settings_have_their_defaults() {
    let e = EmbeddingConfig::default();
    assert_eq!(e.model, "voyage:voyage-3.5-lite");
    assert_eq!((e.batch_size, e.max_tokens_per_batch), (32, 100000));
    let s = SearchConfig::default();
    assert_eq!(s.similarity_threshold, sc(0.3));
    assert_eq!(s.max_results, 50);
    let h = HybridSearchConfig::default();
    assert!(h.enabled);
    assert_eq!(h.recency_decay_days, 30);
    assert_eq!(
        h.default_vector_weight.micros + h.default_keyword_weight.micros
            + h.default_recency_weight.micros + h.default_importance_weight.micros,
        1_000_000
    );
    assert_eq!(
        (h.keyword_title_weight, h.keyword_content_weight, h.keyword_tags_weight),
        (sc(3.0), sc(1.0), sc(2.0))
    );
    let c = Config::default();
    assert_eq!(c.search, s);
    assert!(!c.reranker.enabled);
    assert!(KnowledgeConfig::default().chunk_size > KnowledgeConfig::default().chunk_overlap);
}

#[test]
fn requests_are_routed() {
    assert_eq!(route("initialize", true), Route::Initialize);
    assert_eq!(route("tools/list", false), Route::ListTools);
    assert_eq!(route("tools/call", true), Route::CallTool);
    assert_eq!(route("unknown", true), Route::MethodNotFound);
    assert_eq!(route("notifications/initialized", false), Route::Ignore);
    assert!(octobrain::mcp::answers(true));
    assert!(!octobrain::mcp::answers(false));
    assert_eq!(tool("memorize"), Ok(Tool::Memorize));
    assert_eq!(tool("memory_graph"), Ok(Tool::MemoryGraph));
    assert_eq!(tool("clear_all"), Ok(Tool::ClearAll));
    assert_eq!(tool("knowledge_search"), Ok(Tool::KnowledgeSearch));
    assert_eq!(tool("nope"), Err("Unknown tool: nope".to_string()));
    assert_eq!(method_not_found("x/y"), "Method not found: x/y");
    assert_eq!(parse_error("eof"), "Parse error: eof");
    assert_eq!(PARSE_ERROR, -32700);
    assert_eq!(METHOD_NOT_FOUND, -32601);
    assert!(matches!(line_action(0, ""), LineAction::Stop));
    assert!(matches!(line_action(3, "  \n"), LineAction::Skip));
    match line_action(9, " {\"a\":1}\n") {
        LineAction::Handle(text) => assert_eq!(text, "{\"a\":1}"),
        _ => panic!("the line holds a request"),
    }
}

fn chunk(title: &str, url: &str, path: &[&str], content: &str) -> KnowledgeChunk {
    KnowledgeChunk {
        id: "id".to_string(),
        source_url: url.to_string(),
        source_title: title.to_string(),
        chunk_index: 0,
        content: content.to_string(),
        section_path: path.iter().map(|p| p.to_string()).collect(),
        char_start: 0,
        char_end: content.len(),
    }
}

#[test]
fn knowledge_results_are_put_into_words() {
    assert_eq!(knowledge_search_output(&vec![], 5), "No results found");
    let results = vec![
        KnowledgeStore::search_result(chunk("Page", "https://e.com", &["A", "B"], "short"), sc(0.25)),
        KnowledgeStore::search_result(chunk("Other", "https://o.com", &[], &"x".repeat(301)), sc(1.5)),
        KnowledgeStore::search_result(chunk("Third", "https://t.com", &[], "t"), sc(0.0)),
    ];
    assert_eq!(results[0].relevance_score, sc(0.75));
    let out = knowledge_search_output(&results, 2);
    let rule = "=".repeat(50);
    assert_eq!(
        out,
        format!(
            "{rule}\nPage\nhttps://e.com\nA > B\nshort\nRelevance: 75%\n\n{rule}\nOther\nhttps://o.com\n{}...\nRelevance: 0%\n\n",
            "x".repeat(300)
        )
    );
    let block = result_block(&results[0], 200);
    assert_eq!(block.section.as_deref(), Some("A > B"));
    assert_eq!(block.percent, 75);
    assert_eq!(block.preview, "short");
}

#[test]
fn formatting_helpers() {
    assert_eq!(truncate_chars("abcdef", 3), "abc");
    assert_eq!(truncate_chars("äöü", 2), "äö");
    assert_eq!(truncate_chars("abc", 10), "abc");
    assert_eq!(shorten("abcdef", 5, 2), "ab...");
    assert_eq!(shorten("abcde", 5, 2), "abcde");
    assert_eq!(score_percent(sc(0.756)), 75);
    assert_eq!(score_percent(sc(-0.5)), 0);
    assert_eq!(score_percent(sc(1.0)), 100);
    let now = t(1_000_000_000_000);
    assert_eq!(format_relative_time_at(t(now.millis - 3 * 86_400_000 - 5), now), "3 days ago");
    assert_eq!(format_relative_time_at(t(now.millis - 86_399_999), now), "23 hours ago");
    assert_eq!(format_relative_time_at(t(now.millis - 3_600_000), now), "1 hours ago");
    assert_eq!(format_relative_time_at(t(now.millis - 125_000), now), "2 minutes ago");
    assert_eq!(format_relative_time_at(t(now.millis - 59_999), now), "just now");
    assert_eq!(format_relative_time_at(t(now.millis + 86_400_000), now), "just now");
    assert_eq!(format_relative_time(Timestamp::now()), "just now");
    assert_eq!(
        format_source_row("https://example.com", "Title", 12, t(now.millis - 86_400_000), now),
        format!("{:<52} {:<32} {:<8} {}\n", "https://example.com", "Title", 12, "1 days ago")
    );
    let long_url = "u".repeat(60);
    let long_title = "t".repeat(40);
    assert_eq!(
        format_source_row(&long_url, &long_title, 1, now, now),
        format!(
            "{:<52} {:<32} {:<8} {}\n",
            format!("{}...", "u".repeat(47)),
            format!("{}...", "t".repeat(27)),
            1,
            "just now"
        )
    );
    let wide_title = "é".repeat(16);
    assert_eq!(
        format_source_row("u", &wide_title, 1, now, now),
        format!("{:<52} {:<32} {:<8} {}\n", "u", format!("{}...", wide_title), 1, "just now")
    );
    let fitting_title = "é".repeat(15);
    assert_eq!(
        format_source_row("u", &fitting_title, 1, now, now),
        format!("{:<52} {:<32} {:<8} {}\n", "u", fitting_title, 1, "just now")
    );
    let stats = KnowledgeStats {
        total_sources: 2,
        total_chunks: 9,
        oldest_indexed: Some(t(now.millis - 2 * 86_400_000)),
        newest_indexed: None,
    };
    assert_eq!(
        format_stats_body(&stats, now),
        "Total Sources: 2\nTotal Chunks: 9\nAverage Chunks/Source: 4\nOldest Indexed: 2 days ago\n"
    );
    let empty = KnowledgeStats { total_sources: 0, total_chunks: 0, oldest_indexed: None, newest_indexed: None };
    assert_eq!(format_stats_body(&empty, now), "Total Sources: 0\nTotal Chunks: 0\n");
}

fn source(url: &str, title: &str, indexed: Option<i64>, checked: i64) -> SourceRow {
    SourceRow {
        url: url.to_string(),
        title: title.to_string(),
        indexed_at: indexed.map(t),
        last_checked: t(checked),
    }
}

#[test]
fn knowledge_sources_are_summed_up() {
    let rows = vec![
        source("a", "A", Some(50), 10),
        source("b", "B", Some(20), 30),
        source("a", "A again", None, 40),
        source("c", "C", Some(90), 30),
        source("a", "A", Some(70), 5),
    ];
    let stats = KnowledgeStore::get_stats(5, &rows);
    assert_eq!(stats.total_sources, 3);
    assert_eq!(stats.total_chunks, 5);
    assert_eq!(stats.oldest_indexed, Some(t(20)));
    assert_eq!(stats.newest_indexed, Some(t(90)));
    let none = KnowledgeStore::get_stats(0, &rows);
    assert_eq!((none.total_sources, none.total_chunks), (0, 0));
    assert!(none.oldest_indexed.is_none() && none.newest_indexed.is_none());

    let list = KnowledgeStore::list_sources(&rows, None);
    let got: Vec<(String, String, usize, i64)> = list
        .iter()
        .map(|s| (s.url.clone(), s.title.clone(), s.chunks, s.last_checked.millis))
        .collect();
    assert_eq!(
        got,
        vec![
            ("a".to_string(), "A".to_string(), 3, 40),
            ("b".to_string(), "B".to_string(), 1, 30),
            ("c".to_string(), "C".to_string(), 1, 30),
        ]
    );
    assert_eq!(KnowledgeStore::list_sources(&rows, Some(1)).len(), 1);
    assert!(KnowledgeStore::list_sources(&rows, Some(0)).is_empty());
    assert_eq!(KnowledgeStore::source_predicate("https://e.com/it's"), "source_url = 'https://e.com/it''s'");
    assert_eq!(KnowledgeStore::quote_filter_string("a'b"), "a''b");
    assert_eq!(KnowledgeStore::new(8).vector_dim, 8);
}

#[test]
fn pages_are_indexed_when_due() {
    let config = KnowledgeConfig { chunk_size: 100, chunk_overlap: 20, outdating_days: 90, max_results: 10 };
    let day = 86_400_000;
    let now = t(1_000 * day);
    assert!(needs_indexing(&config, None, now));
    assert!(!needs_indexing(&config, Some(t(910 * day)), now));
    assert!(needs_indexing(&config, Some(t(910 * day - 1)), now));
    assert_eq!(index_decision(&config, None, "h", now), IndexDecision::Reindex);
    assert_eq!(index_decision(&config, Some(("h", t(999 * day))), "h", now), IndexDecision::Cached);
    assert_eq!(index_decision(&config, Some(("h", t(999 * day))), "g", now), IndexDecision::Reindex);
    assert_eq!(index_decision(&config, Some(("h", t(0))), "h", now), IndexDecision::Reindex);
    let cached = index_result("u", IndexDecision::Cached, 7);
    assert_eq!((cached.chunks_created, cached.was_cached, cached.content_changed), (0, true, false));
    let fresh = index_result("u", IndexDecision::Reindex, 7);
    assert_eq!((fresh.chunks_created, fresh.was_cached, fresh.content_changed), (7, false, true));
    assert_eq!(fresh.url, "u");
}

#[test]
fn timestamps_are_written_and_read() {
    assert_eq!(t(0).to_rfc3339().unwrap(), "1970-01-01T00:00:00+00:00");
    assert_eq!(t(1_704_067_200_123).to_rfc3339().unwrap(), "2024-01-01T00:00:00.123+00:00");
    assert!(t(i64::MAX).to_rfc3339().is_none());
    assert_eq!(Timestamp::parse_from_rfc3339("2024-01-01T00:00:00Z"), Some(t(1_704_067_200_000)));
    assert_eq!(Timestamp::parse_from_rfc3339("2024-01-01T01:00:00.5+01:00"), Some(t(1_704_067_200_500)));
    assert_eq!(Timestamp::parse_from_rfc3339("not a date"), None);
    assert_eq!(t(0).days_until(t(86_400_000 * 3 + 5)), 3);
    assert_eq!(t(0).days_until(t(-86_400_000 * 3 - 5)), -3);
    assert_eq!(t(0).days_until(t(86_399_999)), 0);
    assert_eq!(t(86_400_000).minus_days(1), t(0));
    assert_eq!(t(i64::MIN).minus_days(1), t(i64::MIN));
    let before = Timestamp::now();
    let after = Timestamp::now();
    assert!(after.millis >= before.millis);
    assert!(before.millis > 1_600_000_000_000);
}

#[test]
fn embedder_names_are_read() {
    let mut config = Config::default();
    assert_eq!(
        embedding_provider_parts(&config),
        Ok((EmbeddingProviderKind::Voyage, "voyage-3.5-lite".to_string()))
    );
    config.embedding.model = "  JinaAI : jina-embeddings-v4 ".to_string();
    assert_eq!(
        embedding_provider_parts(&config),
        Ok((EmbeddingProviderKind::Jina, "jina-embeddings-v4".to_string()))
    );
    config.embedding.model = "hf:org/model:tag".to_string();
    assert_eq!(
        embedding_provider_parts(&config),
        Ok((EmbeddingProviderKind::HuggingFace, "org/model:tag".to_string()))
    );
    for bad in ["nocolon", "voyage:", ":model", "unknown:model", ""] {
        config.embedding.model = bad.to_string();
        assert_eq!(
            embedding_provider_parts(&config),
            Err(format!("Invalid embedding model, expected provider:model, got: {}", bad))
        );
    }
}

#[test]
fn texts_are_sent_in_batches() {
    let config = |batch_size: usize, max_tokens_per_batch: usize| EmbeddingConfig {
        model: "voyage:voyage-3.5-lite".to_string(),
        batch_size,
        max_tokens_per_batch,
    };
    let texts: Vec<String> = vec![8, 8, 8, 40, 4, 4, 4].into_iter().map(|n| "x".repeat(n)).collect();
    let sizes = |batches: Vec<Vec<String>>| -> Vec<Vec<usize>> {
        batches.iter().map(|b| b.iter().map(|t| t.len()).collect()).collect()
    };
    // two tokens each for the first three, ten for the long one, one each for the rest
    assert_eq!(
        sizes(embedding_batches(&texts, &config(2, 100))),
        vec![vec![8, 8], vec![8, 40], vec![4, 4], vec![4]]
    );
    assert_eq!(
        sizes(embedding_batches(&texts, &config(10, 5))),
        vec![vec![8, 8], vec![8], vec![40], vec![4, 4, 4]]
    );
    assert_eq!(
        sizes(embedding_batches(&texts, &config(0, 0))),
        vec![vec![8], vec![8], vec![8], vec![40], vec![4], vec![4], vec![4]]
    );
    assert_eq!(sizes(embedding_batches(&texts, &config(32, 100000))).len(), 1);
    assert!(embedding_batches(&vec![], &config(32, 100000)).is_empty());
    let all: Vec<String> = embedding_batches(&texts, &config(3, 7)).into_iter().flatten().collect();
    assert_eq!(all, texts);
}
