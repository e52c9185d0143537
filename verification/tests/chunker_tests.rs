use octobrain::bytes::{
    byte_length, ceil_char_boundary, char_from, floor_char_boundary, slice_between,
};
use octobrain::clock::Timestamp;
use octobrain::config::KnowledgeConfig;
use octobrain::knowledge::chunker::HtmlChunker;
use octobrain::knowledge::manager::{is_http_url, validate_url};
use octobrain::knowledge::types::{IndexResult, KnowledgeChunk, KnowledgeStats};

#[test]
fn test_extract_title_from_title_tag() {
    let config = KnowledgeConfig::default();
    let chunker = HtmlChunker::new(config);
    let html = "<html><head><title>Test Page</title></head><body></body></html>";
    let title = chunker.extract_title(html);
    assert_eq!(title, "Test Page");
}

#[test]
fn test_extract_title_from_h1() {
    let config = KnowledgeConfig::default();
    let chunker = HtmlChunker::new(config);
    let html = "<html><body><h1>Main Heading</h1></body></html>";
    let title = chunker.extract_title(html);
    assert_eq!(title, "Main Heading");
}

#[test]
fn test_extract_title_fallback() {
    let config = KnowledgeConfig::default();
    let chunker = HtmlChunker::new(config);
    let html = "<html><body><p>No title</p></body></html>";
    let title = chunker.extract_title(html);
    assert_eq!(title, "Untitled");
}

#[test]
fn test_detect_header_level() {
    let config = KnowledgeConfig::default();
    let chunker = HtmlChunker::new(config);
    assert_eq!(chunker.detect_header_level("# Header 1"), Some(1));
    assert_eq!(chunker.detect_header_level("## Header 2"), Some(2));
    assert_eq!(chunker.detect_header_level("### Header 3"), Some(3));
    assert_eq!(chunker.detect_header_level("Regular text"), None);
}

#[test]
fn test_chunk_overlap() {
    let config = KnowledgeConfig {
        chunk_size: 100,
        chunk_overlap: 20,
        outdating_days: 90,
        max_results: 10,
    };
    let chunker = HtmlChunker::new(config);
    let text = "a".repeat(250);
    let chunks = chunker.split_text_with_overlap(&text);
    assert!(chunks.len() > 1);
    // Verify overlap exists
    assert!(chunks[1].starts_with(&"a".repeat(20)));
}

// URL validation tests
#[test]
fn test_url_validation_https_valid() {
    let urls = vec![
        "https://example.com",
        "https://example.com/page",
        "https://example.com/page?q=1",
    ];

    for url in urls {
        assert!(
            url.starts_with("http://") || url.starts_with("https://"),
            "URL {} should be valid",
            url
        );
        assert!(is_http_url(url), "URL {} should be valid", url);
        assert!(validate_url(url).is_ok());
    }
}

#[test]
fn test_url_validation_http_valid() {
    let url = "http://example.com";
    assert!(url.starts_with("http://") || url.starts_with("https://"));
    assert!(is_http_url(url));
}

#[test]
fn test_url_validation_missing_scheme() {
    let urls = vec![
        "example.com",
        "www.example.com",
        "/path/to/page",
        "ftp://example.com",
    ];

    for url in urls {
        let valid = url.starts_with("http://") || url.starts_with("https://");
        assert!(!valid, "URL {} should be invalid (missing http/https)", url);
        assert!(!is_http_url(url));
        assert!(validate_url(url).is_err());
    }
}

// Type tests
#[test]
fn test_knowledge_chunk_fields() {
    let chunk = KnowledgeChunk {
        id: "test-id".to_string(),
        source_url: "https://example.com".to_string(),
        source_title: "Test Page".to_string(),
        chunk_index: 0,
        content: "Test content".to_string(),
        section_path: vec!["Section 1".to_string()],
        char_start: 0,
        char_end: 12,
    };

    assert_eq!(chunk.id, "test-id");
    assert_eq!(chunk.source_url, "https://example.com");
    assert_eq!(chunk.source_title, "Test Page");
    assert_eq!(chunk.chunk_index, 0);
    assert_eq!(chunk.content, "Test content");
    assert_eq!(chunk.section_path.len(), 1);
}

#[test]
fn test_knowledge_stats_default() {
    let stats = KnowledgeStats {
        total_sources: 0,
        total_chunks: 0,
        oldest_indexed: None,
        newest_indexed: None,
    };

    assert_eq!(stats.total_sources, 0);
    assert_eq!(stats.total_chunks, 0);
    assert!(stats.oldest_indexed.is_none());
    assert!(stats.newest_indexed.is_none());
}

#[test]
fn test_index_result_fields() {
    let result = IndexResult {
        url: "https://example.com".to_string(),
        chunks_created: 5,
        was_cached: false,
        content_changed: true,
    };

    assert_eq!(result.url, "https://example.com");
    assert_eq!(result.chunks_created, 5);
    assert!(!result.was_cached);
    assert!(result.content_changed);
}

#[test]
fn url_validation_names_what_is_wrong() {
    assert_eq!(validate_url("   ").unwrap_err(), "URL cannot be empty");
    assert_eq!(
        validate_url(" ftp://example.com ").unwrap_err(),
        "Invalid URL: must start with http:// or https://, got: ftp://example.com"
    );
    assert!(validate_url("  https://example.com  ").is_ok());
}

#[test]
fn header_level_edge_cases() {
    let chunker = HtmlChunker::new(KnowledgeConfig::default());
    assert_eq!(chunker.detect_header_level("   ###### Six"), Some(6));
    assert_eq!(chunker.detect_header_level("####### Seven"), None);
    assert_eq!(chunker.detect_header_level(""), None);
    assert_eq!(chunker.detect_header_level("text # not a header"), None);
    assert_eq!(chunker.detect_header_level("#"), Some(1));
}

#[test]
fn section_path_follows_header_levels() {
    let chunker = HtmlChunker::new(KnowledgeConfig::default());
    let mut path: Vec<String> = Vec::new();
    chunker.update_section_path(&mut path, 1, "A".to_string());
    chunker.update_section_path(&mut path, 2, "B".to_string());
    chunker.update_section_path(&mut path, 3, "C".to_string());
    assert_eq!(path, vec!["A", "B", "C"]);
    chunker.update_section_path(&mut path, 2, "D".to_string());
    assert_eq!(path, vec!["A", "D"]);
    chunker.update_section_path(&mut path, 5, "E".to_string());
    assert_eq!(path, vec!["A", "D", "E"]);
    chunker.update_section_path(&mut path, 1, "F".to_string());
    assert_eq!(path, vec!["F"]);
}

#[test]
fn header_and_body_are_cut_at_the_first_empty_line() {
    let chunker = HtmlChunker::new(KnowledgeConfig::default());
    assert_eq!(chunker.extract_header("Title > A\n\nbody\n\nmore"), "Title > A");
    assert_eq!(
        chunker.extract_content_without_header("Title > A\n\nbody\n\nmore"),
        "body\n\nmore"
    );
    assert_eq!(chunker.extract_header("no empty line"), "");
    assert_eq!(chunker.extract_content_without_header("no empty line"), "no empty line");
}

#[test]
fn pieces_cover_the_text_with_the_overlap() {
    let config = KnowledgeConfig { chunk_size: 100, chunk_overlap: 20, outdating_days: 90, max_results: 10 };
    let chunker = HtmlChunker::new(config);
    let text = "a".repeat(250);
    let pieces = chunker.split_text_with_overlap(&text);
    let lengths: Vec<usize> = pieces.iter().map(|p| p.len()).collect();
    assert_eq!(lengths, vec![100, 100, 90]);
    assert!(chunker.split_text_with_overlap("").is_empty());
    assert_eq!(chunker.split_text_with_overlap("short"), vec!["short"]);
}

#[test]
fn pieces_are_measured_in_bytes() {
    let config = KnowledgeConfig { chunk_size: 200, chunk_overlap: 20, outdating_days: 90, max_results: 10 };
    let chunker = HtmlChunker::new(config);
    let text = "é".repeat(150);
    let pieces = chunker.split_text_with_overlap(&text);
    assert_eq!(pieces, vec!["é".repeat(100), "é".repeat(60)]);
    let lengths: Vec<usize> = pieces.iter().map(|p| p.len()).collect();
    assert_eq!(lengths, vec![200, 120]);
}

#[test]
fn cuts_are_moved_down_to_the_start_of_a_character() {
    let config = KnowledgeConfig { chunk_size: 201, chunk_overlap: 21, outdating_days: 90, max_results: 10 };
    let chunker = HtmlChunker::new(config);
    let text = "é".repeat(150);
    let pieces = chunker.split_text_with_overlap(&text);
    let lengths: Vec<usize> = pieces.iter().map(|p| p.len()).collect();
    assert_eq!(lengths, vec![200, 122]);
    assert_eq!(pieces[1], "é".repeat(61));
}

#[test]
fn sentence_ends_are_found_among_wide_characters() {
    let config = KnowledgeConfig { chunk_size: 150, chunk_overlap: 10, outdating_days: 90, max_results: 10 };
    let chunker = HtmlChunker::new(config);
    let text = format!("{}. {}", "é".repeat(60), "é".repeat(100));
    assert_eq!(text.len(), 322);
    assert_eq!(chunker.find_sentence_boundary(&text, 150), 121);
    assert_eq!(chunker.find_sentence_boundary(&text, 260), 260);
    let pieces = chunker.split_text_with_overlap(&text);
    assert_eq!(pieces.len(), 3);
    assert_eq!(pieces[0], format!("{}.", "é".repeat(60)));
    assert_eq!(pieces[1], format!("{}. {}", "é".repeat(5), "é".repeat(69)));
    assert_eq!(pieces[2], "é".repeat(36));
}

#[test]
fn pieces_follow_each_other_with_an_overlap() {
    let config = KnowledgeConfig { chunk_size: 130, chunk_overlap: 20, outdating_days: 90, max_results: 10 };
    let chunker = HtmlChunker::new(config);
    let sentences: Vec<String> =
        (0..20).map(|k| format!("日本語のテキスト{}。 wide and narrow {}. ", k, k)).collect();
    let text = sentences.concat();
    let pieces = chunker.split_text_with_overlap(&text);
    assert!(!pieces.is_empty());
    assert!(text.starts_with(pieces[0].as_str()));
    assert!(text.ends_with(pieces[pieces.len() - 1].as_str()));
    let mut start = 0;
    let mut end = 0;
    for (k, piece) in pieces.iter().enumerate() {
        assert!(!piece.is_empty());
        assert!(piece.len() <= 130);
        if k > 0 {
            let from = (start + 1..=end)
                .rev()
                .find(|&at| text.is_char_boundary(at) && text[at..].starts_with(piece.as_str()));
            assert!(from.is_some());
            start = from.unwrap();
        }
        end = start + piece.len();
        assert!(text.is_char_boundary(start) && text.is_char_boundary(end));
        assert_eq!(&text[start..end], piece.as_str());
    }
    assert_eq!(end, text.len());
}

#[test]
fn boundaries_are_found_below_and_above() {
    let text = "aé日😀z";
    assert_eq!(text.len(), 11);
    let floors: Vec<usize> = (0..=13).map(|at| floor_char_boundary(text, at)).collect();
    assert_eq!(floors, vec![0, 1, 1, 3, 3, 3, 6, 6, 6, 6, 10, 11, 11, 11]);
    let ceils: Vec<usize> = (0..=13).map(|at| ceil_char_boundary(text, at)).collect();
    assert_eq!(ceils, vec![0, 1, 3, 3, 6, 6, 6, 10, 10, 10, 10, 11, 11, 11]);
    assert_eq!(slice_between(text, 1, 6), "é日");
    assert_eq!(char_from(text, 6), '😀');
    assert_eq!(byte_length(text), 11);
}

#[test]
fn chunk_positions_count_bytes() {
    let chunker = HtmlChunker::new(KnowledgeConfig::default());
    let intro = "é".repeat(30);
    let details = "y".repeat(70);
    let markdown = format!("# Guide\n{}\n## Details\n{}\n", intro, details);
    let chunks = chunker.chunk_markdown("u", "T", &markdown);
    assert_eq!(chunks.len(), 2);
    assert_eq!(chunks[0].char_start, 0);
    assert_eq!(chunks[0].char_end, 8 + 61);
    assert_eq!(chunks[1].char_start, 69);
    assert_eq!(chunks[1].char_end, 69 + 11 + 71);
    let short = format!("# Guide\n{}\n", "é".repeat(20));
    assert!(chunker.chunk_markdown("u", "T", &short).is_empty());
    let enough = format!("# Guide\n{}\n", "é".repeat(21));
    assert_eq!(chunker.chunk_markdown("u", "T", &enough).len(), 1);
}

#[test]
fn pieces_end_at_sentences() {
    let config = KnowledgeConfig { chunk_size: 40, chunk_overlap: 5, outdating_days: 90, max_results: 10 };
    let chunker = HtmlChunker::new(config);
    let text = "First sentence is here. Second sentence follows it closely. Third one.";
    let pieces = chunker.split_text_with_overlap(text);
    assert_eq!(pieces[0], "First sentence is here.");
    assert!(pieces.len() >= 2);
    assert!(pieces.last().unwrap().ends_with("Third one."));
}

#[test]
fn pieces_always_advance() {
    let config = KnowledgeConfig { chunk_size: 10, chunk_overlap: 50, outdating_days: 90, max_results: 10 };
    let chunker = HtmlChunker::new(config);
    let pieces = chunker.split_text_with_overlap(&"b".repeat(30));
    assert_eq!(pieces.len(), 21);
    assert_eq!(pieces[0].len(), 10);
    assert_eq!(pieces[20].len(), 10);
}

#[test]
fn markdown_is_cut_at_headers() {
    let chunker = HtmlChunker::new(KnowledgeConfig::default());
    let intro = "x".repeat(60);
    let details = "y".repeat(70);
    let markdown = format!("# Guide\n{}\n## Details\n{}\nshort tail\n", intro, details);
    let chunks = chunker.chunk_markdown("https://example.com/doc", "Doc", &markdown);
    assert_eq!(chunks.len(), 2);
    assert_eq!(chunks[0].chunk_index, 0);
    assert_eq!(chunks[1].chunk_index, 1);
    assert_eq!(chunks[0].section_path, vec!["Guide"]);
    assert_eq!(chunks[1].section_path, vec!["Guide", "Details"]);
    assert_eq!(chunks[0].content, format!("Doc > Guide\n\n# Guide\n{}", intro));
    assert_eq!(
        chunks[1].content,
        format!("Doc > Guide > Details\n\n## Details\n{}\nshort tail", details)
    );
    assert_eq!(chunks[0].char_start, 0);
    assert_eq!(chunks[0].char_end, 8 + 61);
    assert_eq!(chunks[1].char_start, 69);
    assert_eq!(chunks[0].source_url, "https://example.com/doc");
    assert_eq!(chunks[0].source_title, "Doc");
    assert_eq!(chunks[0].id.len(), 36);
    assert_ne!(chunks[0].id, chunks[1].id);
}

#[test]
fn short_sections_make_no_chunk() {
    let chunker = HtmlChunker::new(KnowledgeConfig::default());
    let chunks = chunker.chunk_markdown("u", "T", "# A\nshort\n# B\nalso short\n");
    assert!(chunks.is_empty());
}

#[test]
fn long_sections_are_cut_again() {
    let config = KnowledgeConfig { chunk_size: 100, chunk_overlap: 20, outdating_days: 90, max_results: 10 };
    let chunker = HtmlChunker::new(config);
    let markdown = "z".repeat(250);
    let chunks = chunker.chunk_markdown("u", "T", &markdown);
    assert_eq!(chunks.len(), 3);
    assert_eq!(chunks[0].content, format!("T\n\n{}", "z".repeat(100)));
    assert_eq!(chunks[2].content, format!("T\n\n{}", "z".repeat(90)));
    assert_eq!(chunks[0].chunk_index, 0);
    assert_eq!(chunks[1].chunk_index, 1);
    assert_eq!(chunks[2].chunk_index, 2);
    assert_eq!(chunks[1].char_start, 80);
    assert_eq!(chunks[1].char_end, 180);
    assert_eq!(chunks[2].char_start, 160);
}

#[test]
fn pages_are_hashed_and_chunked() {
    let chunker = HtmlChunker::new(KnowledgeConfig::default());
    let body = "word ".repeat(30);
    let html = format!(
        "<html><head><title>My Page</title></head><body><p>{}</p></body></html>",
        body
    );
    let (title, hash, chunks) = chunker.parse_and_chunk("https://example.com", &html).unwrap();
    assert_eq!(title, "My Page");
    assert_eq!(hash.len(), 64);
    assert!(hash.chars().all(|c| c.is_ascii_hexdigit() && !c.is_ascii_uppercase()));
    assert_eq!(chunks.len(), 1);
    assert!(chunks[0].content.starts_with("My Page\n\nword word"));
    assert!(!chunks[0].content.contains('<'));
    assert!(!chunks[0].content.contains("My Page</title>"));
    let again = chunker.parse_and_chunk("https://example.com", &html).unwrap();
    assert_eq!(again.1, hash);
}

#[test]
fn hash_is_sha256_in_lower_hex() {
    let chunker = HtmlChunker::new(KnowledgeConfig::default());
    assert_eq!(
        chunker.compute_hash("abc"),
        "ba7816bf8f01cfea414140de5dae2223b00361a396177a9cb410ff61f20015ad"
    );
    assert_eq!(
        chunker.compute_hash(""),
        "e3b0c44298fc1c149afbf4c8996fb92427ae41e4649b934ca495991b7852b855"
    );
}

#[test]
fn stats_hold_instants() {
    let stats = KnowledgeStats {
        total_sources: 1,
        total_chunks: 2,
        oldest_indexed: Some(Timestamp::from_millis(5)),
        newest_indexed: Some(Timestamp::from_millis(9)),
    };
    assert_eq!(stats.oldest_indexed.unwrap().millis, 5);
    assert_eq!(stats.newest_indexed.unwrap().millis, 9);
}

#[test]
fn titles_are_made_plain() {
    let chunker = HtmlChunker::new(KnowledgeConfig::default());
    assert_eq!(
        chunker.extract_title("<html><head><title>Tom &amp; <b>Jerry</b></title></head></html>"),
        "Tom & **Jerry**"
    );
    assert_eq!(
        chunker.extract_title("<title>   </title><h1 class=\"x\">Heading &lt;1&gt;</h1>"),
        "Heading <1>"
    );
    assert_eq!(chunker.extract_title("<title>Unclosed"), "Untitled");
    assert_eq!(chunker.extract_title(""), "Untitled");
}
