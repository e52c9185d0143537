//! The recognized settings and their defaults.

use vstd::prelude::*;
use crate::fixed::Score;

verus! {

/// How texts are embedded.
#[derive(Debug)]
pub struct EmbeddingConfig {
    /// The embedder, as `provider:model`.
    pub model: String,
    /// The number of texts in one batch.
    pub batch_size: usize,
    /// The number of tokens in one batch.
    pub max_tokens_per_batch: usize,
}

impl Default for EmbeddingConfig {
    fn default() -> (r: EmbeddingConfig)
        ensures
            r.model@ == "voyage:voyage-3.5-lite"@,
            r.batch_size == 32,
            r.max_tokens_per_batch == 100000,
    {
        EmbeddingConfig {
            model: "voyage:voyage-3.5-lite".to_owned(),
            batch_size: 32,
            max_tokens_per_batch: 100000,
        }
    }
}

impl Clone for EmbeddingConfig {
    fn clone(&self) -> (r: EmbeddingConfig)
        ensures
            r == *self,
    {
        EmbeddingConfig {
            model: self.model.clone(),
            batch_size: self.batch_size,
            max_tokens_per_batch: self.max_tokens_per_batch,
        }
    }
}

/// How the four signals of a hybrid search are weighed.
#[derive(Clone, Copy, Debug, PartialEq, Eq, Structural)]
pub struct HybridSearchConfig {
    /// Whether a search with a text is a hybrid search.
    pub enabled: bool,
    /// The default weight of the similarity of meaning.
    pub default_vector_weight: Score,
    /// The default weight of the keyword score.
    pub default_keyword_weight: Score,
    /// The default weight of recency.
    pub default_recency_weight: Score,
    /// The default weight of importance.
    pub default_importance_weight: Score,
    /// The age in days at which recency has fallen to `1/e`.
    pub recency_decay_days: u32,
    /// The weight of a keyword found in the title.
    pub keyword_title_weight: Score,
    /// The weight of a keyword found in the content.
    pub keyword_content_weight: Score,
    /// The weight of a keyword found in the tags.
    pub keyword_tags_weight: Score,
}

impl Default for HybridSearchConfig {
    fn default() -> (r: HybridSearchConfig)
        ensures
            r == (HybridSearchConfig {
                enabled: true,
                default_vector_weight: Score { micros: 600_000 },
                default_keyword_weight: Score { micros: 200_000 },
                default_recency_weight: Score { micros: 100_000 },
                default_importance_weight: Score { micros: 100_000 },
                recency_decay_days: 30,
                keyword_title_weight: Score { micros: 3_000_000 },
                keyword_content_weight: Score { micros: 1_000_000 },
                keyword_tags_weight: Score { micros: 2_000_000 },
            }),
    {
        HybridSearchConfig {
            enabled: true,
            default_vector_weight: Score { micros: 600_000 },
            default_keyword_weight: Score { micros: 200_000 },
            default_recency_weight: Score { micros: 100_000 },
            default_importance_weight: Score { micros: 100_000 },
            recency_decay_days: 30,
            keyword_title_weight: Score { micros: 3_000_000 },
            keyword_content_weight: Score { micros: 1_000_000 },
            keyword_tags_weight: Score { micros: 2_000_000 },
        }
    }
}

/// How searches run.
#[derive(Clone, Copy, Debug, PartialEq, Eq, Structural)]
pub struct SearchConfig {
    /// The lowest similarity that counts as a match.
    pub similarity_threshold: Score,
    /// The largest number of results.
    pub max_results: usize,
    /// The hybrid search.
    pub hybrid: HybridSearchConfig,
}

impl Default for SearchConfig {
    fn default() -> (r: SearchConfig)
        ensures
            r.similarity_threshold.micros == 300_000,
            r.max_results == 50,
            r.hybrid == (HybridSearchConfig {
                enabled: true,
                default_vector_weight: Score { micros: 600_000 },
                default_keyword_weight: Score { micros: 200_000 },
                default_recency_weight: Score { micros: 100_000 },
                default_importance_weight: Score { micros: 100_000 },
                recency_decay_days: 30,
                keyword_title_weight: Score { micros: 3_000_000 },
                keyword_content_weight: Score { micros: 1_000_000 },
                keyword_tags_weight: Score { micros: 2_000_000 },
            }),
    {
        SearchConfig {
            similarity_threshold: Score { micros: 300_000 },
            max_results: 50,
            hybrid: HybridSearchConfig::default(),
        }
    }
}

/// How web pages are cut into chunks and when they are fetched again.
#[derive(Clone, Copy, Debug, PartialEq, Eq, Structural)]
pub struct KnowledgeConfig {
    /// The largest size of a chunk, in characters.
    pub chunk_size: usize,
    /// How many characters two neighbouring chunks share.
    pub chunk_overlap: usize,
    /// The age in days from which a page is fetched again.
    pub outdating_days: u32,
    /// The largest number of results.
    pub max_results: usize,
}

impl Default for KnowledgeConfig {
    fn default() -> (r: KnowledgeConfig)
        ensures
            r == (KnowledgeConfig {
                chunk_size: 1200,
                chunk_overlap: 200,
                outdating_days: 90,
                max_results: 5,
            }),
    {
        KnowledgeConfig { chunk_size: 1200, chunk_overlap: 200, outdating_days: 90, max_results: 5 }
    }
}

/// Whether and how results are ranked a second time.
#[derive(Debug)]
pub struct RerankerConfig {
    /// Whether results are ranked a second time.
    pub enabled: bool,
    /// The reranker, as `provider:model`.
    pub model: String,
    /// How many of the best results are handed to the reranker.
    pub top_k_candidates: usize,
    /// How many results the reranker returns.
    pub final_top_k: usize,
}

impl Default for RerankerConfig {
    fn default() -> (r: RerankerConfig)
        ensures
            !r.enabled,
            r.model@ == "voyage:rerank-2.5"@,
            r.top_k_candidates == 50,
            r.final_top_k == 10,
    {
        RerankerConfig {
            enabled: false,
            model: "voyage:rerank-2.5".to_owned(),
            top_k_candidates: 50,
            final_top_k: 10,
        }
    }
}

impl Clone for RerankerConfig {
    fn clone(&self) -> (r: RerankerConfig)
        ensures
            r == *self,
    {
        RerankerConfig {
            enabled: self.enabled,
            model: self.model.clone(),
            top_k_candidates: self.top_k_candidates,
            final_top_k: self.final_top_k,
        }
    }
}

/// All settings.
#[derive(Debug)]
pub struct Config {
    pub embedding: EmbeddingConfig,
    pub search: SearchConfig,
    pub knowledge: KnowledgeConfig,
    pub reranker: RerankerConfig,
}

impl Default for Config {
    fn default() -> (r: Config)
        ensures
            r.embedding.model@ == "voyage:voyage-3.5-lite"@,
            r.search.max_results == 50,
            r.search.hybrid.enabled,
            !r.reranker.enabled,
    {
        Config {
            embedding: EmbeddingConfig::default(),
            search: SearchConfig::default(),
            knowledge: KnowledgeConfig::default(),
            reranker: RerankerConfig::default(),
        }
    }
}

impl Clone for Config {
    fn clone(&self) -> (r: Config)
        ensures
            r == *self,
    {
        Config {
            embedding: self.embedding.clone(),
            search: self.search,
            knowledge: self.knowledge,
            reranker: self.reranker.clone(),
        }
    }
}

} // verus!
