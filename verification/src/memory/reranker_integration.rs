//! The second ranking of results by an outside model: what is sent to it
//! and what is made of its answer.

use vstd::prelude::*;
use crate::config::RerankerConfig;
use crate::embedding::{provider_and_model, split_provider_model};
use crate::fixed::Score;
use crate::memory::ranking::result_views;
use crate::memory::types::{MemorySearchResult, MemoryView, SearchResultView};
use crate::text::{join_chars, joined, push_chars, push_text, string_of};

verus! {

/// The rules of the second ranking.
#[derive(Debug)]
pub struct RerankerIntegration {
    pub config: RerankerConfig,
}

/// What is asked of the reranker.
#[derive(Debug)]
pub struct RerankRequest {
    /// The provider of the model.
    pub provider: String,
    /// The model.
    pub model: String,
    /// The candidates as texts, in the order of the results.
    pub documents: Vec<String>,
    /// How many results the reranker is to return.
    pub top_n: usize,
}

/// The text that stands for a memory before the reranker: title, content
/// and tags, each on a line of its own, the tags joined by commas.
pub open spec fn document_of(m: MemoryView) -> Seq<char> {
    m.title + seq!['\n'] + m.content + "\nTags: "@ + joined(m.metadata.tags, ", "@)
}

/// What is said of a model name without a colon.
pub open spec fn model_format_message(model: Seq<char>) -> Seq<char> {
    "Invalid reranker model format: "@ + model
}

/// The results named by the first `n` answers of the reranker, each under
/// the score of its answer; an answer that names no result is passed over.
pub open spec fn reranked(
    results: Seq<SearchResultView>,
    answers: Seq<(usize, Score)>,
    n: int,
) -> Seq<SearchResultView>
    decreases n,
{
    if n <= 0 {
        Seq::empty()
    } else {
        let before = reranked(results, answers, n - 1);
        let (index, score) = answers[n - 1];
        if index < results.len() {
            before.push(
                SearchResultView {
                    memory: results[index as int].memory,
                    relevance_score: score,
                    selection_reason: results[index as int].selection_reason,
                },
            )
        } else {
            before
        }
    }
}

impl RerankerIntegration {
    /// The rules of the second ranking under these settings.
    pub fn new(config: RerankerConfig) -> (r: RerankerIntegration)
        ensures
            r.config == config,
    {
        RerankerIntegration { config }
    }

    /// How many of `count` results go to the reranker: none where it is
    /// disabled, else the best `top_k_candidates`.
    pub open spec fn candidates_of(&self, count: int) -> int {
        if !self.config.enabled {
            0
        } else if count < self.config.top_k_candidates {
            count
        } else {
            self.config.top_k_candidates as int
        }
    }

    /// The text that stands for a result before the reranker.
    pub fn document(result: &MemorySearchResult) -> (r: String)
        ensures
            r@ == document_of(result@.memory),
    {
        let mut out: Vec<char> = Vec::new();
        push_text(&mut out, result.memory.title.as_str());
        out.push('\n');
        push_text(&mut out, result.memory.content.as_str());
        push_text(&mut out, "\nTags: ");
        let tags = join_chars(&result.memory.metadata.tags, ", ");
        push_chars(&mut out, &tags);
        assert(out@ =~= document_of(result@.memory));
        string_of(&out)
    }

    /// What is asked of the reranker for these results: nothing where the
    /// reranker is disabled or there are no results; else the best
    /// `top_k_candidates` of them as texts, for `final_top_k` results. A
    /// model name that is not of the form `provider:model` is refused.
    pub fn rerank_request(&self, results: &Vec<MemorySearchResult>) -> (r: Result<
        Option<RerankRequest>,
        String,
    >)
        ensures
            match r {
                Ok(None) => self.candidates_of(results@.len() as int) == 0,
                Ok(Some(request)) => {
                    &&& self.candidates_of(results@.len() as int) > 0
                    &&& provider_and_model(self.config.model@) == Some(
                        (request.provider@, request.model@),
                    )
                    &&& request.top_n == self.config.final_top_k
                    &&& request.documents@.len() == self.candidates_of(results@.len() as int)
                    &&& forall|i: int|
                        0 <= i < request.documents@.len() ==> (#[trigger] request.documents@[i])@
                            == document_of(results@[i]@.memory)
                },
                Err(e) => {
                    &&& self.candidates_of(results@.len() as int) > 0
                    &&& provider_and_model(self.config.model@) is None
                    &&& e@ == model_format_message(self.config.model@)
                },
            },
    {
        if !self.config.enabled || results.len() == 0 || self.config.top_k_candidates == 0 {
            return Ok(None);
        }
        let (provider, model) = match split_provider_model(self.config.model.as_str()) {
            Some(parts) => parts,
            None => {
                let mut text: Vec<char> = Vec::new();
                push_text(&mut text, "Invalid reranker model format: ");
                push_text(&mut text, self.config.model.as_str());
                return Err(string_of(&text));
            },
        };
        let count: usize = if results.len() < self.config.top_k_candidates {
            results.len()
        } else {
            self.config.top_k_candidates
        };
        let mut documents: Vec<String> = Vec::new();
        let mut i: usize = 0;
        while i < count
            invariant
                i <= count <= results.len(),
                documents@.len() == i,
                forall|j: int|
                    0 <= j < i ==> (#[trigger] documents@[j])@ == document_of(results@[j]@.memory),
            decreases count - i,
        {
            documents.push(RerankerIntegration::document(&results[i]));
            i += 1;
        }
        Ok(Some(RerankRequest { provider, model, documents, top_n: self.config.final_top_k }))
    }

    /// How many of the reranker's answers are read: the first
    /// `final_top_k`.
    pub open spec fn answers_read(&self, answers: int) -> int {
        if answers < self.config.final_top_k {
            answers
        } else {
            self.config.final_top_k as int
        }
    }

    /// The results in the order of the reranker's answers, each under the
    /// score of its answer, for the first `final_top_k` answers. An answer
    /// is the place of a candidate and its score.
    pub fn rerank_memories(&self, results: &Vec<MemorySearchResult>, answers: &Vec<(usize, Score)>)
        -> (out: Vec<MemorySearchResult>)
        ensures
            result_views(out@) == reranked(
                result_views(results@),
                answers@,
                self.answers_read(answers@.len() as int),
            ),
            out@.len() <= self.config.final_top_k,
    {
        let mut out: Vec<MemorySearchResult> = Vec::new();
        let mut i: usize = 0;
        let read: usize = if answers.len() < self.config.final_top_k {
            answers.len()
        } else {
            self.config.final_top_k
        };
        assert(result_views(out@) =~= Seq::empty());
        while i < read
            invariant
                i <= read <= answers.len(),
                out@.len() <= i,
                result_views(out@) == reranked(result_views(results@), answers@, i as int),
            decreases read - i,
        {
            let (index, score) = answers[i];
            if index < results.len() {
                let ghost prev = result_views(out@);
                let chosen = &results[index];
                out.push(
                    MemorySearchResult {
                        memory: chosen.memory.clone(),
                        relevance_score: score,
                        selection_reason: chosen.selection_reason.clone(),
                    },
                );
                assert(result_views(out@) =~= prev.push(
                    SearchResultView {
                        memory: results@[index as int]@.memory,
                        relevance_score: score,
                        selection_reason: results@[index as int]@.selection_reason,
                    },
                ));
            }
            i += 1;
        }
        out
    }
}

} // verus!
