//! The knowledge data model.

use vstd::prelude::*;
use crate::clock::Timestamp;
use crate::fixed::Score;
use crate::text::{clone_strings, views};

verus! {

/// One piece of a web page.
#[derive(Debug)]
pub struct KnowledgeChunk {
    /// The identifier, a UUID in text.
    pub id: String,
    /// The address of the page.
    pub source_url: String,
    /// The title of the page.
    pub source_title: String,
    /// The place of the chunk among the chunks of its page.
    pub chunk_index: i32,
    /// The title and the section path, an empty line, and the text.
    pub content: String,
    /// The headers under which the text stands, outermost first.
    pub section_path: Vec<String>,
    /// Where the text starts in the page, in bytes.
    pub char_start: usize,
    /// Where the text ends in the page, in bytes.
    pub char_end: usize,
}

/// A [`KnowledgeChunk`] as plain values, without its identifier.
pub struct ChunkBody {
    pub source_url: Seq<char>,
    pub source_title: Seq<char>,
    pub chunk_index: i32,
    pub content: Seq<char>,
    pub section_path: Seq<Seq<char>>,
    pub char_start: usize,
    pub char_end: usize,
}

/// A [`KnowledgeChunk`] as plain values.
pub struct ChunkView {
    pub id: Seq<char>,
    pub body: ChunkBody,
}

impl View for KnowledgeChunk {
    type V = ChunkView;

    open spec fn view(&self) -> ChunkView {
        ChunkView { id: self.id@, body: self.body() }
    }
}

impl KnowledgeChunk {
    /// The chunk as plain values, without its identifier.
    pub open spec fn body(&self) -> ChunkBody {
        ChunkBody {
            source_url: self.source_url@,
            source_title: self.source_title@,
            chunk_index: self.chunk_index,
            content: self.content@,
            section_path: views(self.section_path@),
            char_start: self.char_start,
            char_end: self.char_end,
        }
    }
}

impl Clone for KnowledgeChunk {
    fn clone(&self) -> (r: KnowledgeChunk)
        ensures
            r@ == self@,
            r.id == self.id,
            r.body() == self.body(),
    {
        KnowledgeChunk {
            id: self.id.clone(),
            source_url: self.source_url.clone(),
            source_title: self.source_title.clone(),
            chunk_index: self.chunk_index,
            content: self.content.clone(),
            section_path: clone_strings(&self.section_path),
            char_start: self.char_start,
            char_end: self.char_end,
        }
    }
}

/// A chunk that a search found.
#[derive(Debug)]
pub struct KnowledgeSearchResult {
    /// The chunk.
    pub chunk: KnowledgeChunk,
    /// How close the chunk is to the query: one minus the cosine distance.
    pub relevance_score: Score,
}

/// What the knowledge base holds.
#[derive(Clone, Copy, Debug, PartialEq, Eq, Structural)]
pub struct KnowledgeStats {
    /// The number of pages.
    pub total_sources: usize,
    /// The number of chunks.
    pub total_chunks: usize,
    /// When the oldest chunk was indexed.
    pub oldest_indexed: Option<Timestamp>,
    /// When the newest chunk was indexed.
    pub newest_indexed: Option<Timestamp>,
}

/// What indexing a page did.
#[derive(Debug)]
pub struct IndexResult {
    /// The address of the page.
    pub url: String,
    /// How many chunks were written.
    pub chunks_created: usize,
    /// Whether the page was indexed before and has not changed.
    pub was_cached: bool,
    /// Whether the page differs from what was indexed.
    pub content_changed: bool,
}

} // verus!
