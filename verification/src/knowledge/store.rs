//! The rules of the table of chunks: by what its rows are chosen, and what
//! is made of the rows that come back.

use vstd::prelude::*;
use crate::clock::Timestamp;
use crate::fixed::{saturate, Score};
use crate::knowledge::types::{KnowledgeChunk, KnowledgeSearchResult, KnowledgeStats};
use crate::memory::rows::{push_quoted, quoted, stays_inside};
use crate::memory::ranking::ranked;
use crate::order::{is_arrangement, sort_order};
use crate::text::{push_text, same_text, string_of};

verus! {

/// The name of the table of chunks.
pub const KNOWLEDGE_TABLE: &'static str = "knowledge_chunks";

/// The rules of the table of chunks.
#[derive(Clone, Copy, Debug)]
pub struct KnowledgeStore {
    /// The number of elements of every stored vector.
    pub vector_dim: usize,
}

/// What a row says of the page that its chunk is from.
#[derive(Debug)]
pub struct SourceRow {
    pub url: String,
    pub title: String,
    /// When the chunk was indexed, where the row holds a valid instant.
    pub indexed_at: Option<Timestamp>,
    pub last_checked: Timestamp,
}

/// A [`SourceRow`] as plain values.
pub struct SourceRowView {
    pub url: Seq<char>,
    pub title: Seq<char>,
    pub indexed_at: Option<Timestamp>,
    pub last_checked: Timestamp,
}

impl View for SourceRow {
    type V = SourceRowView;

    open spec fn view(&self) -> SourceRowView {
        SourceRowView {
            url: self.url@,
            title: self.title@,
            indexed_at: self.indexed_at,
            last_checked: self.last_checked,
        }
    }
}

/// The views of a list of rows.
pub open spec fn source_views(v: Seq<SourceRow>) -> Seq<SourceRowView> {
    Seq::new(v.len(), |i: int| v[i]@)
}

/// One page of the knowledge base.
#[derive(Debug)]
pub struct SourceSummary {
    pub url: String,
    /// The title under which the page was first seen.
    pub title: String,
    /// The number of its chunks.
    pub chunks: usize,
    /// When it was last checked.
    pub last_checked: Timestamp,
}

/// A [`SourceSummary`] as plain values.
pub struct SummaryView {
    pub url: Seq<char>,
    pub title: Seq<char>,
    pub chunks: usize,
    pub last_checked: Timestamp,
}

impl View for SourceSummary {
    type V = SummaryView;

    open spec fn view(&self) -> SummaryView {
        SummaryView {
            url: self.url@,
            title: self.title@,
            chunks: self.chunks,
            last_checked: self.last_checked,
        }
    }
}

impl Clone for SourceSummary {
    fn clone(&self) -> (r: SourceSummary)
        ensures
            r@ == self@,
    {
        SourceSummary {
            url: self.url.clone(),
            title: self.title.clone(),
            chunks: self.chunks,
            last_checked: self.last_checked,
        }
    }
}

/// The views of a list of summaries.
pub open spec fn summary_views(v: Seq<SourceSummary>) -> Seq<SummaryView> {
    Seq::new(v.len(), |i: int| v[i]@)
}

/// The predicate that chooses the chunks of a page.
pub open spec fn source_predicate_text(url: Seq<char>) -> Seq<char> {
    "source_url = '"@ + quoted(url) + "'"@
}

/// The place of the first summary of the page `url`, or `-1`.
pub open spec fn find_url(summaries: Seq<SummaryView>, url: Seq<char>) -> int
    decreases summaries.len(),
{
    if summaries.len() == 0 {
        -1
    } else if summaries[0].url == url {
        0
    } else {
        let r = find_url(summaries.drop_first(), url);
        if r < 0 {
            -1
        } else {
            r + 1
        }
    }
}

/// The later of two instants.
pub open spec fn later(a: Timestamp, b: Timestamp) -> Timestamp {
    if b.millis > a.millis {
        b
    } else {
        a
    }
}

/// One more than `n`, held at the largest `usize`.
pub open spec fn one_more(n: usize) -> usize {
    if n < usize::MAX {
        (n + 1) as usize
    } else {
        n
    }
}

/// The summaries with one more row counted: on the summary of its page,
/// or on a new one at the end.
pub open spec fn with_row(summaries: Seq<SummaryView>, row: SourceRowView) -> Seq<SummaryView> {
    let at = find_url(summaries, row.url);
    if 0 <= at < summaries.len() {
        summaries.update(
            at,
            SummaryView {
                url: summaries[at].url,
                title: summaries[at].title,
                chunks: one_more(summaries[at].chunks),
                last_checked: later(summaries[at].last_checked, row.last_checked),
            },
        )
    } else {
        summaries.push(
            SummaryView {
                url: row.url,
                title: row.title,
                chunks: 1,
                last_checked: row.last_checked,
            },
        )
    }
}

/// The summaries of the pages of the first `n` rows, in the order in
/// which the pages were first seen.
pub open spec fn summaries_of(rows: Seq<SourceRowView>, n: int) -> Seq<SummaryView>
    decreases n,
{
    if n <= 0 {
        Seq::empty()
    } else {
        with_row(summaries_of(rows, n - 1), rows[n - 1])
    }
}

/// The instants at which the summaries were last checked.
pub open spec fn checked_keys(summaries: Seq<SummaryView>) -> Seq<i64> {
    Seq::new(summaries.len(), |i: int| summaries[i].last_checked.millis)
}

/// The list of sources: the pages of the rows, the one checked last
/// first, cut to the limit where there is one.
pub open spec fn source_list(rows: Seq<SourceRowView>, limit: Option<usize>) -> Seq<SummaryView> {
    let all = summaries_of(rows, rows.len() as int);
    ranked(
        all,
        checked_keys(all),
        true,
        match limit {
            Some(n) => n as int,
            None => all.len() as int,
        },
    )
}

/// The earliest instant at which one of the first `n` rows was indexed.
pub open spec fn oldest_of(rows: Seq<SourceRowView>, n: int) -> Option<Timestamp>
    decreases n,
{
    if n <= 0 {
        None
    } else {
        match (oldest_of(rows, n - 1), rows[n - 1].indexed_at) {
            (Some(a), Some(b)) => if b.millis < a.millis {
                Some(b)
            } else {
                Some(a)
            },
            (None, Some(b)) => Some(b),
            (a, None) => a,
        }
    }
}

/// The latest instant at which one of the first `n` rows was indexed.
pub open spec fn newest_of(rows: Seq<SourceRowView>, n: int) -> Option<Timestamp>
    decreases n,
{
    if n <= 0 {
        None
    } else {
        match (newest_of(rows, n - 1), rows[n - 1].indexed_at) {
            (Some(a), Some(b)) => if b.millis > a.millis {
                Some(b)
            } else {
                Some(a)
            },
            (None, Some(b)) => Some(b),
            (a, None) => a,
        }
    }
}

/// The statistics of a table of `count` chunks with these rows: nothing
/// for an empty table; else the number of pages, the number of chunks, and
/// the earliest and latest indexing.
pub open spec fn stats_of(count: usize, rows: Seq<SourceRowView>) -> KnowledgeStats {
    if count == 0 {
        KnowledgeStats {
            total_sources: 0,
            total_chunks: 0,
            oldest_indexed: None,
            newest_indexed: None,
        }
    } else {
        KnowledgeStats {
            total_sources: summaries_of(rows, rows.len() as int).len() as usize,
            total_chunks: count,
            oldest_indexed: oldest_of(rows, rows.len() as int),
            newest_indexed: newest_of(rows, rows.len() as int),
        }
    }
}

/// The place of the first summary of the page `url`.
pub fn position_of_url(summaries: &Vec<SourceSummary>, url: &str) -> (r: Option<usize>)
    ensures
        match r {
            Some(i) => i < summaries@.len() && find_url(summary_views(summaries@), url@) == i,
            None => find_url(summary_views(summaries@), url@) == -1,
        },
{
    let mut i: usize = 0;
    let ghost all = summary_views(summaries@);
    assert(all.skip(0) =~= all);
    while i < summaries.len()
        invariant
            i <= summaries.len(),
            all == summary_views(summaries@),
            find_url(all, url@) == (if find_url(all.skip(i as int), url@) < 0 {
                -1
            } else {
                find_url(all.skip(i as int), url@) + i
            }),
        decreases summaries.len() - i,
    {
        proof {
            assert(all.skip(i as int)[0] == summaries@[i as int]@);
            assert(all.skip(i as int).drop_first() =~= all.skip(i + 1));
        }
        if same_text(summaries[i].url.as_str(), url) {
            return Some(i);
        }
        i += 1;
    }
    assert(all.skip(summaries.len() as int).len() == 0);
    None
}

/// The summaries of the pages of the rows, in the order in which the
/// pages were first seen.
pub fn summarize(rows: &Vec<SourceRow>) -> (out: Vec<SourceSummary>)
    ensures
        summary_views(out@) == summaries_of(source_views(rows@), rows@.len() as int),
        out@.len() <= rows@.len(),
{
    let mut out: Vec<SourceSummary> = Vec::new();
    let mut i: usize = 0;
    assert(summary_views(out@) =~= Seq::empty());
    while i < rows.len()
        invariant
            i <= rows.len(),
            out@.len() <= i,
            summary_views(out@) == summaries_of(source_views(rows@), i as int),
        decreases rows.len() - i,
    {
        let row = &rows[i];
        assert(source_views(rows@)[i as int] == row@);
        let ghost prev = summary_views(out@);
        match position_of_url(&out, row.url.as_str()) {
            Some(at) => {
                let old = &out[at];
                let chunks = if old.chunks < usize::MAX {
                    old.chunks + 1
                } else {
                    old.chunks
                };
                let last_checked = if row.last_checked.millis > old.last_checked.millis {
                    row.last_checked
                } else {
                    old.last_checked
                };
                let merged = SourceSummary {
                    url: old.url.clone(),
                    title: old.title.clone(),
                    chunks,
                    last_checked,
                };
                out.set(at, merged);
            },
            None => {
                out.push(
                    SourceSummary {
                        url: row.url.clone(),
                        title: row.title.clone(),
                        chunks: 1,
                        last_checked: row.last_checked,
                    },
                );
            },
        }
        assert(summary_views(out@) =~= with_row(prev, row@));
        i += 1;
    }
    out
}

impl KnowledgeStore {
    /// The rules of a table whose vectors have `vector_dim` elements.
    pub fn new(vector_dim: usize) -> (r: KnowledgeStore)
        ensures
            r.vector_dim == vector_dim,
    {
        KnowledgeStore { vector_dim }
    }

    /// `input` with every single quote doubled, fit to stand between
    /// quotes in a predicate.
    pub fn quote_filter_string(input: &str) -> (r: String)
        ensures
            r@ == quoted(input@),
            stays_inside(r@),
    {
        crate::memory::rows::quote_filter_string(input)
    }

    /// The predicate that chooses the chunks of a page.
    pub fn source_predicate(url: &str) -> (r: String)
        ensures
            r@ == source_predicate_text(url@),
    {
        let mut out: Vec<char> = Vec::new();
        push_text(&mut out, "source_url = '");
        push_quoted(&mut out, url);
        push_text(&mut out, "'");
        string_of(&out)
    }

    /// The result that a search makes of a chunk at a cosine distance: its
    /// relevance is one minus the distance.
    pub fn search_result(chunk: KnowledgeChunk, distance: Score) -> (r: KnowledgeSearchResult)
        ensures
            r.chunk == chunk,
            r.relevance_score.micros == saturate(crate::fixed::SCALE - distance.micros),
    {
        KnowledgeSearchResult { chunk, relevance_score: Score::one().minus(distance) }
    }

    /// The statistics of a table of `count` chunks with these rows.
    pub fn get_stats(count: usize, rows: &Vec<SourceRow>) -> (r: KnowledgeStats)
        ensures
            r == stats_of(count, source_views(rows@)),
    {
        if count == 0 {
            return KnowledgeStats {
                total_sources: 0,
                total_chunks: 0,
                oldest_indexed: None,
                newest_indexed: None,
            };
        }
        let summaries = summarize(rows);
        let mut oldest: Option<Timestamp> = None;
        let mut newest: Option<Timestamp> = None;
        let mut i: usize = 0;
        while i < rows.len()
            invariant
                i <= rows.len(),
                oldest == oldest_of(source_views(rows@), i as int),
                newest == newest_of(source_views(rows@), i as int),
            decreases rows.len() - i,
        {
            assert(source_views(rows@)[i as int] == rows@[i as int]@);
            match rows[i].indexed_at {
                Some(at) => {
                    oldest = match oldest {
                        Some(o) => if at.millis < o.millis {
                            Some(at)
                        } else {
                            Some(o)
                        },
                        None => Some(at),
                    };
                    newest = match newest {
                        Some(n) => if at.millis > n.millis {
                            Some(at)
                        } else {
                            Some(n)
                        },
                        None => Some(at),
                    };
                },
                None => {},
            }
            i += 1;
        }
        KnowledgeStats {
            total_sources: summaries.len(),
            total_chunks: count,
            oldest_indexed: oldest,
            newest_indexed: newest,
        }
    }

    /// The list of sources: the pages of the rows, the one checked last
    /// first, cut to the limit where there is one.
    pub fn list_sources(rows: &Vec<SourceRow>, limit: Option<usize>) -> (out: Vec<SourceSummary>)
        ensures
            summary_views(out@) == source_list(source_views(rows@), limit),
    {
        let all = summarize(rows);
        let mut keys: Vec<i64> = Vec::new();
        let mut i: usize = 0;
        while i < all.len()
            invariant
                i <= all.len(),
                keys@.len() == i,
                forall|j: int| 0 <= j < i ==> #[trigger] keys@[j] == all@[j]@.last_checked.millis,
            decreases all.len() - i,
        {
            keys.push(all[i].last_checked.millis);
            i += 1;
        }
        assert(keys@ =~= checked_keys(summary_views(all@)));
        let order = sort_order(&keys, true);
        let cap: usize = match limit {
            Some(n) => n,
            None => all.len(),
        };
        let mut out: Vec<SourceSummary> = Vec::new();
        let mut k: usize = 0;
        while k < order.len() && k < cap
            invariant
                k <= order.len(),
                k <= cap,
                is_arrangement(order@, all@.len()),
                out@.len() == k,
                forall|j: int| 0 <= j < k ==> (#[trigger] out@[j])@ == all@[order@[j] as int]@,
            decreases order.len() - k,
        {
            out.push(all[order[k]].clone());
            k += 1;
        }
        assert(summary_views(out@) =~= ranked(
            summary_views(all@),
            keys@,
            true,
            match limit {
                Some(n) => n as int,
                None => all@.len() as int,
            },
        ));
        out
    }
}

} // verus!
