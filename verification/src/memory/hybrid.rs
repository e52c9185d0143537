//! Keyword search over the rows of the table, and the hybrid search that
//! weighs similarity of meaning, keywords, recency and importance.

use vstd::prelude::*;
use crate::clock::Timestamp;
use crate::fixed::{div_micros, mul_micros, saturate, two_decimals_text, Score, SCALE};
use crate::memory::filters::passes_filters;
use crate::memory::keyword::{keyword_score, CONTENT_WEIGHT, TAGS_WEIGHT, TITLE_WEIGHT};
use crate::memory::ranking::{pick_results, ranked, recency_at, result_views};
use crate::memory::store::MemoryStore;
use crate::memory::types::{
    larger, HybridSearchQuery, Memory, MemoryQuery, MemorySearchResult, MemoryView,
    SearchResultView,
};
use crate::order::{is_arrangement, sort_order};
use crate::text::{join, push_text, same_text, string_of};

verus! {

/// The rows and raw keyword scores as plain values.
pub open spec fn hit_views(kept: Seq<Memory>, raw: Seq<Score>) -> Seq<(MemoryView, int)> {
    Seq::new(kept.len(), |i: int| (kept[i]@, raw[i].micros as int))
}

/// A list of memories with scores as plain values.
pub open spec fn scored_views(v: Seq<(Memory, Score)>) -> Seq<(MemoryView, Score)> {
    Seq::new(v.len(), |i: int| (v[i].0@, v[i].1))
}

/// The rows among the first `n` that pass the filters and match a keyword,
/// each with its raw keyword score, in the order of the rows.
pub open spec fn keyword_hits(keywords: Seq<String>, q: &MemoryQuery, rows: Seq<Memory>, n: int)
    -> Seq<(MemoryView, int)>
    decreases n,
{
    if n <= 0 {
        Seq::empty()
    } else {
        let before = keyword_hits(keywords, q, rows, n - 1);
        let m = rows[n - 1]@;
        if passes_filters(m, q) && keyword_score(m, keywords) > 0 {
            before.push((m, keyword_score(m, keywords)))
        } else {
            before
        }
    }
}

/// The highest raw score of the hits; zero where there are none.
pub open spec fn top_score(hits: Seq<(MemoryView, int)>) -> int
    decreases hits.len(),
{
    if hits.len() == 0 {
        0
    } else {
        larger(top_score(hits.drop_last()), hits.last().1)
    }
}

/// A raw score as its share of the highest one.
pub open spec fn normalized_score(score: int, top: int) -> int {
    if top > 0 {
        div_micros(score, top)
    } else {
        score
    }
}

/// What a keyword search returns: the hits with their scores divided by
/// the highest, from the highest score down, hits with equal scores in the
/// order of the rows. Without keywords there are no hits.
pub open spec fn keyword_ranking(keywords: Seq<String>, q: &MemoryQuery, rows: Seq<Memory>) -> Seq<
    (MemoryView, Score),
> {
    if keywords.len() == 0 {
        Seq::empty()
    } else {
        let hits = keyword_hits(keywords, q, rows, rows.len() as int);
        let top = top_score(hits);
        ranked(
            Seq::new(
                hits.len(),
                |i: int| (hits[i].0, Score { micros: normalized_score(hits[i].1, top) as i64 }),
            ),
            Seq::new(hits.len(), |i: int| normalized_score(hits[i].1, top) as i64),
            true,
            hits.len() as int,
        )
    }
}

/// No hit scores above the highest score, and none at or below zero.
pub proof fn lemma_top_score(hits: Seq<(MemoryView, int)>)
    requires
        forall|i: int| 0 <= i < hits.len() ==> (#[trigger] hits[i]).1 > 0,
    ensures
        forall|i: int| 0 <= i < hits.len() ==> 0 < (#[trigger] hits[i]).1 <= top_score(hits),
        hits.len() > 0 ==> top_score(hits) > 0,
    decreases hits.len(),
{
    if hits.len() > 0 {
        let rest = hits.drop_last();
        assert forall|i: int| 0 <= i < rest.len() implies (#[trigger] rest[i]).1 > 0 by {
            assert(rest[i] == hits[i]);
        }
        lemma_top_score(rest);
        assert forall|i: int| 0 <= i < hits.len() implies 0 < (#[trigger] hits[i]).1 <= top_score(
            hits,
        ) by {
            if i < rest.len() {
                assert(rest[i] == hits[i]);
            }
        }
    }
}

/// Every keyword hit has a raw score above zero.
pub proof fn lemma_keyword_hits_positive(
    keywords: Seq<String>,
    q: &MemoryQuery,
    rows: Seq<Memory>,
    n: int,
)
    ensures
        forall|i: int|
            0 <= i < keyword_hits(keywords, q, rows, n).len() ==> (#[trigger] keyword_hits(
                keywords,
                q,
                rows,
                n,
            )[i]).1 > 0,
    decreases n,
{
    if n > 0 {
        lemma_keyword_hits_positive(keywords, q, rows, n - 1);
        let before = keyword_hits(keywords, q, rows, n - 1);
        let after = keyword_hits(keywords, q, rows, n);
        assert forall|i: int| 0 <= i < after.len() implies (#[trigger] after[i]).1 > 0 by {
            if i < before.len() {
                assert(after[i] == before[i]);
            }
        }
    }
}

/// A score between zero and the highest one is normalized into `[0, 1]`.
pub proof fn lemma_normalized_unit(score: int, top: int)
    requires
        0 <= score <= top,
        0 < top,
    ensures
        0 <= normalized_score(score, top) <= SCALE,
        score == top ==> normalized_score(score, top) == SCALE,
{
    let p = score * SCALE;
    assert(0 <= p <= SCALE * top) by (nonlinear_arith)
        requires
            0 <= score <= top,
            p == score * SCALE,
    ;
    vstd::arithmetic::div_mod::lemma_div_pos_is_pos(p, top);
    vstd::arithmetic::div_mod::lemma_div_is_ordered(p, SCALE * top, top);
    vstd::arithmetic::div_mod::lemma_div_by_multiple(SCALE as int, top);
    if score == top {
        assert(p == SCALE * top) by (nonlinear_arith)
            requires
                p == score * SCALE,
                score == top,
        ;
    }
}

/// Where there are hits, one of them has the highest score.
pub proof fn lemma_top_attained(hits: Seq<(MemoryView, int)>)
    requires
        hits.len() > 0,
        forall|i: int| 0 <= i < hits.len() ==> (#[trigger] hits[i]).1 > 0,
    ensures
        exists|i: int| 0 <= i < hits.len() && (#[trigger] hits[i]).1 == top_score(hits),
    decreases hits.len(),
{
    let rest = hits.drop_last();
    if rest.len() > 0 && top_score(rest) >= hits.last().1 {
        assert forall|i: int| 0 <= i < rest.len() implies (#[trigger] rest[i]).1 > 0 by {
            assert(rest[i] == hits[i]);
        }
        lemma_top_attained(rest);
        let w = choose|i: int| 0 <= i < rest.len() && (#[trigger] rest[i]).1 == top_score(rest);
        assert(hits[w] == rest[w]);
    } else {
        if rest.len() == 0 {
            assert(top_score(rest) == 0);
        }
        assert(hits[hits.len() - 1].1 == top_score(hits));
    }
}

/// The results of a keyword search have scores in `[0, 1]` and come from
/// the highest score down; the first of them has the score one.
pub proof fn lemma_keyword_ranking(keywords: Seq<String>, q: &MemoryQuery, rows: Seq<Memory>)
    requires
        rows.len() <= usize::MAX,
    ensures
        forall|k: int|
            0 <= k < keyword_ranking(keywords, q, rows).len() ==> 0 <= (#[trigger] keyword_ranking(
                keywords,
                q,
                rows,
            )[k]).1.micros <= SCALE,
        forall|a: int, b: int|
            0 <= a < b < keyword_ranking(keywords, q, rows).len() ==> (#[trigger] keyword_ranking(
                keywords,
                q,
                rows,
            )[a]).1.micros >= (#[trigger] keyword_ranking(keywords, q, rows)[b]).1.micros,
        keyword_ranking(keywords, q, rows).len() > 0 ==> keyword_ranking(keywords, q, rows)[0].1.micros
            == SCALE,
{
    if keywords.len() > 0 {
        let hits = keyword_hits(keywords, q, rows, rows.len() as int);
        let top = top_score(hits);
        let scored = Seq::new(
            hits.len(),
            |i: int| (hits[i].0, Score { micros: normalized_score(hits[i].1, top) as i64 }),
        );
        let keys = Seq::new(hits.len(), |i: int| normalized_score(hits[i].1, top) as i64);
        let out = keyword_ranking(keywords, q, rows);
        lemma_keyword_hits_positive(keywords, q, rows, rows.len() as int);
        lemma_keyword_hits_bound(keywords, q, rows, rows.len() as int);
        lemma_top_score(hits);
        crate::order::lemma_stable_order(keys, true);
        crate::memory::laws::lemma_ranked(scored, keys, true, hits.len() as int);
        let order = crate::order::stable_order(keys, true);
        assert forall|i: int| 0 <= i < hits.len() implies 0 <= #[trigger] keys[i] <= SCALE
            && scored[i].1.micros == keys[i] by {
            lemma_normalized_unit(hits[i].1, top);
        }
        assert forall|k: int| 0 <= k < out.len() implies 0 <= (#[trigger] out[k]).1.micros
            <= SCALE by {
            assert(order[k] < hits.len());
            assert(out[k] == scored[order[k] as int]);
            assert(scored[order[k] as int].1.micros == keys[order[k] as int]);
        }
        assert forall|a: int, b: int| 0 <= a < b < out.len() implies (#[trigger] out[a]).1.micros
            >= (#[trigger] out[b]).1.micros by {
            assert(order[a] < hits.len() && order[b] < hits.len());
            assert(out[a] == scored[order[a] as int]);
            assert(out[b] == scored[order[b] as int]);
            assert(scored[order[a] as int].1.micros == keys[order[a] as int]);
            assert(scored[order[b] as int].1.micros == keys[order[b] as int]);
            assert(!crate::order::goes_before(
                keys[order[b] as int],
                keys[order[a] as int],
                true,
            ));
        }
        if out.len() > 0 {
            lemma_top_attained(hits);
            let w = choose|i: int| 0 <= i < hits.len() && (#[trigger] hits[i]).1 == top;
            lemma_normalized_unit(hits[w].1, top);
            assert(keys[w] == SCALE);
            assert(crate::order::stands_in(order, w));
            let at = choose|a: int| 0 <= a < order.len() && #[trigger] order[a] == w;
            assert(order[0] < hits.len());
            assert(out[0] == scored[order[0] as int]);
            assert(scored[order[0] as int].1.micros == keys[order[0] as int]);
            if at > 0 {
                assert(!crate::order::goes_before(
                    keys[order[at] as int],
                    keys[order[0] as int],
                    true,
                ));
            }
        }
    }
}

/// There are no more keyword hits than rows.
pub proof fn lemma_keyword_hits_bound(
    keywords: Seq<String>,
    q: &MemoryQuery,
    rows: Seq<Memory>,
    n: int,
)
    ensures
        keyword_hits(keywords, q, rows, n).len() <= if n < 0 {
            0
        } else {
            n
        },
    decreases n,
{
    if n > 0 {
        lemma_keyword_hits_bound(keywords, q, rows, n - 1);
    }
}

/// What a search reads from the table.
#[derive(Clone, Copy, Debug, PartialEq, Eq, Structural)]
pub struct SearchPlan {
    /// How many of the rows nearest to the text of the query are read, if
    /// the query has a text.
    pub nearest: Option<usize>,
    /// Whether all rows are read.
    pub scan: bool,
}

/// A memory that may be a result of a hybrid search, with what the two
/// searches said of it.
#[derive(Debug)]
pub struct HybridCandidate {
    /// The memory.
    pub memory: Memory,
    /// Its score in the search by meaning; zero where that did not find it.
    pub vector_score: Score,
    /// Its score in the keyword search; zero where that did not find it.
    pub keyword_score: Score,
}

/// A [`HybridCandidate`] as plain values.
pub struct CandidateView {
    pub memory: MemoryView,
    pub vector_score: Score,
    pub keyword_score: Score,
}

impl View for HybridCandidate {
    type V = CandidateView;

    open spec fn view(&self) -> CandidateView {
        CandidateView {
            memory: self.memory@,
            vector_score: self.vector_score,
            keyword_score: self.keyword_score,
        }
    }
}

/// The views of a list of candidates.
pub open spec fn candidate_views(v: Seq<HybridCandidate>) -> Seq<CandidateView> {
    Seq::new(v.len(), |i: int| v[i]@)
}

/// The place of the first candidate with the identifier `id`, or `-1`.
pub open spec fn find_id(cands: Seq<CandidateView>, id: Seq<char>) -> int
    decreases cands.len(),
{
    if cands.len() == 0 {
        -1
    } else if cands[0].memory.id == id {
        0
    } else {
        let r = find_id(cands.drop_first(), id);
        if r < 0 {
            -1
        } else {
            r + 1
        }
    }
}

/// The candidates with the memory `m` put in under the vector score
/// `score`: in the place of the candidate with its identifier, or at the
/// end.
pub open spec fn put_vector(cands: Seq<CandidateView>, m: MemoryView, score: Score) -> Seq<
    CandidateView,
> {
    let fresh = CandidateView { memory: m, vector_score: score, keyword_score: Score { micros: 0 } };
    let at = find_id(cands, m.id);
    if 0 <= at < cands.len() {
        cands.update(at, fresh)
    } else {
        cands.push(fresh)
    }
}

/// The candidates with the keyword score `score` noted for the memory `m`:
/// on the candidate with its identifier, or on a new one at the end.
pub open spec fn put_keyword(cands: Seq<CandidateView>, m: MemoryView, score: Score) -> Seq<
    CandidateView,
> {
    let at = find_id(cands, m.id);
    if 0 <= at < cands.len() {
        cands.update(
            at,
            CandidateView {
                memory: cands[at].memory,
                vector_score: cands[at].vector_score,
                keyword_score: score,
            },
        )
    } else {
        cands.push(
            CandidateView { memory: m, vector_score: Score { micros: 0 }, keyword_score: score },
        )
    }
}

/// The candidates made of the first `n` results of the search by meaning.
pub open spec fn fold_vector(results: Seq<SearchResultView>, n: int) -> Seq<CandidateView>
    decreases n,
{
    if n <= 0 {
        Seq::empty()
    } else {
        put_vector(fold_vector(results, n - 1), results[n - 1].memory, results[n - 1].relevance_score)
    }
}

/// The candidates `start` with the first `n` results of the keyword search
/// noted.
pub open spec fn fold_keyword(
    start: Seq<CandidateView>,
    hits: Seq<(MemoryView, Score)>,
    n: int,
) -> Seq<CandidateView>
    decreases n,
{
    if n <= 0 {
        start
    } else {
        put_keyword(fold_keyword(start, hits, n - 1), hits[n - 1].0, hits[n - 1].1)
    }
}

/// The candidates made of those of the first `n` rows that pass the
/// filters, each without any score.
pub open spec fn fold_rows(rows: Seq<Memory>, q: &MemoryQuery, n: int) -> Seq<CandidateView>
    decreases n,
{
    if n <= 0 {
        Seq::empty()
    } else if passes_filters(rows[n - 1]@, q) {
        put_vector(fold_rows(rows, q, n - 1), rows[n - 1]@, Score { micros: 0 })
    } else {
        fold_rows(rows, q, n - 1)
    }
}

/// Whether no two candidates have the same identifier.
pub open spec fn distinct_ids(cands: Seq<CandidateView>) -> bool {
    forall|i: int, j: int|
        0 <= i < j < cands.len() ==> (#[trigger] cands[i]).memory.id != (#[trigger] cands[j]).memory.id
}

/// The search for an identifier finds a candidate that has it, and finds
/// none only where none has it.
pub proof fn lemma_find_id(cands: Seq<CandidateView>, id: Seq<char>)
    ensures
        -1 <= find_id(cands, id) < cands.len(),
        find_id(cands, id) >= 0 ==> cands[find_id(cands, id)].memory.id == id,
        find_id(cands, id) < 0 ==> forall|i: int|
            0 <= i < cands.len() ==> (#[trigger] cands[i]).memory.id != id,
    decreases cands.len(),
{
    if cands.len() > 0 && cands[0].memory.id != id {
        let rest = cands.drop_first();
        lemma_find_id(rest, id);
        if find_id(rest, id) >= 0 {
            assert(rest[find_id(rest, id)] == cands[find_id(rest, id) + 1]);
        } else {
            assert forall|i: int| 0 <= i < cands.len() implies (#[trigger] cands[i]).memory.id
                != id by {
                if i > 0 {
                    assert(cands[i] == rest[i - 1]);
                }
            }
        }
    }
}

/// Putting a memory among candidates with distinct identifiers leaves
/// their identifiers distinct.
pub proof fn lemma_put_keeps_distinct(cands: Seq<CandidateView>, m: MemoryView, score: Score)
    requires
        distinct_ids(cands),
    ensures
        distinct_ids(put_vector(cands, m, score)),
        distinct_ids(put_keyword(cands, m, score)),
{
    lemma_find_id(cands, m.id);
}

/// The candidates made of the results of the two searches, or of the rows
/// of the table, have distinct identifiers.
pub proof fn lemma_folds_keep_distinct(
    results: Seq<SearchResultView>,
    hits: Seq<(MemoryView, Score)>,
    rows: Seq<Memory>,
    q: &MemoryQuery,
    n: int,
    k: int,
    r: int,
)
    ensures
        distinct_ids(fold_vector(results, n)),
        distinct_ids(fold_keyword(fold_vector(results, n), hits, k)),
        distinct_ids(fold_keyword(Seq::empty(), hits, k)),
        distinct_ids(fold_rows(rows, q, r)),
    decreases
            (if n > 0 {
                n
            } else {
                0
            }) + (if k > 0 {
                k
            } else {
                0
            }) + (if r > 0 {
                r
            } else {
                0
            }),
{
    if n > 0 {
        lemma_folds_keep_distinct(results, hits, rows, q, n - 1, 0, 0);
        lemma_put_keeps_distinct(
            fold_vector(results, n - 1),
            results[n - 1].memory,
            results[n - 1].relevance_score,
        );
    }
    if k > 0 {
        lemma_folds_keep_distinct(results, hits, rows, q, n, k - 1, 0);
        lemma_put_keeps_distinct(
            fold_keyword(fold_vector(results, n), hits, k - 1),
            hits[k - 1].0,
            hits[k - 1].1,
        );
        lemma_put_keeps_distinct(fold_keyword(Seq::empty(), hits, k - 1), hits[k - 1].0, hits[k - 1].1);
    }
    if r > 0 {
        lemma_folds_keep_distinct(results, hits, rows, q, 0, 0, r - 1);
        if passes_filters(rows[r - 1]@, q) {
            lemma_put_keeps_distinct(fold_rows(rows, q, r - 1), rows[r - 1]@, Score { micros: 0 });
        }
    }
}

/// The reason that a hybrid search gives: its four signals and the final
/// score, each with two decimals.
pub open spec fn hybrid_reason(vector: Score, keyword: Score, recency: Score, importance: Score, total: Score) -> Seq<char> {
    "Hybrid: vector="@ + two_decimals_text(vector.micros as int) + ", keyword="@
        + two_decimals_text(keyword.micros as int) + ", recency="@ + two_decimals_text(
        recency.micros as int,
    ) + ", importance="@ + two_decimals_text(importance.micros as int) + ", final="@
        + two_decimals_text(total.micros as int)
}

/// What is said of a hybrid query that is refused.
pub open spec fn hybrid_refusal(reason: Seq<char>) -> Seq<char> {
    "Invalid hybrid query: "@ + reason
}

/// Twice `n`, held at the largest `usize`.
pub open spec fn doubled(n: usize) -> usize {
    if 2 * n <= usize::MAX {
        (2 * n) as usize
    } else {
        usize::MAX
    }
}

/// The smaller of two numbers.
pub open spec fn smaller(a: usize, b: usize) -> usize {
    if a < b {
        a
    } else {
        b
    }
}

/// The place of the first candidate with the identifier `id`.
pub fn position_of_id(cands: &Vec<HybridCandidate>, id: &str) -> (r: Option<usize>)
    ensures
        match r {
            Some(i) => i < cands@.len() && find_id(candidate_views(cands@), id@) == i,
            None => find_id(candidate_views(cands@), id@) == -1,
        },
{
    let mut i: usize = 0;
    let ghost all = candidate_views(cands@);
    assert(all.skip(0) =~= all);
    while i < cands.len()
        invariant
            i <= cands.len(),
            all == candidate_views(cands@),
            find_id(all, id@) == (if find_id(all.skip(i as int), id@) < 0 {
                -1
            } else {
                find_id(all.skip(i as int), id@) + i
            }),
        decreases cands.len() - i,
    {
        proof {
            assert(all.skip(i as int)[0] == cands@[i as int]@);
            assert(all.skip(i as int).drop_first() =~= all.skip(i + 1));
        }
        if same_text(cands[i].memory.id.as_str(), id) {
            return Some(i);
        }
        i += 1;
    }
    assert(all.skip(cands.len() as int).len() == 0);
    None
}

impl MemoryStore {
    /// The keyword score of a memory: title, content and tags at the
    /// weights three, one and two.
    pub fn keyword_score_of(memory: &Memory, keywords: &[String]) -> (r: Score)
        ensures
            r.micros == keyword_score(memory@, keywords@),
    {
        let title = MemoryStore::score_field(
            keywords,
            memory.title.as_str(),
            Score { micros: TITLE_WEIGHT },
        );
        let content = MemoryStore::score_field(
            keywords,
            memory.content.as_str(),
            Score { micros: CONTENT_WEIGHT },
        );
        let tags_text = join(&memory.metadata.tags, " ");
        proof {
            reveal_strlit(" ");
            assert(" "@ =~= seq![' ']);
        }
        let tags = MemoryStore::score_field(
            keywords,
            tags_text.as_str(),
            Score { micros: TAGS_WEIGHT },
        );
        title.plus(content).plus(tags)
    }

    /// The keyword search over `rows`, the rows of the table: those that
    /// pass the filters and match a keyword, with scores divided by the
    /// highest, from the highest score down.
    pub fn keyword_search(&self, keywords: &[String], filters: &MemoryQuery, rows: &Vec<Memory>)
        -> (out: Vec<(Memory, Score)>)
        ensures
            scored_views(out@) == keyword_ranking(keywords@, filters, rows@),
            forall|k: int| 0 <= k < out@.len() ==> 0 <= (#[trigger] out@[k]).1.micros <= SCALE,
    {
        if keywords.len() == 0 {
            let out: Vec<(Memory, Score)> = Vec::new();
            assert(scored_views(out@) =~= Seq::empty());
            return out;
        }
        let mut kept: Vec<Memory> = Vec::new();
        let mut raw: Vec<Score> = Vec::new();
        let mut top: i64 = 0;
        let mut i: usize = 0;
        assert(hit_views(kept@, raw@) =~= Seq::empty());
        while i < rows.len()
            invariant
                i <= rows.len(),
                kept@.len() == raw@.len(),
                hit_views(kept@, raw@) == keyword_hits(keywords@, filters, rows@, i as int),
                top == top_score(hit_views(kept@, raw@)),
            decreases rows.len() - i,
        {
            let memory = &rows[i];
            let score = MemoryStore::keyword_score_of(memory, keywords);
            if self.matches_filters(memory, filters) && score.micros > 0 {
                let ghost prev = hit_views(kept@, raw@);
                kept.push(memory.clone());
                raw.push(score);
                if score.micros > top {
                    top = score.micros;
                }
                proof {
                    let now = hit_views(kept@, raw@);
                    assert(now =~= prev.push((memory@, score.micros as int)));
                    assert(now.drop_last() =~= prev);
                }
            }
            i += 1;
        }
        let ghost hits = hit_views(kept@, raw@);
        proof {
            lemma_keyword_hits_positive(keywords@, filters, rows@, rows@.len() as int);
            lemma_top_score(hits);
        }
        let mut keys: Vec<i64> = Vec::new();
        let mut j: usize = 0;
        while j < raw.len()
            invariant
                j <= raw.len(),
                kept@.len() == raw@.len(),
                hits == hit_views(kept@, raw@),
                top == top_score(hits),
                forall|i: int| 0 <= i < hits.len() ==> 0 < (#[trigger] hits[i]).1 <= top,
                keys@.len() == j,
                forall|i: int|
                    0 <= i < j ==> #[trigger] keys@[i] == normalized_score(hits[i].1, top as int)
                        && 0 <= keys@[i] <= SCALE,
            decreases raw.len() - j,
        {
            assert(hits[j as int].1 == raw@[j as int].micros);
            proof {
                lemma_normalized_unit(raw@[j as int].micros as int, top as int);
            }
            let share = raw[j].over(Score { micros: top });
            keys.push(share.micros);
            j += 1;
        }
        let order = sort_order(&keys, true);
        let mut out: Vec<(Memory, Score)> = Vec::new();
        let mut k: usize = 0;
        while k < order.len()
            invariant
                k <= order.len(),
                is_arrangement(order@, keys@.len()),
                keys@.len() == kept@.len(),
                out@.len() == k,
                forall|i: int|
                    0 <= i < k ==> (#[trigger] out@[i]).0@ == kept@[order@[i] as int]@ && out@[i].1
                        == (Score { micros: keys@[order@[i] as int] }),
                forall|i: int| 0 <= i < keys@.len() ==> 0 <= #[trigger] keys@[i] <= SCALE,
            decreases order.len() - k,
        {
            let at = order[k];
            out.push((kept[at].clone(), Score { micros: keys[at] }));
            k += 1;
        }
        proof {
            let scored = Seq::new(
                hits.len(),
                |i: int| (hits[i].0, Score { micros: normalized_score(hits[i].1, top as int) as i64 }),
            );
            let spec_keys = Seq::new(
                hits.len(),
                |i: int| normalized_score(hits[i].1, top as int) as i64,
            );
            assert(keys@ =~= spec_keys);
            assert(scored_views(out@) =~= ranked(scored, spec_keys, true, hits.len() as int));
        }
        out
    }
}

impl MemoryStore {
    /// How many results a hybrid search may have: what its filters ask
    /// for, or what the store allows where they ask for nothing.
    pub open spec fn hybrid_limit_of(&self, q: &HybridSearchQuery) -> usize {
        match q.filters.limit {
            Some(n) => n,
            None => self.config.max_search_results,
        }
    }

    /// The final score of a candidate: the four signals, each times its
    /// weight, added up.
    pub open spec fn combined_score(
        q: &HybridSearchQuery,
        c: CandidateView,
        recency: int,
        importance: int,
    ) -> int {
        saturate(
            saturate(
                saturate(
                    mul_micros(q.vector_weight.micros as int, c.vector_score.micros as int)
                        + mul_micros(q.keyword_weight.micros as int, c.keyword_score.micros as int),
                ) + mul_micros(q.recency_weight.micros as int, recency),
            ) + mul_micros(q.importance_weight.micros as int, importance),
        )
    }

    /// The recency score that a hybrid search gives a candidate.
    pub open spec fn recency_of(&self, m: MemoryView, now: int) -> int {
        recency_at(
            m.created_at.millis as int,
            now,
            self.main_config.search.hybrid.recency_decay_days as int,
        )
    }

    /// The final score of a candidate at the instant `now`.
    pub open spec fn final_score(&self, q: &HybridSearchQuery, c: CandidateView, now: int) -> int {
        Self::combined_score(q, c, self.recency_of(c.memory, now), self.importance_of(c.memory, now))
    }

    /// The result that a hybrid search makes of a candidate.
    pub open spec fn hybrid_result(&self, q: &HybridSearchQuery, c: CandidateView, now: int)
        -> SearchResultView {
        let total = Score { micros: self.final_score(q, c, now) as i64 };
        SearchResultView {
            memory: c.memory,
            relevance_score: total,
            selection_reason: hybrid_reason(
                c.vector_score,
                c.keyword_score,
                Score { micros: self.recency_of(c.memory, now) as i64 },
                Score { micros: self.importance_of(c.memory, now) as i64 },
                total,
            ),
        }
    }

    /// The results of the first `n` candidates whose final score reaches
    /// the floor, in the order of the candidates.
    pub open spec fn hybrid_kept(
        &self,
        q: &HybridSearchQuery,
        cands: Seq<CandidateView>,
        now: int,
        n: int,
    ) -> Seq<SearchResultView>
        decreases n,
    {
        if n <= 0 {
            Seq::empty()
        } else {
            let before = self.hybrid_kept(q, cands, now, n - 1);
            if self.final_score(q, cands[n - 1], now) >= Self::floor_of(&q.filters) {
                before.push(self.hybrid_result(q, cands[n - 1], now))
            } else {
                before
            }
        }
    }

    /// The final scores of the first `n` candidates that reach the floor.
    pub open spec fn hybrid_keys(
        &self,
        q: &HybridSearchQuery,
        cands: Seq<CandidateView>,
        now: int,
        n: int,
    ) -> Seq<i64>
        decreases n,
    {
        if n <= 0 {
            Seq::empty()
        } else {
            let before = self.hybrid_keys(q, cands, now, n - 1);
            if self.final_score(q, cands[n - 1], now) >= Self::floor_of(&q.filters) {
                before.push(self.final_score(q, cands[n - 1], now) as i64)
            } else {
                before
            }
        }
    }

    /// How many results the search by meaning inside a hybrid search may
    /// have: twice the limit of the hybrid search, but never more than the
    /// store allows.
    pub open spec fn inner_limit_of(&self, q: &HybridSearchQuery) -> usize {
        smaller(doubled(self.hybrid_limit_of(q)), self.config.max_search_results)
    }

    /// The candidates of a hybrid search: what the search by meaning
    /// found among the nearest rows, where a text is given; then what the
    /// keyword search found among all rows, where keywords are given; or,
    /// where that leaves nothing, every row that passes the filters.
    pub open spec fn hybrid_candidates(
        &self,
        q: &HybridSearchQuery,
        nearest: Seq<Memory>,
        distances: Seq<Score>,
        rows: Seq<Memory>,
        now: int,
    ) -> Seq<CandidateView> {
        let by_meaning = self.plain_search_with(
            &q.filters,
            true,
            self.inner_limit_of(q) as int,
            nearest,
            distances,
            now,
        );
        let first: Seq<CandidateView> = if q.vector_query is Some {
            fold_vector(by_meaning, by_meaning.len() as int)
        } else {
            Seq::empty()
        };
        let second = match q.keywords {
            Some(keywords) => {
                let by_keyword = keyword_ranking(keywords@, &q.filters, rows);
                fold_keyword(first, by_keyword, by_keyword.len() as int)
            },
            None => first,
        };
        if second.len() == 0 {
            fold_rows(rows, &q.filters, rows.len() as int)
        } else {
            second
        }
    }

    /// What a hybrid search returns: the candidates whose final score
    /// reaches the floor, from the highest final score down, cut to the
    /// limit.
    pub open spec fn hybrid_results(
        &self,
        q: &HybridSearchQuery,
        nearest: Seq<Memory>,
        distances: Seq<Score>,
        rows: Seq<Memory>,
        now: int,
    ) -> Seq<SearchResultView> {
        let cands = self.hybrid_candidates(q, nearest, distances, rows, now);
        ranked(
            self.hybrid_kept(q, cands, now, cands.len() as int),
            self.hybrid_keys(q, cands, now, cands.len() as int),
            true,
            self.hybrid_limit_of(q) as int,
        )
    }

    /// Whether `h` is the hybrid query that stands for the plain query
    /// `q`: its text, no keywords, the default weights of the settings, and
    /// its filters.
    pub open spec fn stands_for(&self, q: &MemoryQuery, h: &HybridSearchQuery) -> bool {
        &&& h.vector_query == q.query_text
        &&& h.keywords is None
        &&& h.vector_weight == self.main_config.search.hybrid.default_vector_weight
        &&& h.keyword_weight == self.main_config.search.hybrid.default_keyword_weight
        &&& h.recency_weight == self.main_config.search.hybrid.default_recency_weight
        &&& h.importance_weight == self.main_config.search.hybrid.default_importance_weight
        &&& q.same_filters(&h.filters)
        &&& h.filters.query_text == q.query_text
        &&& h.filters.limit == q.limit
    }

    /// The hybrid query that stands for a plain query.
    pub fn convert_to_hybrid_query(&self, query: &MemoryQuery) -> (h: HybridSearchQuery)
        ensures
            self.stands_for(query, &h),
    {
        let hybrid = &self.main_config.search.hybrid;
        HybridSearchQuery {
            vector_query: crate::text::clone_opt_string(&query.query_text),
            keywords: None,
            vector_weight: hybrid.default_vector_weight,
            keyword_weight: hybrid.default_keyword_weight,
            recency_weight: hybrid.default_recency_weight,
            importance_weight: hybrid.default_importance_weight,
            filters: query.clone(),
        }
    }

    /// The reason that a hybrid search gives.
    pub fn hybrid_reason_for(
        vector: Score,
        keyword: Score,
        recency: Score,
        importance: Score,
        total: Score,
    ) -> (r: String)
        ensures
            r@ == hybrid_reason(vector, keyword, recency, importance, total),
    {
        let mut out: Vec<char> = Vec::new();
        push_text(&mut out, "Hybrid: vector=");
        push_text(&mut out, vector.to_two_decimals().as_str());
        push_text(&mut out, ", keyword=");
        push_text(&mut out, keyword.to_two_decimals().as_str());
        push_text(&mut out, ", recency=");
        push_text(&mut out, recency.to_two_decimals().as_str());
        push_text(&mut out, ", importance=");
        push_text(&mut out, importance.to_two_decimals().as_str());
        push_text(&mut out, ", final=");
        push_text(&mut out, total.to_two_decimals().as_str());
        string_of(&out)
    }

    /// A hybrid search as the clock stands. `nearest` are the rows nearest
    /// to the text of the query, each with its cosine distance at the same
    /// place of `distances`; `rows` are all rows of the table. A query
    /// that [`HybridSearchQuery::validate`] refuses is refused here.
    pub fn hybrid_search(
        &self,
        query: &HybridSearchQuery,
        nearest: &Vec<Memory>,
        distances: &Vec<Score>,
        rows: &Vec<Memory>,
    ) -> (r: Result<Vec<MemorySearchResult>, String>)
        ensures
            match r {
                Ok(out) => query.refusal() is None && exists|now: int|
                    result_views(out@) == self.hybrid_results(
                        query,
                        nearest@,
                        distances@,
                        rows@,
                        now,
                    ),
                Err(e) => query.refusal() is Some && e@ == hybrid_refusal(query.refusal()->0),
            },
    {
        let now = Timestamp::now();
        let r = self.hybrid_search_at(query, nearest, distances, rows, now);
        proof {
            if r is Ok {
                assert(result_views(r->Ok_0@) == self.hybrid_results(
                    query,
                    nearest@,
                    distances@,
                    rows@,
                    now.millis as int,
                ));
            }
        }
        r
    }

    /// A hybrid search at the instant `now`.
    pub fn hybrid_search_at(
        &self,
        query: &HybridSearchQuery,
        nearest: &Vec<Memory>,
        distances: &Vec<Score>,
        rows: &Vec<Memory>,
        now: Timestamp,
    ) -> (r: Result<Vec<MemorySearchResult>, String>)
        ensures
            match r {
                Ok(out) => query.refusal() is None && result_views(out@) == self.hybrid_results(
                    query,
                    nearest@,
                    distances@,
                    rows@,
                    now.millis as int,
                ),
                Err(e) => query.refusal() is Some && e@ == hybrid_refusal(query.refusal()->0),
            },
    {
        match query.validate() {
            Ok(_) => {},
            Err(reason) => {
                let mut text: Vec<char> = Vec::new();
                push_text(&mut text, "Invalid hybrid query: ");
                push_text(&mut text, reason.as_str());
                return Err(string_of(&text));
            },
        }
        let cands = self.gather_candidates(query, nearest, distances, rows, now);
        Ok(self.rank_candidates(query, &cands, now))
    }

    /// The candidates of a hybrid search at the instant `now`.
    pub fn gather_candidates(
        &self,
        query: &HybridSearchQuery,
        nearest: &Vec<Memory>,
        distances: &Vec<Score>,
        rows: &Vec<Memory>,
        now: Timestamp,
    ) -> (cands: Vec<HybridCandidate>)
        ensures
            candidate_views(cands@) == self.hybrid_candidates(
                query,
                nearest@,
                distances@,
                rows@,
                now.millis as int,
            ),
    {
        let limit: usize = match query.filters.limit {
            Some(n) => n,
            None => self.config.max_search_results,
        };
        let twice: usize = if limit <= usize::MAX / 2 {
            limit * 2
        } else {
            usize::MAX
        };
        let inner: usize = if twice < self.config.max_search_results {
            twice
        } else {
            self.config.max_search_results
        };
        let mut cands: Vec<HybridCandidate> = Vec::new();
        assert(candidate_views(cands@) =~= Seq::empty());
        if query.vector_query.is_some() {
            let by_meaning = self.search_rows(&query.filters, true, inner, nearest, distances, now);
            let mut i: usize = 0;
            while i < by_meaning.len()
                invariant
                    i <= by_meaning.len(),
                    candidate_views(cands@) == fold_vector(result_views(by_meaning@), i as int),
                decreases by_meaning.len() - i,
            {
                let found = &by_meaning[i];
                MemoryStore::note_vector(&mut cands, &found.memory, found.relevance_score);
                i += 1;
            }
        }
        match &query.keywords {
            Some(keywords) => {
                let by_keyword = self.keyword_search(keywords.as_slice(), &query.filters, rows);
                let ghost start = candidate_views(cands@);
                let mut i: usize = 0;
                while i < by_keyword.len()
                    invariant
                        i <= by_keyword.len(),
                        candidate_views(cands@) == fold_keyword(
                            start,
                            scored_views(by_keyword@),
                            i as int,
                        ),
                    decreases by_keyword.len() - i,
                {
                    let hit = &by_keyword[i];
                    MemoryStore::note_keyword(&mut cands, &hit.0, hit.1);
                    i += 1;
                }
            },
            None => {},
        }
        if cands.len() == 0 {
            let mut i: usize = 0;
            while i < rows.len()
                invariant
                    i <= rows.len(),
                    candidate_views(cands@) == fold_rows(rows@, &query.filters, i as int),
                decreases rows.len() - i,
            {
                if self.matches_filters(&rows[i], &query.filters) {
                    MemoryStore::note_vector(&mut cands, &rows[i], Score::zero());
                }
                i += 1;
            }
        }
        cands
    }

    /// The candidates whose final score reaches the floor, from the
    /// highest final score down, cut to the limit.
    pub fn rank_candidates(
        &self,
        query: &HybridSearchQuery,
        cands: &Vec<HybridCandidate>,
        now: Timestamp,
    ) -> (out: Vec<MemorySearchResult>)
        ensures
            result_views(out@) == ranked(
                self.hybrid_kept(
                    query,
                    candidate_views(cands@),
                    now.millis as int,
                    cands@.len() as int,
                ),
                self.hybrid_keys(
                    query,
                    candidate_views(cands@),
                    now.millis as int,
                    cands@.len() as int,
                ),
                true,
                self.hybrid_limit_of(query) as int,
            ),
            out@.len() <= self.hybrid_limit_of(query),
    {
        let limit: usize = match query.filters.limit {
            Some(n) => n,
            None => self.config.max_search_results,
        };
        let floor: i64 = match query.filters.min_relevance {
            Some(s) => s.micros,
            None => 0,
        };
        let ghost all = candidate_views(cands@);
        let mut found: Vec<MemorySearchResult> = Vec::new();
        let mut keys: Vec<i64> = Vec::new();
        let mut k: usize = 0;
        assert(result_views(found@) =~= Seq::empty());
        while k < cands.len()
            invariant
                k <= cands.len(),
                all == candidate_views(cands@),
                floor == Self::floor_of(&query.filters),
                found@.len() == keys@.len(),
                result_views(found@) == self.hybrid_kept(query, all, now.millis as int, k as int),
                keys@ == self.hybrid_keys(query, all, now.millis as int, k as int),
            decreases cands.len() - k,
        {
            let c = &cands[k];
            assert(all[k as int] == c@);
            let recency = MemoryStore::calculate_recency_score_at(
                &c.memory,
                self.main_config.search.hybrid.recency_decay_days,
                now,
            );
            let importance = c.memory.get_current_importance_at(
                self.config.decay_enabled,
                self.config.min_importance_threshold,
                now,
            );
            let total = query.vector_weight.times(c.vector_score).plus(
                query.keyword_weight.times(c.keyword_score),
            ).plus(query.recency_weight.times(recency)).plus(
                query.importance_weight.times(importance),
            );
            if total.micros >= floor {
                let reason = MemoryStore::hybrid_reason_for(
                    c.vector_score,
                    c.keyword_score,
                    recency,
                    importance,
                    total,
                );
                let ghost prev = result_views(found@);
                found.push(
                    MemorySearchResult {
                        memory: c.memory.clone(),
                        relevance_score: total,
                        selection_reason: reason,
                    },
                );
                keys.push(total.micros);
                assert(result_views(found@) =~= prev.push(
                    self.hybrid_result(query, c@, now.millis as int),
                ));
            }
            k += 1;
        }
        let order = sort_order(&keys, true);
        let out = pick_results(&found, &order, limit);
        assert(result_views(out@) =~= ranked(result_views(found@), keys@, true, limit as int));
        out
    }

    /// Puts a memory among the candidates under a vector score.
    pub fn note_vector(cands: &mut Vec<HybridCandidate>, memory: &Memory, score: Score)
        ensures
            candidate_views(final(cands)@) == put_vector(
                candidate_views(old(cands)@),
                memory@,
                score,
            ),
    {
        let fresh = HybridCandidate {
            memory: memory.clone(),
            vector_score: score,
            keyword_score: Score::zero(),
        };
        match position_of_id(cands, memory.id.as_str()) {
            Some(at) => {
                cands.set(at, fresh);
            },
            None => {
                cands.push(fresh);
            },
        }
        assert(candidate_views(cands@) =~= put_vector(
            candidate_views(old(cands)@),
            memory@,
            score,
        ));
    }

    /// Notes a keyword score for a memory among the candidates.
    pub fn note_keyword(cands: &mut Vec<HybridCandidate>, memory: &Memory, score: Score)
        ensures
            candidate_views(final(cands)@) == put_keyword(
                candidate_views(old(cands)@),
                memory@,
                score,
            ),
    {
        match position_of_id(cands, memory.id.as_str()) {
            Some(at) => {
                let kept = HybridCandidate {
                    memory: cands[at].memory.clone(),
                    vector_score: cands[at].vector_score,
                    keyword_score: score,
                };
                cands.set(at, kept);
            },
            None => {
                cands.push(
                    HybridCandidate {
                        memory: memory.clone(),
                        vector_score: Score::zero(),
                        keyword_score: score,
                    },
                );
            },
        }
        assert(candidate_views(cands@) =~= put_keyword(
            candidate_views(old(cands)@),
            memory@,
            score,
        ));
    }

    /// How many nearest rows are asked of the table for a hybrid search:
    /// none without a text; else twice what the search by meaning inside
    /// it may return.
    pub open spec fn hybrid_reach(&self, q: &HybridSearchQuery) -> usize {
        if q.vector_query is Some {
            doubled(self.inner_limit_of(q))
        } else {
            0
        }
    }

    /// How many nearest rows are asked of the table for a hybrid search.
    pub fn hybrid_candidate_count(&self, query: &HybridSearchQuery) -> (n: usize)
        ensures
            n == self.hybrid_reach(query),
    {
        if query.vector_query.is_none() {
            return 0;
        }
        let limit: usize = match query.filters.limit {
            Some(n) => n,
            None => self.config.max_search_results,
        };
        let twice: usize = if limit <= usize::MAX / 2 {
            limit * 2
        } else {
            usize::MAX
        };
        let inner: usize = if twice < self.config.max_search_results {
            twice
        } else {
            self.config.max_search_results
        };
        if inner <= usize::MAX / 2 {
            inner * 2
        } else {
            usize::MAX
        }
    }

    /// What a search reads from the table: how many of the rows nearest to
    /// its text, if it has a text, and whether all rows. A hybrid search
    /// reads both; a plain search with a text only the nearest rows; a
    /// search without a text all rows.
    pub fn plan_search(&self, query: &MemoryQuery) -> (plan: SearchPlan)
        ensures
            plan.nearest is Some <==> query.query_text is Some,
            self.is_hybrid(query) ==> exists|h: HybridSearchQuery|
                self.stands_for(query, &h) && plan.nearest == Some(self.hybrid_reach(&h)),
            !self.is_hybrid(query) && query.query_text is Some ==> plan.nearest == Some(
                doubled(self.limit_of(query)),
            ),
            plan.scan == (self.is_hybrid(query) || query.query_text is None),
    {
        if self.main_config.search.hybrid.enabled && query.query_text.is_some() {
            let h = self.convert_to_hybrid_query(query);
            let n = self.hybrid_candidate_count(&h);
            assert(self.stands_for(query, &h) && Some(n) == Some(self.hybrid_reach(&h)));
            SearchPlan { nearest: Some(n), scan: true }
        } else if query.query_text.is_some() {
            SearchPlan { nearest: Some(self.candidate_count(query)), scan: false }
        } else {
            SearchPlan { nearest: None, scan: true }
        }
    }

    /// Whether a search for `query` is a hybrid search: the settings
    /// enable it and the query has a text.
    pub open spec fn is_hybrid(&self, query: &MemoryQuery) -> bool {
        self.main_config.search.hybrid.enabled && query.query_text is Some
    }

    /// The rows that a plain search reads: the nearest rows for a query
    /// with a text, all rows for one without.
    pub open spec fn rows_read(query: &MemoryQuery, nearest: Seq<Memory>, rows: Seq<Memory>) -> Seq<
        Memory,
    > {
        if query.query_text is Some {
            nearest
        } else {
            rows
        }
    }

    /// A search: a hybrid search where the settings enable it and the
    /// query has a text, else a plain search. `nearest` and `distances`
    /// are the rows nearest to the text with their cosine distances;
    /// `rows` are all rows of the table.
    pub fn search_memories(
        &self,
        query: &MemoryQuery,
        nearest: &Vec<Memory>,
        distances: &Vec<Score>,
        rows: &Vec<Memory>,
    ) -> (r: Result<Vec<MemorySearchResult>, String>)
        ensures
            !self.is_hybrid(query) ==> r is Ok && exists|now: int|
                result_views(r->Ok_0@) == self.plain_search(
                    query,
                    Self::rows_read(query, nearest@, rows@),
                    distances@,
                    now,
                ),
            self.is_hybrid(query) ==> exists|h: HybridSearchQuery|
                self.stands_for(query, &h) && match r {
                    Ok(out) => h.refusal() is None && exists|now: int|
                        result_views(out@) == self.hybrid_results(
                            &h,
                            nearest@,
                            distances@,
                            rows@,
                            now,
                        ),
                    Err(e) => h.refusal() is Some && e@ == hybrid_refusal(h.refusal()->0),
                },
    {
        if self.main_config.search.hybrid.enabled && query.query_text.is_some() {
            let h = self.convert_to_hybrid_query(query);
            let r = self.hybrid_search(&h, nearest, distances, rows);
            assert(self.stands_for(query, &h));
            r
        } else if query.query_text.is_some() {
            let out = self.vector_search(query, nearest, distances);
            proof {
                let now = choose|now: int|
                    result_views(out@) == self.plain_search(query, nearest@, distances@, now);
                assert(result_views(out@) == self.plain_search(
                    query,
                    Self::rows_read(query, nearest@, rows@),
                    distances@,
                    now,
                ));
            }
            Ok(out)
        } else {
            let out = self.vector_search(query, rows, distances);
            proof {
                let now = choose|now: int|
                    result_views(out@) == self.plain_search(query, rows@, distances@, now);
                assert(result_views(out@) == self.plain_search(
                    query,
                    Self::rows_read(query, nearest@, rows@),
                    distances@,
                    now,
                ));
            }
            Ok(out)
        }
    }
}

} // verus!
