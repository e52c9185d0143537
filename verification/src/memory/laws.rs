//! What holds of every search: results pass the filters, reach the floor,
//! come in order and, where the limit cuts nothing off, leave out no row
//! that does; and which memories cleanup chooses.

use vstd::prelude::*;
use crate::clock::{rfc3339_text, Timestamp};
use crate::fixed::{
    lemma_mul_micros_positive, lemma_mul_micros_unit, mul_micros, Score, SCALE,
};
use crate::memory::filters::passes_filters;
use crate::memory::hybrid::{
    distinct_ids, keyword_ranking, lemma_folds_keep_distinct, CandidateView,
};
use crate::memory::ranking::{ranked, similarity_of};
use crate::memory::rows::{row_of, text_before, writable, RowPredicate};
use crate::memory::store::MemoryStore;
use crate::memory::types::{
    weight_in_range, HybridSearchQuery, Memory, MemoryQuery, MemoryView,
};
use crate::order::{
    goes_before, is_arrangement, lemma_stable_order, stable_order, stands_in,
};

verus! {

/// Whether a memory is one of the rows.
pub open spec fn is_row(rows: Seq<Memory>, m: crate::memory::types::MemoryView) -> bool {
    exists|j: int| 0 <= j < rows.len() && (#[trigger] rows[j])@ == m
}

/// A ranking holds as many items as were found, up to the limit; each is
/// one of the items found; and no item stands behind one that it goes
/// before.
pub proof fn lemma_ranked<T>(found: Seq<T>, keys: Seq<i64>, descending: bool, limit: int)
    requires
        keys.len() == found.len(),
        found.len() <= usize::MAX,
    ensures
        ranked(found, keys, descending, limit).len() == (if limit < found.len() {
            if limit < 0 {
                0
            } else {
                limit
            }
        } else {
            found.len() as int
        }),
        is_arrangement(stable_order(keys, descending), found.len()),
        forall|k: int|
            0 <= k < ranked(found, keys, descending, limit).len() ==> #[trigger] ranked(
                found,
                keys,
                descending,
                limit,
            )[k] == found[stable_order(keys, descending)[k] as int],
        forall|a: int, b: int|
            0 <= a < b < ranked(found, keys, descending, limit).len() ==> !goes_before(
                keys[#[trigger] stable_order(keys, descending)[b] as int],
                keys[#[trigger] stable_order(keys, descending)[a] as int],
                descending,
            ),
{
    lemma_stable_order(keys, descending);
}

impl MemoryStore {
    /// Every result that a plain search keeps was made of a row that
    /// passes the filters, has a score that reaches the floor, and carries
    /// that score; and there is a sort key for each.
    pub proof fn lemma_kept_results(
        &self,
        q: &MemoryQuery,
        with_text: bool,
        rows: Seq<Memory>,
        distances: Seq<Score>,
        now: int,
        n: int,
    )
        requires
            n <= rows.len(),
        ensures
            self.kept_results(q, with_text, rows, distances, now, n).len() == self.kept_keys(
                q,
                with_text,
                rows,
                distances,
                now,
                n,
            ).len(),
            self.kept_results(q, with_text, rows, distances, now, n).len() <= if n < 0 {
                0
            } else {
                n
            },
            forall|k: int|
                0 <= k < self.kept_results(q, with_text, rows, distances, now, n).len() ==> {
                    let r = #[trigger] self.kept_results(q, with_text, rows, distances, now, n)[k];
                    &&& passes_filters(r.memory, q)
                    &&& r.relevance_score.micros >= Self::floor_of(q)
                    &&& q.sort_by is None ==> self.kept_keys(q, with_text, rows, distances, now, n)[k]
                        == r.relevance_score.micros
                },
        decreases n,
    {
        if n > 0 {
            self.lemma_kept_results(q, with_text, rows, distances, now, n - 1);
            let before = self.kept_results(q, with_text, rows, distances, now, n - 1);
            let after = self.kept_results(q, with_text, rows, distances, now, n);
            assert forall|k: int| 0 <= k < after.len() implies {
                let r = #[trigger] after[k];
                &&& passes_filters(r.memory, q)
                &&& r.relevance_score.micros >= Self::floor_of(q)
                &&& q.sort_by is None ==> self.kept_keys(q, with_text, rows, distances, now, n)[k]
                    == r.relevance_score.micros
            } by {
                if k < before.len() {
                    assert(after[k] == before[k]);
                }
            }
        }
    }

    /// Every result that a plain search keeps is one of the rows it was
    /// given.
    pub proof fn lemma_kept_results_are_rows(
        &self,
        q: &MemoryQuery,
        with_text: bool,
        rows: Seq<Memory>,
        distances: Seq<Score>,
        now: int,
        n: int,
    )
        requires
            n <= rows.len(),
        ensures
            forall|k: int|
                0 <= k < self.kept_results(q, with_text, rows, distances, now, n).len()
                    ==> is_row(
                    rows,
                    (#[trigger] self.kept_results(q, with_text, rows, distances, now, n)[k]).memory,
                ),
        decreases n,
    {
        if n > 0 {
            self.lemma_kept_results_are_rows(q, with_text, rows, distances, now, n - 1);
            let before = self.kept_results(q, with_text, rows, distances, now, n - 1);
            let after = self.kept_results(q, with_text, rows, distances, now, n);
            assert forall|k: int| 0 <= k < after.len() implies is_row(
                rows,
                (#[trigger] after[k]).memory,
            ) by {
                if k < before.len() {
                    assert(after[k] == before[k]);
                } else {
                    assert(rows[n - 1]@ == after[k].memory);
                }
            }
        }
    }

    /// The results of a plain search are rows that were given, pass the
    /// filters and reach the floor; there are no more of them than the
    /// limit; and, unless the query asks for another order, they come from
    /// the highest score down.
    pub proof fn lemma_plain_search(
        &self,
        q: &MemoryQuery,
        with_text: bool,
        limit: int,
        rows: Seq<Memory>,
        distances: Seq<Score>,
        now: int,
    )
        requires
            rows.len() <= usize::MAX,
            limit >= 0,
        ensures
            self.plain_search_with(q, with_text, limit, rows, distances, now).len() <= limit,
            forall|k: int|
                0 <= k < self.plain_search_with(q, with_text, limit, rows, distances, now).len()
                    ==> {
                    let r = #[trigger] self.plain_search_with(
                        q,
                        with_text,
                        limit,
                        rows,
                        distances,
                        now,
                    )[k];
                    &&& is_row(rows, r.memory)
                    &&& passes_filters(r.memory, q)
                    &&& r.relevance_score.micros >= Self::floor_of(q)
                },
            q.sort_by is None ==> forall|a: int, b: int|
                0 <= a < b < self.plain_search_with(q, with_text, limit, rows, distances, now).len()
                    ==> (#[trigger] self.plain_search_with(
                    q,
                    with_text,
                    limit,
                    rows,
                    distances,
                    now,
                )[a]).relevance_score.micros >= (#[trigger] self.plain_search_with(
                    q,
                    with_text,
                    limit,
                    rows,
                    distances,
                    now,
                )[b]).relevance_score.micros,
    {
        let n = Self::rows_considered(with_text, rows.len() as int, distances.len() as int);
        let found = self.kept_results(q, with_text, rows, distances, now, n);
        let keys = self.kept_keys(q, with_text, rows, distances, now, n);
        self.lemma_kept_results(q, with_text, rows, distances, now, n);
        self.lemma_kept_results_are_rows(q, with_text, rows, distances, now, n);
        lemma_ranked(found, keys, Self::sorts_descending(q), limit);
        let out = self.plain_search_with(q, with_text, limit, rows, distances, now);
        let order = stable_order(keys, Self::sorts_descending(q));
        assert forall|k: int| 0 <= k < out.len() implies {
            let r = #[trigger] out[k];
            &&& is_row(rows, r.memory)
            &&& passes_filters(r.memory, q)
            &&& r.relevance_score.micros >= Self::floor_of(q)
        } by {
            assert(out[k] == found[order[k] as int]);
        }
        if q.sort_by is None {
            assert forall|a: int, b: int| 0 <= a < b < out.len() implies (#[trigger] out[a]).relevance_score.micros
                >= (#[trigger] out[b]).relevance_score.micros by {
                assert(out[a] == found[order[a] as int]);
                assert(out[b] == found[order[b] as int]);
                assert(!goes_before(keys[order[b] as int], keys[order[a] as int], true));
            }
        }
    }

    /// A plain search keeps every row that it looks at, passes the filters
    /// and has a score that reaches the floor.
    pub proof fn lemma_kept_results_complete(
        &self,
        q: &MemoryQuery,
        with_text: bool,
        rows: Seq<Memory>,
        distances: Seq<Score>,
        now: int,
        n: int,
        j: int,
    )
        requires
            0 <= j < n <= rows.len(),
            self.keeps_row(q, with_text, rows[j]@, Self::distance_at(distances, j), now),
        ensures
            exists|k: int|
                0 <= k < self.kept_results(q, with_text, rows, distances, now, n).len()
                    && #[trigger] self.kept_results(q, with_text, rows, distances, now, n)[k]
                    == self.plain_result(q, with_text, rows[j]@, Self::distance_at(distances, j), now),
        decreases n,
    {
        let after = self.kept_results(q, with_text, rows, distances, now, n);
        let wanted = self.plain_result(q, with_text, rows[j]@, Self::distance_at(distances, j), now);
        if j == n - 1 {
            assert(after[after.len() - 1] == wanted);
        } else {
            self.lemma_kept_results_complete(q, with_text, rows, distances, now, n - 1, j);
            let before = self.kept_results(q, with_text, rows, distances, now, n - 1);
            let k = choose|k: int| 0 <= k < before.len() && #[trigger] before[k] == wanted;
            assert(after[k] == before[k]);
        }
    }

    /// Where the limit cuts nothing off, a plain search returns every row
    /// that it looks at, passes the filters and has a score that reaches
    /// the floor, with that score.
    pub proof fn lemma_plain_search_complete(
        &self,
        q: &MemoryQuery,
        with_text: bool,
        limit: int,
        rows: Seq<Memory>,
        distances: Seq<Score>,
        now: int,
        j: int,
    )
        requires
            rows.len() <= usize::MAX,
            0 <= j < Self::rows_considered(with_text, rows.len() as int, distances.len() as int),
            self.keeps_row(q, with_text, rows[j]@, Self::distance_at(distances, j), now),
            self.kept_results(
                q,
                with_text,
                rows,
                distances,
                now,
                Self::rows_considered(with_text, rows.len() as int, distances.len() as int),
            ).len() <= limit,
        ensures
            exists|k: int|
                0 <= k < self.plain_search_with(q, with_text, limit, rows, distances, now).len()
                    && #[trigger] self.plain_search_with(q, with_text, limit, rows, distances, now)[k]
                    == self.plain_result(q, with_text, rows[j]@, Self::distance_at(distances, j), now),
    {
        let n = Self::rows_considered(with_text, rows.len() as int, distances.len() as int);
        let found = self.kept_results(q, with_text, rows, distances, now, n);
        let keys = self.kept_keys(q, with_text, rows, distances, now, n);
        let wanted = self.plain_result(q, with_text, rows[j]@, Self::distance_at(distances, j), now);
        self.lemma_kept_results(q, with_text, rows, distances, now, n);
        self.lemma_kept_results_complete(q, with_text, rows, distances, now, n, j);
        lemma_ranked(found, keys, Self::sorts_descending(q), limit);
        lemma_stable_order(keys, Self::sorts_descending(q));
        let order = stable_order(keys, Self::sorts_descending(q));
        let i = choose|i: int| 0 <= i < found.len() && #[trigger] found[i] == wanted;
        assert(stands_in(order, i));
        let a = choose|a: int| 0 <= a < order.len() && #[trigger] order[a] == i;
        let out = self.plain_search_with(q, with_text, limit, rows, distances, now);
        assert(out[a] == found[order[a] as int]);
    }

    /// Of two results of a plain search that is ordered by score, the one
    /// with the higher score comes first.
    pub proof fn lemma_plain_higher_first(
        &self,
        q: &MemoryQuery,
        with_text: bool,
        limit: int,
        rows: Seq<Memory>,
        distances: Seq<Score>,
        now: int,
        a: int,
        b: int,
    )
        requires
            rows.len() <= usize::MAX,
            limit >= 0,
            q.sort_by is None,
            0 <= a < self.plain_search_with(q, with_text, limit, rows, distances, now).len(),
            0 <= b < self.plain_search_with(q, with_text, limit, rows, distances, now).len(),
            self.plain_search_with(q, with_text, limit, rows, distances, now)[a].relevance_score.micros
                > self.plain_search_with(
                q,
                with_text,
                limit,
                rows,
                distances,
                now,
            )[b].relevance_score.micros,
        ensures
            a < b,
    {
        self.lemma_plain_search(q, with_text, limit, rows, distances, now);
    }

    /// No two candidates of a hybrid search have the same identifier: a
    /// memory that both searches found is one candidate with both scores.
    pub proof fn lemma_candidates_distinct(
        &self,
        q: &HybridSearchQuery,
        nearest: Seq<Memory>,
        distances: Seq<Score>,
        rows: Seq<Memory>,
        now: int,
    )
        ensures
            distinct_ids(self.hybrid_candidates(q, nearest, distances, rows, now)),
    {
        let by_meaning = self.plain_search_with(
            &q.filters,
            true,
            self.inner_limit_of(q) as int,
            nearest,
            distances,
            now,
        );
        match q.keywords {
            Some(keywords) => {
                let by_keyword = keyword_ranking(keywords@, &q.filters, rows);
                lemma_folds_keep_distinct(
                    by_meaning,
                    by_keyword,
                    rows,
                    &q.filters,
                    by_meaning.len() as int,
                    by_keyword.len() as int,
                    rows.len() as int,
                );
            },
            None => {
                lemma_folds_keep_distinct(
                    by_meaning,
                    Seq::empty(),
                    rows,
                    &q.filters,
                    by_meaning.len() as int,
                    0,
                    rows.len() as int,
                );
            },
        }
    }

    /// Every result that a hybrid search keeps carries the final score of
    /// its candidate, which reaches the floor; and its sort key is that
    /// score.
    pub proof fn lemma_hybrid_kept(
        &self,
        q: &HybridSearchQuery,
        cands: Seq<CandidateView>,
        now: int,
        n: int,
    )
        requires
            n <= cands.len(),
        ensures
            self.hybrid_kept(q, cands, now, n).len() == self.hybrid_keys(q, cands, now, n).len(),
            self.hybrid_kept(q, cands, now, n).len() <= if n < 0 {
                0
            } else {
                n
            },
            forall|k: int|
                0 <= k < self.hybrid_kept(q, cands, now, n).len() ==> {
                    let r = #[trigger] self.hybrid_kept(q, cands, now, n)[k];
                    &&& r.relevance_score.micros >= Self::floor_of(&q.filters)
                    &&& self.hybrid_keys(q, cands, now, n)[k] == r.relevance_score.micros
                },
        decreases n,
    {
        if n > 0 {
            self.lemma_hybrid_kept(q, cands, now, n - 1);
            let before = self.hybrid_kept(q, cands, now, n - 1);
            let after = self.hybrid_kept(q, cands, now, n);
            assert forall|k: int| 0 <= k < after.len() implies {
                let r = #[trigger] after[k];
                &&& r.relevance_score.micros >= Self::floor_of(&q.filters)
                &&& self.hybrid_keys(q, cands, now, n)[k] == r.relevance_score.micros
            } by {
                if k < before.len() {
                    assert(after[k] == before[k]);
                }
            }
        }
    }

    /// Whether `r` is the result that a hybrid search makes of one of the
    /// first `n` candidates.
    pub open spec fn is_made_of(
        &self,
        q: &HybridSearchQuery,
        cands: Seq<CandidateView>,
        now: int,
        n: int,
        r: crate::memory::types::SearchResultView,
    ) -> bool {
        exists|j: int| 0 <= j < n && #[trigger] self.hybrid_result(q, cands[j], now) == r
    }

    /// A hybrid search keeps every candidate whose final score reaches the
    /// floor, and keeps only what it made of a candidate.
    pub proof fn lemma_hybrid_kept_complete(
        &self,
        q: &HybridSearchQuery,
        cands: Seq<CandidateView>,
        now: int,
        n: int,
    )
        requires
            n <= cands.len(),
        ensures
            forall|j: int|
                0 <= j < n && self.final_score(q, #[trigger] cands[j], now) >= Self::floor_of(
                    &q.filters,
                ) ==> exists|k: int|
                    0 <= k < self.hybrid_kept(q, cands, now, n).len() && #[trigger] self.hybrid_kept(
                        q,
                        cands,
                        now,
                        n,
                    )[k] == self.hybrid_result(q, cands[j], now),
            forall|k: int|
                0 <= k < self.hybrid_kept(q, cands, now, n).len() ==> self.is_made_of(
                    q,
                    cands,
                    now,
                    n,
                    #[trigger] self.hybrid_kept(q, cands, now, n)[k],
                ),
        decreases n,
    {
        if n > 0 {
            self.lemma_hybrid_kept_complete(q, cands, now, n - 1);
            let before = self.hybrid_kept(q, cands, now, n - 1);
            let after = self.hybrid_kept(q, cands, now, n);
            let floor = Self::floor_of(&q.filters);
            assert forall|j: int|
                0 <= j < n && self.final_score(q, #[trigger] cands[j], now) >= floor implies exists|
                k: int,
            |
                0 <= k < after.len() && #[trigger] after[k] == self.hybrid_result(
                    q,
                    cands[j],
                    now,
                ) by {
                if j == n - 1 {
                    assert(after[after.len() - 1] == self.hybrid_result(q, cands[j], now));
                } else {
                    let k = choose|k: int|
                        0 <= k < before.len() && #[trigger] before[k] == self.hybrid_result(
                            q,
                            cands[j],
                            now,
                        );
                    assert(after[k] == before[k]);
                }
            }
            assert forall|k: int| 0 <= k < after.len() implies self.is_made_of(
                q,
                cands,
                now,
                n,
                #[trigger] after[k],
            ) by {
                if k < before.len() {
                    assert(after[k] == before[k]);
                    assert(self.is_made_of(q, cands, now, n - 1, before[k]));
                    let j = choose|j: int|
                        0 <= j < n - 1 && #[trigger] self.hybrid_result(q, cands[j], now)
                            == before[k];
                    assert(self.hybrid_result(q, cands[j], now) == after[k]);
                } else {
                    assert(self.hybrid_result(q, cands[n - 1], now) == after[k]);
                }
            }
        }
    }

    /// Where the limit cuts nothing off, a hybrid search returns every
    /// candidate whose final score reaches the floor, with that score.
    pub proof fn lemma_hybrid_search_complete(
        &self,
        q: &HybridSearchQuery,
        nearest: Seq<Memory>,
        distances: Seq<Score>,
        rows: Seq<Memory>,
        now: int,
        j: int,
    )
        requires
            self.hybrid_candidates(q, nearest, distances, rows, now).len() <= usize::MAX,
            0 <= j < self.hybrid_candidates(q, nearest, distances, rows, now).len(),
            self.final_score(q, self.hybrid_candidates(q, nearest, distances, rows, now)[j], now)
                >= Self::floor_of(&q.filters),
            self.hybrid_kept(
                q,
                self.hybrid_candidates(q, nearest, distances, rows, now),
                now,
                self.hybrid_candidates(q, nearest, distances, rows, now).len() as int,
            ).len() <= self.hybrid_limit_of(q),
        ensures
            exists|k: int|
                0 <= k < self.hybrid_results(q, nearest, distances, rows, now).len()
                    && #[trigger] self.hybrid_results(q, nearest, distances, rows, now)[k]
                    == self.hybrid_result(
                    q,
                    self.hybrid_candidates(q, nearest, distances, rows, now)[j],
                    now,
                ),
    {
        let cands = self.hybrid_candidates(q, nearest, distances, rows, now);
        let found = self.hybrid_kept(q, cands, now, cands.len() as int);
        let keys = self.hybrid_keys(q, cands, now, cands.len() as int);
        let wanted = self.hybrid_result(q, cands[j], now);
        self.lemma_hybrid_kept(q, cands, now, cands.len() as int);
        self.lemma_hybrid_kept_complete(q, cands, now, cands.len() as int);
        lemma_ranked(found, keys, true, self.hybrid_limit_of(q) as int);
        lemma_stable_order(keys, true);
        let order = stable_order(keys, true);
        let i = choose|i: int| 0 <= i < found.len() && #[trigger] found[i] == wanted;
        assert(stands_in(order, i));
        let a = choose|a: int| 0 <= a < order.len() && #[trigger] order[a] == i;
        let out = self.hybrid_results(q, nearest, distances, rows, now);
        assert(out[a] == found[order[a] as int]);
    }

    /// Of two results of a hybrid search, the one with the higher final
    /// score comes first.
    pub proof fn lemma_hybrid_higher_first(
        &self,
        q: &HybridSearchQuery,
        nearest: Seq<Memory>,
        distances: Seq<Score>,
        rows: Seq<Memory>,
        now: int,
        a: int,
        b: int,
    )
        requires
            self.hybrid_candidates(q, nearest, distances, rows, now).len() <= usize::MAX,
            0 <= a < self.hybrid_results(q, nearest, distances, rows, now).len(),
            0 <= b < self.hybrid_results(q, nearest, distances, rows, now).len(),
            self.hybrid_results(q, nearest, distances, rows, now)[a].relevance_score.micros
                > self.hybrid_results(q, nearest, distances, rows, now)[b].relevance_score.micros,
        ensures
            a < b,
    {
        self.lemma_hybrid_search(q, nearest, distances, rows, now);
    }

    /// A candidate whose final score reaches the floor and is higher than
    /// that of every other candidate is the first result of a hybrid
    /// search that may have a result.
    pub proof fn lemma_hybrid_best_first(
        &self,
        q: &HybridSearchQuery,
        nearest: Seq<Memory>,
        distances: Seq<Score>,
        rows: Seq<Memory>,
        now: int,
        j: int,
    )
        requires
            self.hybrid_candidates(q, nearest, distances, rows, now).len() <= usize::MAX,
            0 <= j < self.hybrid_candidates(q, nearest, distances, rows, now).len(),
            self.hybrid_limit_of(q) >= 1,
            self.final_score(q, self.hybrid_candidates(q, nearest, distances, rows, now)[j], now)
                >= Self::floor_of(&q.filters),
            forall|i: int|
                0 <= i < self.hybrid_candidates(q, nearest, distances, rows, now).len() && i != j
                    ==> self.final_score(
                    q,
                    #[trigger] self.hybrid_candidates(q, nearest, distances, rows, now)[i],
                    now,
                ) < self.final_score(
                    q,
                    self.hybrid_candidates(q, nearest, distances, rows, now)[j],
                    now,
                ),
        ensures
            self.hybrid_results(q, nearest, distances, rows, now).len() >= 1,
            self.hybrid_results(q, nearest, distances, rows, now)[0] == self.hybrid_result(
                q,
                self.hybrid_candidates(q, nearest, distances, rows, now)[j],
                now,
            ),
    {
        let cands = self.hybrid_candidates(q, nearest, distances, rows, now);
        let found = self.hybrid_kept(q, cands, now, cands.len() as int);
        let keys = self.hybrid_keys(q, cands, now, cands.len() as int);
        let wanted = self.hybrid_result(q, cands[j], now);
        self.lemma_hybrid_kept(q, cands, now, cands.len() as int);
        self.lemma_hybrid_kept_complete(q, cands, now, cands.len() as int);
        lemma_ranked(found, keys, true, self.hybrid_limit_of(q) as int);
        lemma_stable_order(keys, true);
        let order = stable_order(keys, true);
        let out = self.hybrid_results(q, nearest, distances, rows, now);
        let i = choose|i: int| 0 <= i < found.len() && #[trigger] found[i] == wanted;
        assert(stands_in(order, i));
        let a = choose|a: int| 0 <= a < order.len() && #[trigger] order[a] == i;
        assert(out[0] == found[order[0] as int]);
        let first = order[0] as int;
        assert(self.is_made_of(q, cands, now, cands.len() as int, found[first]));
        let from = choose|c: int|
            0 <= c < cands.len() && #[trigger] self.hybrid_result(q, cands[c], now) == found[first];
        if a > 0 {
            assert(!goes_before(keys[order[a] as int], keys[order[0] as int], true));
            assert(keys[i] == wanted.relevance_score.micros);
            assert(keys[first] == found[first].relevance_score.micros);
            assert(from == j);
        }
    }

    /// The results of a hybrid search reach the floor, are no more than the
    /// limit, and come from the highest final score down.
    pub proof fn lemma_hybrid_search(
        &self,
        q: &HybridSearchQuery,
        nearest: Seq<Memory>,
        distances: Seq<Score>,
        rows: Seq<Memory>,
        now: int,
    )
        requires
            self.hybrid_candidates(q, nearest, distances, rows, now).len() <= usize::MAX,
        ensures
            self.hybrid_results(q, nearest, distances, rows, now).len() <= self.hybrid_limit_of(q),
            forall|k: int|
                0 <= k < self.hybrid_results(q, nearest, distances, rows, now).len() ==> (
                #[trigger] self.hybrid_results(
                    q,
                    nearest,
                    distances,
                    rows,
                    now,
                )[k]).relevance_score.micros >= Self::floor_of(&q.filters),
            forall|a: int, b: int|
                0 <= a < b < self.hybrid_results(q, nearest, distances, rows, now).len() ==> (
                #[trigger] self.hybrid_results(
                    q,
                    nearest,
                    distances,
                    rows,
                    now,
                )[a]).relevance_score.micros >= (#[trigger] self.hybrid_results(
                    q,
                    nearest,
                    distances,
                    rows,
                    now,
                )[b]).relevance_score.micros,
    {
        let cands = self.hybrid_candidates(q, nearest, distances, rows, now);
        let found = self.hybrid_kept(q, cands, now, cands.len() as int);
        let keys = self.hybrid_keys(q, cands, now, cands.len() as int);
        self.lemma_hybrid_kept(q, cands, now, cands.len() as int);
        lemma_ranked(found, keys, true, self.hybrid_limit_of(q) as int);
        let out = self.hybrid_results(q, nearest, distances, rows, now);
        let order = stable_order(keys, true);
        assert forall|k: int| 0 <= k < out.len() implies (#[trigger] out[k]).relevance_score.micros
            >= Self::floor_of(&q.filters) by {
            assert(out[k] == found[order[k] as int]);
        }
        assert forall|a: int, b: int| 0 <= a < b < out.len() implies (#[trigger] out[a]).relevance_score.micros
            >= (#[trigger] out[b]).relevance_score.micros by {
            assert(out[a] == found[order[a] as int]);
            assert(out[b] == found[order[b] as int]);
            assert(!goes_before(keys[order[b] as int], keys[order[a] as int], true));
        }
    }

    /// With a text, the score of a row in a plain search is positive
    /// exactly where its similarity times its importance is at least one
    /// millionth.
    pub proof fn lemma_plain_score_positive(&self, m: MemoryView, distance: Score, now: int)
        requires
            similarity_of(distance) >= 0,
            self.importance_of(m, now) >= 0,
        ensures
            self.plain_score(true, m, distance, now) > 0 <==> similarity_of(distance)
                * self.importance_of(m, now) >= SCALE,
    {
        lemma_mul_micros_positive(similarity_of(distance), self.importance_of(m, now));
    }

    /// With weights and signals between zero and one, the final score of a
    /// candidate is the plain sum of its four weighted signals, and so at
    /// least each of them.
    pub proof fn lemma_final_score_is_sum(
        q: &HybridSearchQuery,
        c: CandidateView,
        recency: int,
        importance: int,
    )
        requires
            weight_in_range(q.vector_weight),
            weight_in_range(q.keyword_weight),
            weight_in_range(q.recency_weight),
            weight_in_range(q.importance_weight),
            0 <= c.vector_score.micros <= SCALE,
            0 <= c.keyword_score.micros <= SCALE,
            0 <= recency <= SCALE,
            0 <= importance <= SCALE,
        ensures
            Self::combined_score(q, c, recency, importance) == mul_micros(
                q.vector_weight.micros as int,
                c.vector_score.micros as int,
            ) + mul_micros(q.keyword_weight.micros as int, c.keyword_score.micros as int)
                + mul_micros(q.recency_weight.micros as int, recency) + mul_micros(
                q.importance_weight.micros as int,
                importance,
            ),
            Self::combined_score(q, c, recency, importance) >= mul_micros(
                q.vector_weight.micros as int,
                c.vector_score.micros as int,
            ) >= 0,
            Self::combined_score(q, c, recency, importance) >= mul_micros(
                q.keyword_weight.micros as int,
                c.keyword_score.micros as int,
            ) >= 0,
    {
        lemma_mul_micros_unit(q.vector_weight.micros as int, c.vector_score.micros as int);
        lemma_mul_micros_unit(q.keyword_weight.micros as int, c.keyword_score.micros as int);
        lemma_mul_micros_unit(q.recency_weight.micros as int, recency);
        lemma_mul_micros_unit(q.importance_weight.micros as int, importance);
    }

    /// Of two candidates with the same vector score whose weighted recency
    /// and importance are the same, the one with the higher weighted
    /// keyword score has the higher final score; weights and signals lie
    /// between zero and one.
    pub proof fn lemma_keyword_decides(
        q: &HybridSearchQuery,
        a: CandidateView,
        b: CandidateView,
        recency_a: int,
        importance_a: int,
        recency_b: int,
        importance_b: int,
    )
        requires
            weight_in_range(q.vector_weight),
            weight_in_range(q.keyword_weight),
            weight_in_range(q.recency_weight),
            weight_in_range(q.importance_weight),
            0 <= a.vector_score.micros <= SCALE,
            a.vector_score == b.vector_score,
            0 <= a.keyword_score.micros <= SCALE,
            0 <= b.keyword_score.micros <= SCALE,
            0 <= recency_a <= SCALE,
            0 <= recency_b <= SCALE,
            0 <= importance_a <= SCALE,
            0 <= importance_b <= SCALE,
            mul_micros(q.recency_weight.micros as int, recency_a) == mul_micros(
                q.recency_weight.micros as int,
                recency_b,
            ),
            mul_micros(q.importance_weight.micros as int, importance_a) == mul_micros(
                q.importance_weight.micros as int,
                importance_b,
            ),
            mul_micros(q.keyword_weight.micros as int, a.keyword_score.micros as int) > mul_micros(
                q.keyword_weight.micros as int,
                b.keyword_score.micros as int,
            ),
        ensures
            Self::combined_score(q, a, recency_a, importance_a) > Self::combined_score(
                q,
                b,
                recency_b,
                importance_b,
            ),
    {
        Self::lemma_final_score_is_sum(q, a, recency_a, importance_a);
        Self::lemma_final_score_is_sum(q, b, recency_b, importance_b);
    }

    /// What cleanup removes: a memory that was written to a row is chosen
    /// exactly if it was made before the cutoff and its stored importance
    /// is below the threshold; provided that the RFC 3339 texts of its
    /// making and of the cutoff stand in the order of the two instants.
    pub proof fn lemma_cleanup_choice(&self, now: Timestamp, p: RowPredicate, m: MemoryView)
        requires
            self.is_cleanup_choice(now, Ok(Some(p))),
            writable(m),
            self.cleanup_cutoff(now) is Some,
            text_before(
                rfc3339_text(m.created_at.millis as int)->0,
                rfc3339_text(self.cleanup_cutoff(now)->0)->0,
            ) <==> m.created_at.millis < self.cleanup_cutoff(now)->0,
        ensures
            p.chooses_memory(row_of(m)) <==> m.created_at.millis < self.cleanup_cutoff(now)->0
                && row_of(m).importance.micros < self.config.cleanup_min_importance.micros,
    {
    }
}

} // verus!
