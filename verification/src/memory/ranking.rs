//! Ranking by similarity of meaning, with filters, decay and order.

use vstd::prelude::*;
use crate::clock::{whole_days, Timestamp};
use crate::expmath::{exp_down, exp_down_micros};
use crate::fixed::{mul_micros, narrow, saturate, two_decimals_text, Score, SCALE};
use crate::memory::filters::passes_filters;
use crate::memory::store::MemoryStore;
use crate::memory::types::{
    Memory, MemoryQuery, MemorySearchResult, MemorySortBy, MemoryView, SearchResultView, SortOrder,
};
use crate::order::{is_arrangement, sort_order, stable_order};
use crate::text::{join, joined, push_text, string_of, views};

verus! {

/// The exponent of the recency score: `days / decay_days`, in millionths.
pub open spec fn recency_exponent(days: int, decay_days: int) -> int {
    saturate(days * SCALE / decay_days)
}

/// The recency score of a memory made at `created`, read at `now`:
/// `exp(-days / decay_days)` over the whole days since it was made; one
/// for a memory made today or in the future; zero for an older memory
/// where `decay_days` is zero.
pub open spec fn recency_at(created: int, now: int, decay_days: int) -> int {
    let days = whole_days(created, now);
    if days <= 0 {
        SCALE as int
    } else if decay_days <= 0 {
        0
    } else {
        exp_down(recency_exponent(days, decay_days) as nat) as int
    }
}

/// The recency score lies in `[0, 1]`.
pub proof fn lemma_recency_unit(created: int, now: int, decay_days: int)
    ensures
        0 <= recency_at(created, now, decay_days) <= SCALE,
{
    let days = whole_days(created, now);
    if days > 0 && decay_days > 0 {
        vstd::arithmetic::div_mod::lemma_div_pos_is_pos(days * SCALE, decay_days);
        let x = recency_exponent(days, decay_days) as nat;
        crate::expmath::lemma_exp_down_antitone(x, x);
    }
}

/// A memory made at the instant of reading has the recency score one.
pub proof fn lemma_recency_of_now(now: int, decay_days: int)
    ensures
        recency_at(now, now, decay_days) == SCALE,
{
}

/// A memory as many whole days old as the decay period has the recency
/// score `1/e`, between `0.36` and `0.38`.
pub proof fn lemma_recency_after_one_period(created: int, now: int, decay_days: int)
    requires
        decay_days > 0,
        whole_days(created, now) == decay_days,
    ensures
        recency_at(created, now, decay_days) == 367_879,
        360_000 <= recency_at(created, now, decay_days) <= 380_000,
{
    vstd::arithmetic::div_mod::lemma_div_by_multiple(SCALE as int, decay_days);
    assert(decay_days * SCALE == SCALE * decay_days) by (nonlinear_arith);
    crate::expmath::lemma_exp_down_at_one();
}

/// A memory twice as many whole days old as the decay period has the
/// recency score `1/e^2`, between `0.13` and `0.14`.
pub proof fn lemma_recency_after_two_periods(created: int, now: int, decay_days: int)
    requires
        decay_days > 0,
        whole_days(created, now) == 2 * decay_days,
    ensures
        recency_at(created, now, decay_days) == 135_335,
        130_000 <= recency_at(created, now, decay_days) <= 140_000,
{
    vstd::arithmetic::div_mod::lemma_div_by_multiple(2 * SCALE, decay_days);
    assert((2 * decay_days) * SCALE == (2 * SCALE) * decay_days) by (nonlinear_arith);
    crate::expmath::lemma_exp_down_at_two();
}

/// An older memory never has the higher recency score.
pub proof fn lemma_recency_fades(created: int, now1: int, now2: int, decay_days: int)
    requires
        now1 <= now2,
    ensures
        recency_at(created, now2, decay_days) <= recency_at(created, now1, decay_days),
{
    crate::fixed::lemma_trunc_div_monotone(
        now1 - created,
        now2 - created,
        crate::clock::MILLIS_PER_DAY as int,
    );
    let d1 = whole_days(created, now1);
    let d2 = whole_days(created, now2);
    lemma_recency_unit(created, now2, decay_days);
    if d1 > 0 && decay_days > 0 {
        assert(d1 * SCALE <= d2 * SCALE);
        vstd::arithmetic::div_mod::lemma_div_is_ordered(d1 * SCALE, d2 * SCALE, decay_days);
        vstd::arithmetic::div_mod::lemma_div_pos_is_pos(d1 * SCALE, decay_days);
        crate::expmath::lemma_exp_down_antitone(
            recency_exponent(d1, decay_days) as nat,
            recency_exponent(d2, decay_days) as nat,
        );
    }
}

/// The parts of the reason for which a plain search chose a memory.
pub open spec fn reason_parts(q: &MemoryQuery, with_text: bool, score: Score) -> Seq<Seq<char>> {
    let a: Seq<Seq<char>> = if with_text {
        seq!["Semantic similarity: "@ + two_decimals_text(score.micros as int)]
    } else {
        Seq::empty()
    };
    let b = if q.memory_types is Some {
        a.push("Matches memory type filter"@)
    } else {
        a
    };
    let c = if q.tags is Some {
        b.push("Contains matching tags"@)
    } else {
        b
    };
    let d = if q.related_files is Some {
        c.push("Related to specified files"@)
    } else {
        c
    };
    if q.git_commit is Some {
        d.push("Matches Git commit filter"@)
    } else {
        d
    }
}

/// The reason for which a plain search chose a memory: its parts joined
/// by commas, or a general phrase where there are none.
pub open spec fn selection_reason(q: &MemoryQuery, with_text: bool, score: Score) -> Seq<char> {
    if reason_parts(q, with_text, score).len() == 0 {
        "Matches search criteria"@
    } else {
        joined(reason_parts(q, with_text, score), ", "@)
    }
}

/// The similarity that a cosine distance stands for: one minus the
/// distance.
pub open spec fn similarity_of(distance: Score) -> int {
    saturate(SCALE - distance.micros)
}

/// The items of `found` in the stable order of `keys`, cut to `limit`.
pub open spec fn ranked<T>(found: Seq<T>, keys: Seq<i64>, descending: bool, limit: int) -> Seq<T> {
    Seq::new(
        (if limit < found.len() {
            if limit < 0 {
                0
            } else {
                limit
            }
        } else {
            found.len() as int
        }) as nat,
        |k: int| found[stable_order(keys, descending)[k] as int],
    )
}

/// The views of a list of results.
pub open spec fn result_views(v: Seq<MemorySearchResult>) -> Seq<SearchResultView> {
    Seq::new(v.len(), |i: int| v[i]@)
}

/// The results at the positions `order[0]`, `order[1]`, ... up to `limit`
/// of them.
pub(crate) fn pick_results(found: &Vec<MemorySearchResult>, order: &Vec<usize>, limit: usize) -> (out:
    Vec<MemorySearchResult>)
    requires
        is_arrangement(order@, found@.len()),
    ensures
        out@.len() == if limit < found@.len() {
            limit as int
        } else {
            found@.len() as int
        },
        forall|k: int| 0 <= k < out@.len() ==> (#[trigger] out@[k])@ == found@[order@[k] as int]@,
{
    let mut out: Vec<MemorySearchResult> = Vec::new();
    let mut k: usize = 0;
    while k < order.len() && k < limit
        invariant
            k <= order.len(),
            k <= limit,
            is_arrangement(order@, found@.len()),
            out@.len() == k,
            forall|j: int| 0 <= j < k ==> (#[trigger] out@[j])@ == found@[order@[j] as int]@,
        decreases order.len() - k,
    {
        out.push(found[order[k]].clone());
        k += 1;
    }
    out
}

impl MemoryStore {
    /// How many results a query may have: what it asks for, but never
    /// more than the store allows.
    pub open spec fn limit_of(&self, q: &MemoryQuery) -> usize {
        match q.limit {
            Some(n) => if n < self.config.max_search_results {
                n
            } else {
                self.config.max_search_results
            },
            None => self.config.max_search_results,
        }
    }

    /// How many results a query may have.
    pub fn result_limit(&self, query: &MemoryQuery) -> (n: usize)
        ensures
            n == self.limit_of(query),
    {
        match query.limit {
            Some(n) => if n < self.config.max_search_results {
                n
            } else {
                self.config.max_search_results
            },
            None => self.config.max_search_results,
        }
    }

    /// How many nearest rows are asked of the table for a query with a
    /// text: twice the limit, so that the filters may reject some.
    pub fn candidate_count(&self, query: &MemoryQuery) -> (n: usize)
        ensures
            n == if 2 * self.limit_of(query) <= usize::MAX {
                2 * self.limit_of(query)
            } else {
                usize::MAX as int
            },
    {
        let limit = self.result_limit(query);
        if limit <= usize::MAX / 2 {
            limit * 2
        } else {
            usize::MAX
        }
    }

    /// The lowest relevance that a result of the query may have.
    pub open spec fn floor_of(q: &MemoryQuery) -> int {
        match q.min_relevance {
            Some(s) => s.micros as int,
            None => 0,
        }
    }

    /// The importance of a memory as used in ranking, at the instant `now`.
    pub open spec fn importance_of(&self, m: MemoryView, now: int) -> int {
        if self.config.decay_enabled {
            m.metadata.decay.importance_at(now, self.config.min_importance_threshold.micros as int)
        } else {
            m.metadata.importance.micros as int
        }
    }

    /// The score of a row in a plain search: with a text, the similarity
    /// times the importance; without, the importance.
    pub open spec fn plain_score(&self, with_text: bool, m: MemoryView, distance: Score, now: int)
        -> int {
        if with_text {
            mul_micros(similarity_of(distance), self.importance_of(m, now))
        } else {
            self.importance_of(m, now)
        }
    }

    /// How many of the rows a plain search looks at: with a text, as many
    /// as have a distance; without, all.
    pub open spec fn rows_considered(with_text: bool, rows: int, distances: int) -> int {
        if with_text && distances < rows {
            distances
        } else {
            rows
        }
    }

    /// Whether a plain search keeps the row: it passes the filters and its
    /// score reaches the floor.
    pub open spec fn keeps_row(
        &self,
        q: &MemoryQuery,
        with_text: bool,
        m: MemoryView,
        distance: Score,
        now: int,
    ) -> bool {
        passes_filters(m, q) && self.plain_score(with_text, m, distance, now) >= Self::floor_of(q)
    }

    /// The result that a plain search makes of a row.
    pub open spec fn plain_result(
        &self,
        q: &MemoryQuery,
        with_text: bool,
        m: MemoryView,
        distance: Score,
        now: int,
    ) -> SearchResultView {
        let score = Score { micros: self.plain_score(with_text, m, distance, now) as i64 };
        SearchResultView {
            memory: m,
            relevance_score: score,
            selection_reason: selection_reason(q, with_text, score),
        }
    }

    /// The key by which a plain search orders a result: its date or its
    /// importance where the query says so, else its score.
    pub open spec fn sort_key(
        &self,
        q: &MemoryQuery,
        with_text: bool,
        m: MemoryView,
        distance: Score,
        now: int,
    ) -> i64 {
        match q.sort_by {
            Some(MemorySortBy::CreatedAt) => m.created_at.millis,
            Some(MemorySortBy::Importance) => self.importance_of(m, now) as i64,
            None => self.plain_score(with_text, m, distance, now) as i64,
        }
    }

    /// Whether a plain search orders from high to low: always by score,
    /// and by date or importance unless the query asks for ascending.
    pub open spec fn sorts_descending(q: &MemoryQuery) -> bool {
        match q.sort_by {
            Some(_) => q.sort_order != Some(SortOrder::Ascending),
            None => true,
        }
    }

    /// The distance that belongs to row `i`; zero where there is none.
    pub open spec fn distance_at(distances: Seq<Score>, i: int) -> Score {
        if 0 <= i < distances.len() {
            distances[i]
        } else {
            Score { micros: 0 }
        }
    }

    /// The results of the first `n` rows that a plain search keeps, in the
    /// order of the rows.
    pub open spec fn kept_results(
        &self,
        q: &MemoryQuery,
        with_text: bool,
        rows: Seq<Memory>,
        distances: Seq<Score>,
        now: int,
        n: int,
    ) -> Seq<SearchResultView>
        decreases n,
    {
        if n <= 0 {
            Seq::empty()
        } else {
            let before = self.kept_results(q, with_text, rows, distances, now, n - 1);
            let m = rows[n - 1]@;
            let d = Self::distance_at(distances, n - 1);
            if self.keeps_row(q, with_text, m, d, now) {
                before.push(self.plain_result(q, with_text, m, d, now))
            } else {
                before
            }
        }
    }

    /// The sort keys of the first `n` rows that a plain search keeps.
    pub open spec fn kept_keys(
        &self,
        q: &MemoryQuery,
        with_text: bool,
        rows: Seq<Memory>,
        distances: Seq<Score>,
        now: int,
        n: int,
    ) -> Seq<i64>
        decreases n,
    {
        if n <= 0 {
            Seq::empty()
        } else {
            let before = self.kept_keys(q, with_text, rows, distances, now, n - 1);
            let m = rows[n - 1]@;
            let d = Self::distance_at(distances, n - 1);
            if self.keeps_row(q, with_text, m, d, now) {
                before.push(self.sort_key(q, with_text, m, d, now))
            } else {
                before
            }
        }
    }

    /// What a plain search makes of the rows that the table gave, under
    /// the filters of `q`, with or without a text, for up to `limit`
    /// results: the kept rows in the order the query asks for, cut to the
    /// limit.
    pub open spec fn plain_search_with(
        &self,
        q: &MemoryQuery,
        with_text: bool,
        limit: int,
        rows: Seq<Memory>,
        distances: Seq<Score>,
        now: int,
    ) -> Seq<SearchResultView> {
        let n = Self::rows_considered(with_text, rows.len() as int, distances.len() as int);
        ranked(
            self.kept_results(q, with_text, rows, distances, now, n),
            self.kept_keys(q, with_text, rows, distances, now, n),
            Self::sorts_descending(q),
            limit,
        )
    }

    /// What a plain search returns for the query `q`.
    pub open spec fn plain_search(
        &self,
        q: &MemoryQuery,
        rows: Seq<Memory>,
        distances: Seq<Score>,
        now: int,
    ) -> Seq<SearchResultView> {
        self.plain_search_with(
            q,
            q.query_text is Some,
            self.limit_of(q) as int,
            rows,
            distances,
            now,
        )
    }

    /// The reason for which a plain search chose a memory.
    pub fn generate_selection_reason(&self, query: &MemoryQuery, relevance_score: Score) -> (r:
        String)
        ensures
            r@ == selection_reason(query, query.query_text is Some, relevance_score),
    {
        self.reason_for(query, query.query_text.is_some(), relevance_score)
    }

    /// The reason for which a plain search, with or without a text, chose
    /// a memory.
    pub fn reason_for(&self, query: &MemoryQuery, with_text: bool, relevance_score: Score) -> (r:
        String)
        ensures
            r@ == selection_reason(query, with_text, relevance_score),
    {
        let mut reasons: Vec<String> = Vec::new();
        assert(views(reasons@) =~= Seq::empty());
        if with_text {
            let mut text: Vec<char> = Vec::new();
            push_text(&mut text, "Semantic similarity: ");
            let number = relevance_score.to_two_decimals();
            push_text(&mut text, number.as_str());
            let ghost prev = views(reasons@);
            reasons.push(string_of(&text));
            assert(views(reasons@) =~= prev.push(text@));
        }
        if query.memory_types.is_some() {
            let ghost prev = views(reasons@);
            reasons.push("Matches memory type filter".to_owned());
            assert(views(reasons@) =~= prev.push("Matches memory type filter"@));
        }
        if query.tags.is_some() {
            let ghost prev = views(reasons@);
            reasons.push("Contains matching tags".to_owned());
            assert(views(reasons@) =~= prev.push("Contains matching tags"@));
        }
        if query.related_files.is_some() {
            let ghost prev = views(reasons@);
            reasons.push("Related to specified files".to_owned());
            assert(views(reasons@) =~= prev.push("Related to specified files"@));
        }
        if query.git_commit.is_some() {
            let ghost prev = views(reasons@);
            reasons.push("Matches Git commit filter".to_owned());
            assert(views(reasons@) =~= prev.push("Matches Git commit filter"@));
        }
        if reasons.len() == 0 {
            "Matches search criteria".to_owned()
        } else {
            join(&reasons, ", ")
        }
    }

    /// The recency score of a memory as the clock stands, in `[0, 1]`.
    pub fn calculate_recency_score(memory: &Memory, recency_decay_days: u32) -> (r: Score)
        ensures
            0 <= r.micros <= SCALE,
            exists|now: int|
                r.micros == recency_at(
                    memory.created_at.millis as int,
                    now,
                    recency_decay_days as int,
                ),
    {
        let now = Timestamp::now();
        let r = MemoryStore::calculate_recency_score_at(memory, recency_decay_days, now);
        assert(r.micros == recency_at(
            memory.created_at.millis as int,
            now.millis as int,
            recency_decay_days as int,
        ));
        r
    }

    /// The recency score of a memory at the instant `now`.
    pub fn calculate_recency_score_at(memory: &Memory, recency_decay_days: u32, now: Timestamp)
        -> (r: Score)
        ensures
            r.micros == recency_at(
                memory.created_at.millis as int,
                now.millis as int,
                recency_decay_days as int,
            ),
            0 <= r.micros <= SCALE,
    {
        proof {
            lemma_recency_unit(
                memory.created_at.millis as int,
                now.millis as int,
                recency_decay_days as int,
            );
        }
        let days: i64 = memory.created_at.days_until(now);
        if days <= 0 {
            return Score::one();
        }
        if recency_decay_days == 0 {
            return Score::zero();
        }
        let scaled: i128 = (days as i128) * 1_000_000i128;
        let exponent: i64 = narrow(scaled / (recency_decay_days as i128));
        proof {
            vstd::arithmetic::div_mod::lemma_div_pos_is_pos(
                days * SCALE,
                recency_decay_days as int,
            );
        }
        Score { micros: exp_down_micros(exponent as u64) as i64 }
    }

    /// A plain search as the clock stands. `rows` are the rows that the
    /// table gave: for a query with a text its nearest rows, each with its
    /// cosine distance at the same place of `distances`; for a query
    /// without, all rows.
    pub fn vector_search(&self, query: &MemoryQuery, rows: &Vec<Memory>, distances: &Vec<Score>)
        -> (out: Vec<MemorySearchResult>)
        ensures
            out@.len() <= self.limit_of(query),
            exists|now: int| result_views(out@) == self.plain_search(query, rows@, distances@, now),
    {
        let now = Timestamp::now();
        let out = self.vector_search_at(query, rows, distances, now);
        assert(result_views(out@) == self.plain_search(
            query,
            rows@,
            distances@,
            now.millis as int,
        ));
        out
    }

    /// A plain search at the instant `now`.
    pub fn vector_search_at(
        &self,
        query: &MemoryQuery,
        rows: &Vec<Memory>,
        distances: &Vec<Score>,
        now: Timestamp,
    ) -> (out: Vec<MemorySearchResult>)
        ensures
            result_views(out@) == self.plain_search(query, rows@, distances@, now.millis as int),
            out@.len() <= self.limit_of(query),
    {
        let limit = self.result_limit(query);
        self.search_rows(query, query.query_text.is_some(), limit, rows, distances, now)
    }

    /// A plain search under the filters of `query`, with or without a
    /// text, for up to `limit` results, at the instant `now`.
    pub fn search_rows(
        &self,
        query: &MemoryQuery,
        with_text: bool,
        limit: usize,
        rows: &Vec<Memory>,
        distances: &Vec<Score>,
        now: Timestamp,
    ) -> (out: Vec<MemorySearchResult>)
        ensures
            result_views(out@) == self.plain_search_with(
                query,
                with_text,
                limit as int,
                rows@,
                distances@,
                now.millis as int,
            ),
            out@.len() <= limit,
    {
        let floor: i64 = match query.min_relevance {
            Some(s) => s.micros,
            None => 0,
        };
        let n: usize = if with_text && distances.len() < rows.len() {
            distances.len()
        } else {
            rows.len()
        };
        let descending: bool = match query.sort_by {
            Some(_) => match query.sort_order {
                Some(SortOrder::Ascending) => false,
                _ => true,
            },
            None => true,
        };
        let mut found: Vec<MemorySearchResult> = Vec::new();
        let mut keys: Vec<i64> = Vec::new();
        let mut i: usize = 0;
        assert(result_views(found@) =~= Seq::empty());
        while i < n
            invariant
                i <= n <= rows.len(),
                n == Self::rows_considered(with_text, rows@.len() as int, distances@.len() as int),
                floor == Self::floor_of(query),
                result_views(found@) == self.kept_results(
                    query,
                    with_text,
                    rows@,
                    distances@,
                    now.millis as int,
                    i as int,
                ),
                keys@ == self.kept_keys(
                    query,
                    with_text,
                    rows@,
                    distances@,
                    now.millis as int,
                    i as int,
                ),
                found@.len() == keys@.len(),
            decreases n - i,
        {
            let memory = &rows[i];
            let distance = if i < distances.len() {
                distances[i]
            } else {
                Score::zero()
            };
            let importance = memory.get_current_importance_at(
                self.config.decay_enabled,
                self.config.min_importance_threshold,
                now,
            );
            let score = if with_text {
                Score::one().minus(distance).times(importance)
            } else {
                importance
            };
            if self.matches_filters(memory, query) && score.micros >= floor {
                let key: i64 = match query.sort_by {
                    Some(MemorySortBy::CreatedAt) => memory.created_at.millis,
                    Some(MemorySortBy::Importance) => importance.micros,
                    None => score.micros,
                };
                let reason = self.reason_for(query, with_text, score);
                let ghost prev = result_views(found@);
                found.push(
                    MemorySearchResult {
                        memory: memory.clone(),
                        relevance_score: score,
                        selection_reason: reason,
                    },
                );
                keys.push(key);
                assert(result_views(found@) =~= prev.push(
                    self.plain_result(query, with_text, memory@, distance, now.millis as int),
                ));
            }
            i += 1;
        }
        let order = sort_order(&keys, descending);
        let out = pick_results(&found, &order, limit);
        assert(result_views(out@) =~= ranked(
            result_views(found@),
            keys@,
            descending,
            limit as int,
        ));
        out
    }
}

} // verus!
