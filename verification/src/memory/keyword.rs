//! Keyword matching: tokens, term frequency and field scores.

use vstd::prelude::*;
use crate::fixed::{mul_micros, saturate, Score, SCALE};
use crate::memory::store::MemoryStore;
use crate::memory::types::MemoryView;
use crate::text::{
    chars_of, is_alphanumeric, joined, same_text, string_of, to_lowercase, unicode_alphanumeric,
    unicode_lowercase, views,
};

verus! {

/// The weight of a keyword found in the title.
pub const TITLE_WEIGHT: i64 = 3_000_000;

/// The weight of a keyword found in the content.
pub const CONTENT_WEIGHT: i64 = 1_000_000;

/// The weight of a keyword found in the tags.
pub const TAGS_WEIGHT: i64 = 2_000_000;

/// Whether `c` belongs to a token: a letter, a number or an underscore.
pub open spec fn is_token_char(c: char) -> bool {
    unicode_alphanumeric(c) || c == '_'
}

/// What reading `s` from the left leaves: the tokens that have ended, and
/// the token that the last character is still part of.
pub open spec fn scanned(s: Seq<char>) -> (Seq<Seq<char>>, Seq<char>)
    decreases s.len(),
{
    if s.len() == 0 {
        (Seq::empty(), Seq::empty())
    } else {
        let (done, open) = scanned(s.drop_last());
        if is_token_char(s.last()) {
            (done, open.push(s.last()))
        } else if open.len() > 0 {
            (done.push(open), Seq::empty())
        } else {
            (done, open)
        }
    }
}

/// The tokens of `s`: its longest runs of token characters, in order.
pub open spec fn tokens_of(s: Seq<char>) -> Seq<Seq<char>> {
    let (done, open) = scanned(s);
    if open.len() > 0 {
        done.push(open)
    } else {
        done
    }
}

/// How many of `tokens` are `k`.
pub open spec fn count_of(tokens: Seq<Seq<char>>, k: Seq<char>) -> nat
    decreases tokens.len(),
{
    if tokens.len() == 0 {
        0
    } else {
        count_of(tokens.drop_last(), k) + if tokens.last() == k {
            1nat
        } else {
            0nat
        }
    }
}

/// The share of `tokens` that are `k`, in millionths, rounded down; zero
/// where there are no tokens.
pub open spec fn term_frequency(tokens: Seq<Seq<char>>, k: Seq<char>) -> int {
    if tokens.len() == 0 {
        0
    } else {
        (count_of(tokens, k) * SCALE) / (tokens.len() as int)
    }
}

/// The sum over the keywords of the term frequency of each, in lower
/// case, times the weight of the field.
pub open spec fn weighted_frequencies(keywords: Seq<String>, tokens: Seq<Seq<char>>, weight: int) -> int
    decreases keywords.len(),
{
    if keywords.len() == 0 {
        0
    } else {
        saturate(
            weighted_frequencies(keywords.drop_last(), tokens, weight) + mul_micros(
                term_frequency(tokens, unicode_lowercase(keywords.last()@)),
                weight,
            ),
        )
    }
}

/// The score of one field for the keywords: zero without keywords or
/// without text, else the weighted sum of the term frequencies.
pub open spec fn field_score(keywords: Seq<String>, text: Seq<char>, weight: int) -> int {
    if keywords.len() == 0 || text.len() == 0 {
        0
    } else {
        weighted_frequencies(keywords, tokens_of(unicode_lowercase(text)), weight)
    }
}

/// The keyword score of a memory: title, content and tags, the tags joined
/// by spaces, at the weights three, one and two.
pub open spec fn keyword_score(m: MemoryView, keywords: Seq<String>) -> int {
    saturate(
        saturate(
            field_score(keywords, m.title, TITLE_WEIGHT as int) + field_score(
                keywords,
                m.content,
                CONTENT_WEIGHT as int,
            ),
        ) + field_score(keywords, joined(m.metadata.tags, seq![' ']), TAGS_WEIGHT as int),
    )
}

/// Whether every character of `t` is a token character.
pub open spec fn all_token_chars(t: Seq<char>) -> bool {
    forall|j: int| 0 <= j < t.len() ==> is_token_char(#[trigger] t[j])
}

/// No token is empty, and every character of a token is a token character.
pub proof fn lemma_tokens_clean(s: Seq<char>)
    ensures
        forall|i: int|
            0 <= i < tokens_of(s).len() ==> (#[trigger] tokens_of(s)[i]).len() > 0
                && all_token_chars(tokens_of(s)[i]),
{
    lemma_scanned_clean(s);
}

proof fn lemma_scanned_clean(s: Seq<char>)
    ensures
        forall|i: int|
            0 <= i < scanned(s).0.len() ==> (#[trigger] scanned(s).0[i]).len() > 0
                && all_token_chars(scanned(s).0[i]),
        all_token_chars(scanned(s).1),
    decreases s.len(),
{
    if s.len() > 0 {
        let rest = s.drop_last();
        lemma_scanned_clean(rest);
        let (done, open) = scanned(rest);
        if is_token_char(s.last()) {
            let grown = open.push(s.last());
            assert forall|j: int| 0 <= j < grown.len() implies is_token_char(
                #[trigger] grown[j],
            ) by {
                if j < open.len() {
                    assert(grown[j] == open[j]);
                }
            }
        } else if open.len() > 0 {
            let more = done.push(open);
            assert forall|i: int| 0 <= i < more.len() implies (#[trigger] more[i]).len() > 0
                && all_token_chars(more[i]) by {
                if i < done.len() {
                    assert(more[i] == done[i]);
                }
            }
        }
    }
}

/// A text without token characters has no tokens.
pub proof fn lemma_no_token_chars(s: Seq<char>)
    requires
        forall|i: int| 0 <= i < s.len() ==> !is_token_char(#[trigger] s[i]),
    ensures
        tokens_of(s).len() == 0,
        scanned(s).1.len() == 0,
    decreases s.len(),
{
    if s.len() > 0 {
        let t = s.drop_last();
        assert forall|i: int| 0 <= i < t.len() implies !is_token_char(#[trigger] t[i]) by {
            assert(t[i] == s[i]);
        }
        lemma_no_token_chars(t);
    }
}

/// A token is counted at most once for each token there is.
pub proof fn lemma_count_bound(tokens: Seq<Seq<char>>, k: Seq<char>)
    ensures
        count_of(tokens, k) <= tokens.len(),
    decreases tokens.len(),
{
    if tokens.len() > 0 {
        lemma_count_bound(tokens.drop_last(), k);
    }
}

/// A term frequency lies in `[0, 1]`.
pub proof fn lemma_term_frequency_unit(tokens: Seq<Seq<char>>, k: Seq<char>)
    ensures
        0 <= term_frequency(tokens, k) <= SCALE,
{
    if tokens.len() > 0 {
        lemma_count_bound(tokens, k);
        let c = count_of(tokens, k) as int;
        let n = tokens.len() as int;
        assert(0 <= c * SCALE <= n * SCALE) by (nonlinear_arith)
            requires
                0 <= c <= n,
        ;
        vstd::arithmetic::div_mod::lemma_div_pos_is_pos(c * SCALE, n);
        vstd::arithmetic::div_mod::lemma_div_is_ordered(c * SCALE, n * SCALE, n);
        assert(n * SCALE == SCALE * n) by (nonlinear_arith);
        vstd::arithmetic::div_mod::lemma_div_by_multiple(SCALE as int, n);
    }
}

/// With a whole number as the weight of a field, the weighted sum of the
/// term frequencies is that number times the sum at the weight one.
pub proof fn lemma_weighted_frequencies_scale(keywords: Seq<String>, tokens: Seq<Seq<char>>, k: int)
    requires
        0 <= k <= 1000,
        keywords.len() <= 1_000_000,
    ensures
        0 <= weighted_frequencies(keywords, tokens, SCALE as int) <= keywords.len() * SCALE,
        weighted_frequencies(keywords, tokens, k * SCALE) == k * weighted_frequencies(
            keywords,
            tokens,
            SCALE as int,
        ),
    decreases keywords.len(),
{
    if keywords.len() > 0 {
        let rest = keywords.drop_last();
        lemma_weighted_frequencies_scale(rest, tokens, k);
        let tf = term_frequency(tokens, unicode_lowercase(keywords.last()@));
        lemma_term_frequency_unit(tokens, unicode_lowercase(keywords.last()@));
        assert(tf * (k * SCALE) == (tf * k) * SCALE) by (nonlinear_arith);
        assert(0 <= tf * k <= 1000 * SCALE) by (nonlinear_arith)
            requires
                0 <= tf <= SCALE,
                0 <= k <= 1000,
        ;
        vstd::arithmetic::div_mod::lemma_div_by_multiple(tf * k, SCALE as int);
        vstd::arithmetic::div_mod::lemma_div_by_multiple(tf, SCALE as int);
        assert(tf * SCALE == tf * (SCALE as int));
        let before = weighted_frequencies(rest, tokens, SCALE as int);
        assert(k * (before + tf) == k * before + tf * k) by (nonlinear_arith);
        assert(0 <= k * before <= 1000 * (rest.len() * SCALE)) by (nonlinear_arith)
            requires
                0 <= k <= 1000,
                0 <= before <= rest.len() * SCALE,
        ;
    }
}

/// The score of a field at a whole weight is that weight times its score
/// at the weight one: a keyword found in the title counts three times, one
/// found in the tags twice as much as one found in the content.
pub proof fn lemma_field_score_scales(keywords: Seq<String>, text: Seq<char>, k: int)
    requires
        0 <= k <= 1000,
        keywords.len() <= 1_000_000,
    ensures
        field_score(keywords, text, k * SCALE) == k * field_score(keywords, text, SCALE as int),
{
    if keywords.len() > 0 && text.len() > 0 {
        lemma_weighted_frequencies_scale(keywords, tokens_of(unicode_lowercase(text)), k);
    }
}

/// The tokens of a text that is already in lower case.
pub fn tokenize_lowered(lower: &str) -> (tokens: Vec<String>)
    ensures
        views(tokens@) == tokens_of(lower@),
{
    let text = chars_of(lower);
    let mut tokens: Vec<String> = Vec::new();
    let mut open: Vec<char> = Vec::new();
    let mut i: usize = 0;
    while i < text.len()
        invariant
            i <= text.len(),
            text@ == lower@,
            views(tokens@) == scanned(text@.take(i as int)).0,
            open@ == scanned(text@.take(i as int)).1,
        decreases text.len() - i,
    {
        let c = text[i];
        let ghost before = views(tokens@);
        proof {
            assert(text@.take(i + 1).drop_last() =~= text@.take(i as int));
            assert(text@.take(i + 1).last() == c);
        }
        if is_alphanumeric(c) || c == '_' {
            open.push(c);
        } else if open.len() > 0 {
            tokens.push(string_of(&open));
            assert(views(tokens@) =~= before.push(open@));
            open = Vec::new();
        }
        i += 1;
    }
    assert(text@.take(text.len() as int) =~= text@);
    if open.len() > 0 {
        let ghost before = views(tokens@);
        tokens.push(string_of(&open));
        assert(views(tokens@) =~= before.push(open@));
    }
    tokens
}

/// How many of `tokens` read as `k`.
pub fn count_tokens(tokens: &Vec<String>, k: &str) -> (n: usize)
    ensures
        n == count_of(views(tokens@), k@),
{
    let mut n: usize = 0;
    let mut i: usize = 0;
    while i < tokens.len()
        invariant
            i <= tokens.len(),
            n <= i,
            n == count_of(views(tokens@).take(i as int), k@),
        decreases tokens.len() - i,
    {
        proof {
            assert(views(tokens@).take(i + 1).drop_last() =~= views(tokens@).take(i as int));
            assert(views(tokens@).take(i + 1).last() == tokens@[i as int]@);
        }
        if same_text(tokens[i].as_str(), k) {
            n += 1;
        }
        i += 1;
    }
    assert(views(tokens@).take(tokens.len() as int) =~= views(tokens@));
    n
}

/// The share of `tokens` that read as the keyword in lower case.
pub fn frequency_in(tokens: &Vec<String>, keyword: &str) -> (r: Score)
    ensures
        r.micros == term_frequency(views(tokens@), unicode_lowercase(keyword@)),
        0 <= r.micros <= SCALE,
{
    proof {
        lemma_term_frequency_unit(views(tokens@), unicode_lowercase(keyword@));
    }
    if tokens.len() == 0 {
        return Score::zero();
    }
    let lowered = to_lowercase(keyword);
    let count = count_tokens(tokens, lowered.as_str());
    Score::ratio(count as u64, tokens.len() as u64)
}

/// The weighted sum of the term frequencies of the keywords in `tokens`.
pub fn sum_frequencies(keywords: &[String], tokens: &Vec<String>, field_weight: Score) -> (r:
    Score)
    ensures
        r.micros == weighted_frequencies(keywords@, views(tokens@), field_weight.micros as int),
{
    let mut total = Score::zero();
    let mut i: usize = 0;
    while i < keywords.len()
        invariant
            i <= keywords.len(),
            total.micros == weighted_frequencies(
                keywords@.take(i as int),
                views(tokens@),
                field_weight.micros as int,
            ),
        decreases keywords.len() - i,
    {
        proof {
            assert(keywords@.take(i + 1).drop_last() =~= keywords@.take(i as int));
            assert(keywords@.take(i + 1).last() == keywords@[i as int]);
        }
        let tf = frequency_in(tokens, keywords[i].as_str());
        total = total.plus(tf.times(field_weight));
        i += 1;
    }
    assert(keywords@.take(keywords.len() as int) =~= keywords@);
    total
}

impl MemoryStore {
    /// The tokens of a text: the text in lower case, cut at every
    /// character that is neither a letter, a number nor an underscore,
    /// without the empty pieces.
    pub fn tokenize(text: &str) -> (tokens: Vec<String>)
        ensures
            views(tokens@) == tokens_of(unicode_lowercase(text@)),
    {
        let lowered = to_lowercase(text);
        tokenize_lowered(lowered.as_str())
    }

    /// The term frequency of a keyword in a text: how many of the tokens
    /// of the text are the keyword, whatever its case, divided by the
    /// number of tokens; zero for a text without tokens.
    pub fn calculate_tf(keyword: &str, text: &str) -> (r: Score)
        ensures
            r.micros == term_frequency(
                tokens_of(unicode_lowercase(text@)),
                unicode_lowercase(keyword@),
            ),
            0 <= r.micros <= SCALE,
    {
        let tokens = MemoryStore::tokenize(text);
        frequency_in(&tokens, keyword)
    }

    /// The score of one field for the keywords.
    pub fn score_field(keywords: &[String], text: &str, field_weight: Score) -> (r: Score)
        ensures
            r.micros == field_score(keywords@, text@, field_weight.micros as int),
    {
        if keywords.len() == 0 || text.is_empty() {
            return Score::zero();
        }
        let tokens = MemoryStore::tokenize(text);
        sum_frequencies(keywords, &tokens, field_weight)
    }
}

} // verus!
