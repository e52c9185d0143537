//! How results, statistics and sources are put into words. Colour is the
//! caller's part.

use vstd::prelude::*;
use crate::bytes::{byte_len, byte_length};
use crate::clock::Timestamp;
use crate::fixed::Score;
use crate::knowledge::types::{KnowledgeSearchResult, KnowledgeStats};
use crate::text::{
    chars_of, decimal, join_chars, joined, push_chars, push_decimal, push_text, string_of,
    string_of_range, views,
};

verus! {

/// The first `max_chars` characters of a text.
pub open spec fn first_chars(input: Seq<char>, max_chars: int) -> Seq<char> {
    if max_chars < input.len() {
        input.take(max_chars)
    } else {
        input
    }
}

/// A text as it is shown in a list: as it is where it has at most `limit`
/// characters, else its first `keep` characters and three dots.
pub open spec fn shortened(input: Seq<char>, limit: int, keep: int) -> Seq<char> {
    if input.len() > limit {
        first_chars(input, keep) + "..."@
    } else {
        input
    }
}

/// A text as it stands in a column: as it is where it has at most `limit`
/// bytes, else its first `keep` characters and three dots.
pub open spec fn shortened_by_bytes(input: Seq<char>, limit: int, keep: int) -> Seq<char> {
    if byte_len(input) > limit {
        first_chars(input, keep) + "..."@
    } else {
        input
    }
}

/// A score as a whole percentage, rounded down and never negative.
pub open spec fn percent_of(score: Score) -> int {
    if score.micros < 0 {
        0
    } else if score.micros / 10000 > u32::MAX {
        u32::MAX as int
    } else {
        score.micros as int / 10000
    }
}

/// How long ago an instant was, in words: in whole days, else in whole
/// hours, else in whole minutes, else `just now`.
pub open spec fn relative_time(then: Timestamp, now: Timestamp) -> Seq<char> {
    let passed = now.millis - then.millis;
    if passed >= 86_400_000 {
        decimal((passed / 86_400_000) as nat) + " days ago"@
    } else if passed >= 3_600_000 {
        decimal((passed / 3_600_000) as nat) + " hours ago"@
    } else if passed >= 60_000 {
        decimal((passed / 60_000) as nat) + " minutes ago"@
    } else {
        "just now"@
    }
}

/// A text filled with spaces on the right to `width` characters; a longer
/// text stays as it is.
pub open spec fn padded_right(text: Seq<char>, width: int) -> Seq<char> {
    if text.len() >= width {
        text
    } else {
        text + Seq::new((width - text.len()) as nat, |i: int| ' ')
    }
}

/// One row of the list of sources, in columns of 52, 32 and 8 characters.
pub open spec fn source_row_text(
    url: Seq<char>,
    title: Seq<char>,
    chunks: nat,
    last_checked: Timestamp,
    now: Timestamp,
) -> Seq<char> {
    padded_right(shortened_by_bytes(url, 50, 47), 52) + seq![' '] + padded_right(
        shortened_by_bytes(title, 30, 27),
        32,
    ) + seq![' '] + padded_right(decimal(chunks), 8) + seq![' '] + relative_time(last_checked, now)
        + seq!['\n']
}

/// The first `max_chars` characters of a text.
pub fn truncate_chars(input: &str, max_chars: usize) -> (r: String)
    ensures
        r@ == first_chars(input@, max_chars as int),
{
    let all = chars_of(input);
    if max_chars < all.len() {
        assert(all@.subrange(0, max_chars as int) =~= all@.take(max_chars as int));
        string_of_range(&all, 0, max_chars)
    } else {
        input.to_owned()
    }
}

/// A text as it is shown in a list.
pub fn shorten(input: &str, limit: usize, keep: usize) -> (r: String)
    ensures
        r@ == shortened(input@, limit as int, keep as int),
{
    if input.unicode_len() > limit {
        let mut out = chars_of(truncate_chars(input, keep).as_str());
        push_text(&mut out, "...");
        string_of(&out)
    } else {
        input.to_owned()
    }
}

/// A text as it stands in a column.
pub fn shorten_by_bytes(input: &str, limit: usize, keep: usize) -> (r: String)
    ensures
        r@ == shortened_by_bytes(input@, limit as int, keep as int),
{
    if byte_length(input) > limit {
        let mut out = chars_of(truncate_chars(input, keep).as_str());
        push_text(&mut out, "...");
        string_of(&out)
    } else {
        input.to_owned()
    }
}

/// A score as a whole percentage.
pub fn score_percent(score: Score) -> (r: u32)
    ensures
        r == percent_of(score),
{
    if score.micros < 0 {
        0
    } else {
        let p: i64 = score.micros / 10000;
        if p > u32::MAX as i64 {
            u32::MAX
        } else {
            p as u32
        }
    }
}

/// How long ago an instant was at `now`, in words.
pub fn format_relative_time_at(then: Timestamp, now: Timestamp) -> (r: String)
    ensures
        r@ == relative_time(then, now),
{
    let passed: i128 = now.millis as i128 - then.millis as i128;
    let mut out: Vec<char> = Vec::new();
    if passed >= 86_400_000 {
        push_decimal(&mut out, (passed / 86_400_000) as u64);
        push_text(&mut out, " days ago");
    } else if passed >= 3_600_000 {
        push_decimal(&mut out, (passed / 3_600_000) as u64);
        push_text(&mut out, " hours ago");
    } else if passed >= 60_000 {
        push_decimal(&mut out, (passed / 60_000) as u64);
        push_text(&mut out, " minutes ago");
    } else {
        push_text(&mut out, "just now");
    }
    string_of(&out)
}

/// How long ago an instant was, as the clock stands.
pub fn format_relative_time(then: Timestamp) -> (r: String)
    ensures
        exists|now: Timestamp| r@ == relative_time(then, now),
{
    let now = Timestamp::now();
    let r = format_relative_time_at(then, now);
    assert(r@ == relative_time(then, now));
    r
}

/// Appends a text to `out`, filled with spaces to `width` characters.
pub fn push_padded_right(out: &mut Vec<char>, text: &str, width: usize)
    ensures
        final(out)@ == old(out)@ + padded_right(text@, width as int),
{
    let t = chars_of(text);
    push_chars(out, &t);
    let mut n: usize = t.len();
    let ghost fill = Seq::new((width - t.len()) as nat, |i: int| ' ');
    while n < width
        invariant
            t.len() <= n,
            t.len() < width ==> n <= width,
            t.len() < width ==> out@ == old(out)@ + t@ + fill.take(n - t.len()),
            t.len() >= width ==> out@ == old(out)@ + t@,
            fill == Seq::new((width - t.len()) as nat, |i: int| ' '),
        decreases width - n,
    {
        out.push(' ');
        n += 1;
        assert(out@ =~= old(out)@ + t@ + fill.take(n - t.len()));
    }
    proof {
        if t.len() < width {
            assert(fill.take(width - t.len()) =~= fill);
            assert(old(out)@ + t@ + fill =~= old(out)@ + (t@ + fill));
        }
        assert(t@ == text@);
    }
}

/// One row of the list of sources.
pub fn format_source_row(
    url: &str,
    title: &str,
    chunks: usize,
    last_checked: Timestamp,
    now: Timestamp,
) -> (r: String)
    ensures
        r@ == source_row_text(url@, title@, chunks as nat, last_checked, now),
{
    let mut out: Vec<char> = Vec::new();
    push_padded_right(&mut out, shorten_by_bytes(url, 50, 47).as_str(), 52);
    out.push(' ');
    push_padded_right(&mut out, shorten_by_bytes(title, 30, 27).as_str(), 32);
    out.push(' ');
    let mut count: Vec<char> = Vec::new();
    push_decimal(&mut count, chunks as u64);
    push_padded_right(&mut out, string_of(&count).as_str(), 8);
    out.push(' ');
    push_text(&mut out, format_relative_time_at(last_checked, now).as_str());
    out.push('\n');
    assert(out@ =~= source_row_text(url@, title@, chunks as nat, last_checked, now));
    string_of(&out)
}

/// The lines of the statistics, without the heading: the sources, the
/// chunks, the chunks per source where there are sources, and the oldest
/// and newest indexing where they are known.
pub open spec fn stats_text(stats: KnowledgeStats, now: Timestamp) -> Seq<char> {
    let counts = "Total Sources: "@ + decimal(stats.total_sources as nat) + "\nTotal Chunks: "@
        + decimal(stats.total_chunks as nat) + seq!['\n'];
    let average = if stats.total_sources > 0 {
        "Average Chunks/Source: "@ + decimal((stats.total_chunks / stats.total_sources) as nat)
            + seq!['\n']
    } else {
        Seq::empty()
    };
    let oldest = match stats.oldest_indexed {
        Some(t) => "Oldest Indexed: "@ + relative_time(t, now) + seq!['\n'],
        None => Seq::empty(),
    };
    let newest = match stats.newest_indexed {
        Some(t) => "Newest Indexed: "@ + relative_time(t, now) + seq!['\n'],
        None => Seq::empty(),
    };
    counts + average + oldest + newest
}

/// The lines of the statistics, without the heading.
pub fn format_stats_body(stats: &KnowledgeStats, now: Timestamp) -> (r: String)
    ensures
        r@ == stats_text(*stats, now),
{
    let mut out: Vec<char> = Vec::new();
    push_text(&mut out, "Total Sources: ");
    push_decimal(&mut out, stats.total_sources as u64);
    push_text(&mut out, "\nTotal Chunks: ");
    push_decimal(&mut out, stats.total_chunks as u64);
    out.push('\n');
    if stats.total_sources > 0 {
        push_text(&mut out, "Average Chunks/Source: ");
        push_decimal(&mut out, (stats.total_chunks / stats.total_sources) as u64);
        out.push('\n');
    }
    match stats.oldest_indexed {
        Some(t) => {
            push_text(&mut out, "Oldest Indexed: ");
            push_text(&mut out, format_relative_time_at(t, now).as_str());
            out.push('\n');
        },
        None => {},
    }
    match stats.newest_indexed {
        Some(t) => {
            push_text(&mut out, "Newest Indexed: ");
            push_text(&mut out, format_relative_time_at(t, now).as_str());
            out.push('\n');
        },
        None => {},
    }
    assert(out@ =~= stats_text(*stats, now));
    string_of(&out)
}

/// What is shown of one result, part by part.
#[derive(Debug)]
pub struct ResultBlock {
    /// The title of the page.
    pub title: String,
    /// The address of the page.
    pub url: String,
    /// The section path, joined by ` > `, where there is one.
    pub section: Option<String>,
    /// The content, shortened.
    pub preview: String,
    /// The relevance in percent.
    pub percent: u32,
}

/// What is shown of one result: its content shortened to `preview_chars`
/// characters.
pub fn result_block(result: &KnowledgeSearchResult, preview_chars: usize) -> (r: ResultBlock)
    ensures
        r.title@ == result.chunk.source_title@,
        r.url@ == result.chunk.source_url@,
        match r.section {
            Some(s) => result.chunk.section_path@.len() > 0 && s@ == joined(
                views(result.chunk.section_path@),
                " > "@,
            ),
            None => result.chunk.section_path@.len() == 0,
        },
        r.preview@ == shortened(result.chunk.content@, preview_chars as int, preview_chars as int),
        r.percent == percent_of(result.relevance_score),
{
    let section = if result.chunk.section_path.len() > 0 {
        Some(string_of(&join_chars(&result.chunk.section_path, " > ")))
    } else {
        None
    };
    ResultBlock {
        title: result.chunk.source_title.clone(),
        url: result.chunk.source_url.clone(),
        section,
        preview: shorten(result.chunk.content.as_str(), preview_chars, preview_chars),
        percent: score_percent(result.relevance_score),
    }
}

} // verus!
