//! Cutting a web page into chunks.
//!
//! A page is turned into plain text, the text is cut at its markdown
//! headers, and pieces that are too long are cut again, with an overlap,
//! at the ends of sentences where there are any. Positions and sizes count
//! bytes of UTF-8, and every cut falls where a character starts.

use vstd::prelude::*;
use vstd::utf8::{
    encode_utf8, encode_utf8_valid_utf8, is_char_boundary, is_char_boundary_start_end_of_seq,
    valid_utf8,
};
use crate::bytes::{
    byte_len, byte_length, ceil_boundary, ceil_char_boundary, char_at, char_from, floor_boundary,
    floor_char_boundary, lemma_boundary_after_ascii, lemma_byte_len_zero, lemma_ceil_boundary,
    lemma_ceil_boundary_advances, lemma_ceil_boundary_is_first, lemma_floor_boundary,
    lemma_floor_boundary_is_last, lemma_floor_boundary_within, lemma_text_between, slice_between,
    text_between,
};
use crate::config::KnowledgeConfig;
use crate::ident::{is_uuid_text, new_id};
use crate::knowledge::types::{ChunkBody, KnowledgeChunk};
use crate::storage::{hex_text, sha256, sha256_hex};
use crate::text::{
    chars_of, clone_strings, find_first, index_of_text, is_whitespace, join_chars, joined,
    push_chars, push_text, string_of, string_of_range, trim_bounds, trimmed,
    trimmed_start, unicode_white_space, views,
};

verus! {

/// The width in columns at which a page is turned into text.
pub const TEXT_WIDTH: usize = 120;

/// The fewest bytes of text that make a chunk.
pub const MIN_CHUNK_BYTES: usize = 50;

/// How many bytes on either side of the wanted end a sentence end is
/// looked for.
pub const SENTENCE_WINDOW: usize = 100;

/// The byte of a full stop.
pub const FULL_STOP: u8 = 46;

/// The byte of an exclamation mark.
pub const EXCLAMATION_MARK: u8 = 33;

/// The byte of a question mark.
pub const QUESTION_MARK: u8 = 63;

/// The plain text that html2text makes of an HTML text at a given width,
/// or `None` where it fails.
pub uninterp spec fn html_text(html: Seq<char>, width: int) -> Option<Seq<char>>;

/// Turns HTML into plain text with `html2text::from_read`. The text is
/// named, not defined.
#[verifier::external_body]
pub(crate) fn html_to_text(html: &str, width: usize) -> (r: Option<String>)
    ensures
        match r {
            Some(s) => html_text(html@, width as int) == Some(s@),
            None => html_text(html@, width as int) is None,
        },
{
    html2text::from_read(html.as_bytes(), width).ok()
}

/// The rules of chunking.
#[derive(Debug)]
pub struct HtmlChunker {
    pub config: KnowledgeConfig,
}

/// The number of `#` at the front of `s`.
pub open spec fn leading_hashes(s: Seq<char>) -> nat
    decreases s.len(),
{
    if s.len() > 0 && s[0] == '#' {
        1 + leading_hashes(s.drop_first())
    } else {
        0
    }
}

/// The level of the markdown header that a line is: the number of `#` at
/// its front, leading white space apart, where that is between one and
/// six.
pub open spec fn header_level(line: Seq<char>) -> Option<usize> {
    let n = leading_hashes(trimmed_start(line));
    if 1 <= n <= 6 {
        Some(n as usize)
    } else {
        None
    }
}

/// The text of a header line: the line without the `#` at its front,
/// trimmed.
pub open spec fn header_text(line: Seq<char>) -> Seq<char> {
    trimmed(line.skip(leading_hashes(line) as int))
}

/// `s` without one carriage return at its end.
pub open spec fn without_return(s: Seq<char>) -> Seq<char> {
    if s.len() > 0 && s.last() == '\r' {
        s.drop_last()
    } else {
        s
    }
}

/// The lines that have ended among the first `n` characters of `s`, and
/// the line that the `n`-th character is still part of.
pub open spec fn lines_scanned(s: Seq<char>, n: int) -> (Seq<Seq<char>>, Seq<char>)
    decreases n,
{
    if n <= 0 {
        (Seq::empty(), Seq::empty())
    } else {
        let (done, open) = lines_scanned(s, n - 1);
        if s[n - 1] == '\n' {
            (done.push(without_return(open)), Seq::empty())
        } else {
            (done, open.push(s[n - 1]))
        }
    }
}

/// The lines of `s`: its pieces between line feeds, each without the
/// carriage return before its line feed; a line feed at the very end
/// starts no further line.
pub open spec fn lines_of(s: Seq<char>) -> Seq<Seq<char>> {
    let (done, open) = lines_scanned(s, s.len() as int);
    if open.len() > 0 {
        done.push(open)
    } else {
        done
    }
}

/// What stands before the first empty line of the content of a chunk: its
/// title and section path; nothing where there is no empty line.
pub open spec fn header_of(content: Seq<char>) -> Seq<char> {
    let at = find_first(content, "\n\n"@, 0);
    if at >= 0 {
        content.take(at)
    } else {
        Seq::empty()
    }
}

/// What stands after the first empty line of the content of a chunk: its
/// text; all of it where there is no empty line.
pub open spec fn body_of(content: Seq<char>) -> Seq<char> {
    let at = find_first(content, "\n\n"@, 0);
    if at >= 0 {
        content.skip(at + 2)
    } else {
        content
    }
}

/// Whether a sentence ends at offset `i`: a full stop, an exclamation mark
/// or a question mark stands there, and the character behind it, which
/// starts before `search_end`, is white space.
pub open spec fn ends_sentence(bytes: Seq<u8>, i: int, search_end: int) -> bool {
    &&& 0 <= i
    &&& i + 1 < search_end <= bytes.len()
    &&& bytes[i] == FULL_STOP || bytes[i] == EXCLAMATION_MARK || bytes[i] == QUESTION_MARK
    &&& unicode_white_space(char_at(bytes, i + 1))
}

/// The offset behind the last sentence end at or before `i` and not
/// before `lo`; `target` where there is none.
pub open spec fn boundary_scan(bytes: Seq<u8>, i: int, lo: int, search_end: int, target: int) -> int
    decreases i - lo + 1,
{
    if i < lo {
        target
    } else if ends_sentence(bytes, i, search_end) {
        i + 1
    } else {
        boundary_scan(bytes, i - 1, lo, search_end, target)
    }
}

/// Where the window in which a sentence end is looked for starts: a
/// hundred bytes before `target`, moved down to the start of a character.
pub open spec fn window_start(bytes: Seq<u8>, target: int) -> int {
    floor_boundary(bytes, target - SENTENCE_WINDOW)
}

/// Where that window ends: a hundred bytes after `target` or at the end of
/// the text, moved down to the start of a character.
pub open spec fn window_end(bytes: Seq<u8>, target: int) -> int {
    floor_boundary(
        bytes,
        if target + SENTENCE_WINDOW < bytes.len() {
            target + SENTENCE_WINDOW
        } else {
            bytes.len() as int
        },
    )
}

/// Where a piece that should end at `target` is cut: behind the last
/// sentence end in the window before `target`, the white space behind it
/// looked for up to the window's end; at `target` where no sentence ends
/// there.
pub open spec fn sentence_boundary(bytes: Seq<u8>, target: int) -> int {
    boundary_scan(bytes, target - 1, window_start(bytes, target), window_end(bytes, target), target)
}

/// Where a piece from `start` should end before sentences are looked at:
/// `size` bytes on or at the end of the text, moved down to the start of a
/// character.
pub open spec fn wanted_end(bytes: Seq<u8>, start: int, size: int) -> int {
    floor_boundary(
        bytes,
        if start + size < bytes.len() {
            start + size
        } else {
            bytes.len() as int
        },
    )
}

/// Where the piece that starts at `start` ends: at the wanted end; before
/// the end of the text, at a sentence end if one is near; and always
/// behind `start`, at the start of the next character if need be.
pub open spec fn piece_end(bytes: Seq<u8>, start: int, size: int) -> int {
    let wanted = wanted_end(bytes, start, size);
    let cut = if wanted < bytes.len() {
        sentence_boundary(bytes, wanted)
    } else {
        wanted
    };
    if cut <= start {
        ceil_boundary(bytes, start + 1)
    } else {
        cut
    }
}

/// Where the piece after one from `start` to `end` starts: `overlap`
/// bytes before `end`, moved down to the start of a character; and always
/// behind `start`, at the start of the next character if need be.
pub open spec fn next_piece_start(bytes: Seq<u8>, start: int, end: int, overlap: int) -> int {
    let back = floor_boundary(bytes, end - overlap);
    if back <= start {
        ceil_boundary(bytes, start + 1)
    } else {
        back
    }
}

/// The pieces into which the bytes from `start` on are cut, each as the
/// offsets of its start and its end.
pub open spec fn spans_from(bytes: Seq<u8>, start: int, size: int, overlap: int) -> Seq<(int, int)>
    decreases bytes.len() - start,
{
    proof {
        if 0 <= start < bytes.len() {
            lemma_ceil_boundary_advances(bytes, start + 1);
            lemma_floor_boundary_within(bytes, piece_end(bytes, start, size) - overlap);
        }
    }
    if start < 0 || start >= bytes.len() {
        Seq::empty()
    } else {
        let end = piece_end(bytes, start, size);
        if end >= bytes.len() {
            seq![(start, end)]
        } else {
            seq![(start, end)] + spans_from(
                bytes,
                next_piece_start(bytes, start, end, overlap),
                size,
                overlap,
            )
        }
    }
}

/// The texts between the offsets of each of `spans`.
pub open spec fn pieces_of(bytes: Seq<u8>, spans: Seq<(int, int)>) -> Seq<Seq<char>> {
    Seq::new(spans.len(), |k: int| text_between(bytes, spans[k].0, spans[k].1))
}

/// The pieces into which a text is cut.
pub open spec fn pieces_from(text: Seq<char>, size: int, overlap: int) -> Seq<Seq<char>> {
    pieces_of(encode_utf8(text), spans_from(encode_utf8(text), 0, size, overlap))
}

/// A scan for a sentence end gives the target, or an offset behind `lo`,
/// at or before the place it started from, at which a character starts.
pub proof fn lemma_boundary_scan_bounds(
    bytes: Seq<u8>,
    i: int,
    lo: int,
    search_end: int,
    target: int,
)
    requires
        valid_utf8(bytes),
        0 <= lo,
        i < target,
    ensures
        boundary_scan(bytes, i, lo, search_end, target) == target || (lo < boundary_scan(
            bytes,
            i,
            lo,
            search_end,
            target,
        ) <= i + 1 && is_char_boundary(bytes, boundary_scan(bytes, i, lo, search_end, target))),
    decreases i - lo + 1,
{
    if i >= lo {
        if ends_sentence(bytes, i, search_end) {
            lemma_boundary_after_ascii(bytes, i);
        } else {
            lemma_boundary_scan_bounds(bytes, i - 1, lo, search_end, target);
        }
    }
}

/// A piece that starts inside the text, where a character starts, ends
/// behind its start, within the text, where a character starts; and where
/// the size is four bytes or more, after at most that many.
pub proof fn lemma_piece_end_bounds(bytes: Seq<u8>, start: int, size: int)
    requires
        valid_utf8(bytes),
        0 <= start < bytes.len(),
        is_char_boundary(bytes, start),
        size >= 0,
    ensures
        start < piece_end(bytes, start, size) <= bytes.len(),
        is_char_boundary(bytes, piece_end(bytes, start, size)),
        size >= 4 ==> piece_end(bytes, start, size) <= start + size,
{
    let target = if start + size < bytes.len() {
        start + size
    } else {
        bytes.len() as int
    };
    let wanted = wanted_end(bytes, start, size);
    lemma_floor_boundary(bytes, target);
    lemma_ceil_boundary(bytes, start + 1);
    if wanted < bytes.len() {
        lemma_floor_boundary(bytes, wanted - SENTENCE_WINDOW);
        lemma_boundary_scan_bounds(
            bytes,
            wanted - 1,
            window_start(bytes, wanted),
            window_end(bytes, wanted),
            wanted,
        );
    }
}

/// The piece after one starts behind that one's start, at or before its
/// end, where a character starts.
pub proof fn lemma_next_piece_start_bounds(bytes: Seq<u8>, start: int, end: int, overlap: int)
    requires
        valid_utf8(bytes),
        0 <= start < end <= bytes.len(),
        is_char_boundary(bytes, end),
        overlap >= 0,
    ensures
        start < next_piece_start(bytes, start, end, overlap) <= end,
        is_char_boundary(bytes, next_piece_start(bytes, start, end, overlap)),
{
    lemma_floor_boundary(bytes, end - overlap);
    lemma_ceil_boundary(bytes, start + 1);
    lemma_ceil_boundary_is_first(bytes, start + 1, end);
}

/// Where the size is at least the overlap and a hundred and ten bytes
/// more, a piece ends more than `overlap` bytes behind its start without
/// being moved, and the next piece starts `overlap` bytes before that end,
/// moved down to the start of a character and no further.
pub proof fn lemma_pieces_advance_unforced(bytes: Seq<u8>, start: int, size: int, overlap: int)
    requires
        valid_utf8(bytes),
        0 <= start < bytes.len(),
        is_char_boundary(bytes, start),
        overlap >= 0,
        size >= overlap + SENTENCE_WINDOW + 10,
    ensures
        ({
            let wanted = wanted_end(bytes, start, size);
            let end = piece_end(bytes, start, size);
            &&& end == if wanted < bytes.len() {
                sentence_boundary(bytes, wanted)
            } else {
                wanted
            }
            &&& end < bytes.len() ==> next_piece_start(bytes, start, end, overlap)
                == floor_boundary(bytes, end - overlap)
        }),
{
    let target = if start + size < bytes.len() {
        start + size
    } else {
        bytes.len() as int
    };
    let wanted = wanted_end(bytes, start, size);
    lemma_floor_boundary(bytes, target);
    lemma_floor_boundary_is_last(bytes, target, start);
    if wanted < bytes.len() {
        lemma_floor_boundary(bytes, wanted - SENTENCE_WINDOW);
        lemma_boundary_scan_bounds(
            bytes,
            wanted - 1,
            window_start(bytes, wanted),
            window_end(bytes, wanted),
            wanted,
        );
        let end = sentence_boundary(bytes, wanted);
        lemma_floor_boundary(bytes, end - overlap);
    }
}

/// What holds of the pieces of a text from an offset at which a character
/// starts: there is one unless the text has ended; the first starts at
/// that offset and the last ends with the text; each starts and ends where
/// a character starts and holds at least one byte, and where the size is
/// four or more, at most that many; each but the first starts behind the
/// start of the one before it and at or before its end.
pub proof fn lemma_spans(bytes: Seq<u8>, start: int, size: int, overlap: int)
    requires
        valid_utf8(bytes),
        0 <= start <= bytes.len(),
        is_char_boundary(bytes, start),
        size >= 0,
        overlap >= 0,
    ensures
        ({
            let spans = spans_from(bytes, start, size, overlap);
            &&& spans.len() == 0 <==> start == bytes.len()
            &&& spans.len() > 0 ==> spans[0].0 == start && spans.last().1 == bytes.len()
            &&& forall|k: int|
                0 <= k < spans.len() ==> {
                    &&& 0 <= (#[trigger] spans[k]).0 < spans[k].1 <= bytes.len()
                    &&& is_char_boundary(bytes, spans[k].0)
                    &&& is_char_boundary(bytes, spans[k].1)
                    &&& size >= 4 ==> spans[k].1 - spans[k].0 <= size
                }
            &&& forall|k: int|
                0 < k < spans.len() ==> spans[k - 1].0 < (#[trigger] spans[k]).0 <= spans[k - 1].1
        }),
    decreases bytes.len() - start,
{
    if start < bytes.len() {
        lemma_piece_end_bounds(bytes, start, size);
        let end = piece_end(bytes, start, size);
        if end < bytes.len() {
            let next = next_piece_start(bytes, start, end, overlap);
            lemma_next_piece_start_bounds(bytes, start, end, overlap);
            lemma_spans(bytes, next, size, overlap);
            let rest = spans_from(bytes, next, size, overlap);
            let all = spans_from(bytes, start, size, overlap);
            assert(all =~= seq![(start, end)] + rest);
            assert forall|k: int| 0 <= k < all.len() implies {
                &&& 0 <= (#[trigger] all[k]).0 < all[k].1 <= bytes.len()
                &&& is_char_boundary(bytes, all[k].0)
                &&& is_char_boundary(bytes, all[k].1)
                &&& size >= 4 ==> all[k].1 - all[k].0 <= size
            } by {
                if k > 0 {
                    assert(all[k] == rest[k - 1]);
                }
            }
            assert forall|k: int| 0 < k < all.len() implies all[k - 1].0 < (#[trigger] all[k]).0
                <= all[k - 1].1 by {
                assert(all[k] == rest[k - 1]);
                if k > 1 {
                    assert(all[k - 1] == rest[k - 2]);
                }
            }
            assert(all.last() == rest.last());
        }
    }
}

/// Every piece of a text holds at least one byte, and where the size is
/// four or more, at most that many; the bytes of a piece are those of the
/// text between its offsets.
pub proof fn lemma_pieces_sized(text: Seq<char>, size: int, overlap: int)
    requires
        size >= 0,
        overlap >= 0,
    ensures
        pieces_from(text, size, overlap).len() == 0 <==> text.len() == 0,
        forall|k: int|
            0 <= k < pieces_from(text, size, overlap).len() ==> {
                let span = spans_from(encode_utf8(text), 0, size, overlap)[k];
                let piece = #[trigger] pieces_from(text, size, overlap)[k];
                &&& encode_utf8(piece) == encode_utf8(text).subrange(span.0, span.1)
                &&& 1 <= byte_len(piece)
                &&& size >= 4 ==> byte_len(piece) <= size
            },
{
    let bytes = encode_utf8(text);
    encode_utf8_valid_utf8(text);
    is_char_boundary_start_end_of_seq(bytes);
    lemma_spans(bytes, 0, size, overlap);
    lemma_byte_len_zero(text);
    let spans = spans_from(bytes, 0, size, overlap);
    assert forall|k: int| 0 <= k < pieces_from(text, size, overlap).len() implies {
        let span = spans[k];
        let piece = #[trigger] pieces_from(text, size, overlap)[k];
        &&& encode_utf8(piece) == bytes.subrange(span.0, span.1)
        &&& 1 <= byte_len(piece)
        &&& size >= 4 ==> byte_len(piece) <= size
    } by {
        lemma_text_between(bytes, spans[k].0, spans[k].1);
    }
}

/// The sum, held at the largest `usize`.
pub open spec fn plus_sat(a: int, b: int) -> usize {
    if a + b > usize::MAX {
        usize::MAX
    } else if a + b < 0 {
        0
    } else {
        (a + b) as usize
    }
}

/// The sum, held at the largest `usize`.
pub fn add_sat(a: usize, b: usize) -> (r: usize)
    ensures
        r == plus_sat(a as int, b as int),
{
    if a <= usize::MAX - b {
        a + b
    } else {
        usize::MAX
    }
}

/// The content of a chunk: the title, the section path behind it where
/// there is one, an empty line, and the text.
pub open spec fn chunk_content(title: Seq<char>, path: Seq<Seq<char>>, text: Seq<char>) -> Seq<char> {
    if path.len() == 0 {
        title + "\n\n"@ + text
    } else {
        title + " > "@ + joined(path, " > "@) + "\n\n"@ + text
    }
}

/// The chunk that is made of a text, where the text, trimmed, has at
/// least fifty bytes.
pub open spec fn chunk_of(
    url: Seq<char>,
    title: Seq<char>,
    path: Seq<Seq<char>>,
    text: Seq<char>,
    index: i32,
    from: usize,
    to: usize,
) -> Option<ChunkBody> {
    if byte_len(trimmed(text)) < MIN_CHUNK_BYTES {
        None
    } else {
        Some(
            ChunkBody {
                source_url: url,
                source_title: title,
                chunk_index: index,
                content: chunk_content(title, path, trimmed(text)),
                section_path: path,
                char_start: from,
                char_end: to,
            },
        )
    }
}

/// The section path under a new header of level `level`: the path cut to
/// `level - 1` headers, and the new header.
pub open spec fn path_under(path: Seq<Seq<char>>, level: int, header: Seq<char>) -> Seq<Seq<char>> {
    if level - 1 < path.len() {
        if level < 1 {
            seq![header]
        } else {
            path.take(level - 1).push(header)
        }
    } else {
        path.push(header)
    }
}

/// What reading the lines of a page has gathered.
pub struct Gathered {
    /// The chunks that are complete.
    pub chunks: Seq<ChunkBody>,
    /// The headers under which the current text stands.
    pub path: Seq<Seq<char>>,
    /// The text since the last header.
    pub text: Seq<char>,
    /// Where the current text starts.
    pub start: usize,
    /// The index of the next chunk.
    pub index: i32,
}

/// The index after `i`, held at the largest `i32`.
pub open spec fn next_index(i: i32) -> i32 {
    if i < i32::MAX {
        (i + 1) as i32
    } else {
        i
    }
}

/// What is gathered once the current text is made a chunk, where it holds
/// more than white space.
pub open spec fn flushed(g: Gathered, url: Seq<char>, title: Seq<char>) -> Gathered {
    if trimmed(g.text).len() == 0 {
        g
    } else {
        let end = plus_sat(g.start as int, byte_len(g.text) as int);
        match chunk_of(url, title, g.path, g.text, g.index, g.start, end) {
            Some(c) => Gathered {
                chunks: g.chunks.push(c),
                path: g.path,
                text: Seq::empty(),
                start: end,
                index: next_index(g.index),
            },
            None => Gathered {
                chunks: g.chunks,
                path: g.path,
                text: Seq::empty(),
                start: end,
                index: g.index,
            },
        }
    }
}

/// What is gathered after one more line: a header line first ends the
/// current text and changes the section path; every line is added to the
/// current text.
pub open spec fn after_line(g: Gathered, line: Seq<char>, url: Seq<char>, title: Seq<char>) -> Gathered {
    let h = match header_level(line) {
        Some(level) => {
            let f = flushed(g, url, title);
            Gathered {
                chunks: f.chunks,
                path: path_under(f.path, level as int, header_text(line)),
                text: f.text,
                start: f.start,
                index: f.index,
            }
        },
        None => g,
    };
    Gathered {
        chunks: h.chunks,
        path: h.path,
        text: h.text + line + seq!['\n'],
        start: h.start,
        index: h.index,
    }
}

/// What is gathered after the first `n` lines.
pub open spec fn gathered(lines: Seq<Seq<char>>, n: int, url: Seq<char>, title: Seq<char>) -> Gathered
    decreases n,
{
    if n <= 0 {
        Gathered { chunks: Seq::empty(), path: Seq::empty(), text: Seq::empty(), start: 0, index: 0 }
    } else {
        after_line(gathered(lines, n - 1, url, title), lines[n - 1], url, title)
    }
}

/// The chunks of a text by its headers.
pub open spec fn sections_of(markdown: Seq<char>, url: Seq<char>, title: Seq<char>) -> Seq<ChunkBody> {
    let lines = lines_of(markdown);
    flushed(gathered(lines, lines.len() as int, url, title), url, title).chunks
}

/// The chunks made of the pieces of one long chunk: each piece under the
/// header of the chunk, numbered from `index`, placed `size - overlap`
/// bytes after the one before.
pub open spec fn piece_chunks(
    c: ChunkBody,
    pieces: Seq<Seq<char>>,
    n: int,
    index: i32,
    stride: usize,
) -> Seq<ChunkBody>
    decreases n,
{
    if n <= 0 {
        Seq::empty()
    } else {
        let before = piece_chunks(c, pieces, n - 1, index, stride);
        let from = plus_sat(c.char_start as int, (n - 1) * stride);
        before.push(
            ChunkBody {
                source_url: c.source_url,
                source_title: c.source_title,
                chunk_index: index_after(index, n - 1),
                content: header_of(c.content) + "\n\n"@ + pieces[n - 1],
                section_path: c.section_path,
                char_start: from,
                char_end: plus_sat(from as int, byte_len(pieces[n - 1]) as int),
            },
        )
    }
}

/// The index `k` places after `i`, held at the largest `i32`.
pub open spec fn index_after(i: i32, k: int) -> i32 {
    if i + k > i32::MAX {
        i32::MAX
    } else if k < 0 {
        i
    } else {
        (i + k) as i32
    }
}

/// `size - overlap`, or zero where the overlap is the larger.
pub open spec fn stride_of(size: usize, overlap: usize) -> usize {
    if size >= overlap {
        (size - overlap) as usize
    } else {
        0
    }
}

/// The chunks of the first `n` sections, long ones cut into pieces, all
/// numbered anew from zero.
pub open spec fn resplit(sections: Seq<ChunkBody>, n: int, size: usize, overlap: usize) -> Seq<
    ChunkBody,
>
    decreases n,
{
    if n <= 0 {
        Seq::empty()
    } else {
        let before = resplit(sections, n - 1, size, overlap);
        let c = sections[n - 1];
        let index = index_after(0, before.len() as int);
        if byte_len(body_of(c.content)) <= size {
            before.push(
                ChunkBody {
                    source_url: c.source_url,
                    source_title: c.source_title,
                    chunk_index: index,
                    content: c.content,
                    section_path: c.section_path,
                    char_start: c.char_start,
                    char_end: c.char_end,
                },
            )
        } else {
            let pieces = pieces_from(body_of(c.content), size as int, overlap as int);
            before + piece_chunks(c, pieces, pieces.len() as int, index, stride_of(size, overlap))
        }
    }
}

/// The chunks of a text.
pub open spec fn chunks_of(
    markdown: Seq<char>,
    url: Seq<char>,
    title: Seq<char>,
    size: usize,
    overlap: usize,
) -> Seq<ChunkBody> {
    let sections = sections_of(markdown, url, title);
    resplit(sections, sections.len() as int, size, overlap)
}

/// The title between `<title>` and `</title>`, as text, where there is
/// one that holds more than white space.
pub open spec fn title_from_tag(html: Seq<char>) -> Option<Seq<char>> {
    let start = find_first(html, "<title>"@, 0);
    let end = find_first(html, "</title>"@, start);
    if start >= 0 && end >= start + 7 {
        match html_text(html.subrange(start + 7, end), TEXT_WIDTH as int) {
            Some(t) => if trimmed(t).len() > 0 {
                Some(trimmed(t))
            } else {
                None
            },
            None => None,
        }
    } else {
        None
    }
}

/// The first `<h1>` header, as text, where there is one that holds more
/// than white space.
pub open spec fn title_from_heading(html: Seq<char>) -> Option<Seq<char>> {
    let start = find_first(html, "<h1"@, 0);
    let open_end = find_first(html, ">"@, start);
    let end = find_first(html, "</h1>"@, open_end + 1);
    if start >= 0 && open_end >= 0 && end >= 0 {
        match html_text(html.subrange(open_end + 1, end), TEXT_WIDTH as int) {
            Some(t) => if trimmed(t).len() > 0 {
                Some(trimmed(t))
            } else {
                None
            },
            None => None,
        }
    } else {
        None
    }
}

/// The title of a page: from its `<title>`, else from its first `<h1>`,
/// else `Untitled`.
pub open spec fn title_of(html: Seq<char>) -> Seq<char> {
    match title_from_tag(html) {
        Some(t) => t,
        None => match title_from_heading(html) {
            Some(t) => t,
            None => "Untitled"@,
        },
    }
}

/// The bodies of a list of chunks.
pub open spec fn bodies(v: Seq<KnowledgeChunk>) -> Seq<ChunkBody> {
    Seq::new(v.len(), |i: int| v[i].body())
}

/// Whether every chunk of a list has an identifier of the shape of a UUID.
pub open spec fn all_fresh(v: Seq<KnowledgeChunk>) -> bool {
    forall|i: int| 0 <= i < v.len() ==> is_uuid_text((#[trigger] v[i]).id@)
}

/// The lines of a text.
pub fn split_lines(text: &Vec<char>) -> (lines: Vec<Vec<char>>)
    ensures
        Seq::new(lines@.len(), |i: int| lines@[i]@) == lines_of(text@),
{
    let mut lines: Vec<Vec<char>> = Vec::new();
    let mut open: Vec<char> = Vec::new();
    let mut i: usize = 0;
    assert(Seq::new(lines@.len(), |i: int| lines@[i]@) =~= Seq::<Seq<char>>::empty());
    while i < text.len()
        invariant
            i <= text.len(),
            Seq::new(lines@.len(), |i: int| lines@[i]@) == lines_scanned(text@, i as int).0,
            open@ == lines_scanned(text@, i as int).1,
        decreases text.len() - i,
    {
        let ghost prev = Seq::new(lines@.len(), |i: int| lines@[i]@);
        if text[i] == '\n' {
            if open.len() > 0 && open[open.len() - 1] == '\r' {
                open.pop();
            }
            let ghost line = open@;
            lines.push(open);
            open = Vec::new();
            assert(Seq::new(lines@.len(), |i: int| lines@[i]@) =~= prev.push(line));
        } else {
            open.push(text[i]);
        }
        i += 1;
    }
    if open.len() > 0 {
        let ghost prev = Seq::new(lines@.len(), |i: int| lines@[i]@);
        let ghost line = open@;
        lines.push(open);
        assert(Seq::new(lines@.len(), |i: int| lines@[i]@) =~= prev.push(line));
    }
    lines
}

/// The number of `#` at the front of `v[from..]`.
fn count_hashes(v: &Vec<char>, from: usize) -> (n: usize)
    requires
        from <= v.len(),
    ensures
        n == leading_hashes(v@.skip(from as int)),
        from + n <= v.len(),
{
    let mut n: usize = 0;
    while from + n < v.len() && v[from + n] == '#'
        invariant
            from + n <= v.len(),
            leading_hashes(v@.skip(from as int)) == n + leading_hashes(v@.skip(from + n)),
        decreases v.len() - from - n,
    {
        proof {
            let rest = v@.skip(from + n);
            assert(rest[0] == v@[from + n]);
            assert(rest.drop_first() =~= v@.skip(from + n + 1));
        }
        n += 1;
    }
    proof {
        let rest = v@.skip(from + n);
        if from + n < v.len() {
            assert(rest[0] == v@[from + n]);
        }
    }
    n
}

/// The level of the markdown header that a line is.
pub fn level_of(line: &Vec<char>) -> (r: Option<usize>)
    ensures
        r == header_level(line@),
{
    let (from, _to) = trim_bounds(line);
    let n = count_hashes(line, from);
    if 1 <= n && n <= 6 {
        Some(n)
    } else {
        None
    }
}

impl HtmlChunker {
    /// The rules of chunking under these settings.
    pub fn new(config: KnowledgeConfig) -> (r: HtmlChunker)
        ensures
            r.config == config,
    {
        HtmlChunker { config }
    }

    /// The level of the markdown header that a line is, if it is one.
    pub fn detect_header_level(&self, line: &str) -> (r: Option<usize>)
        ensures
            r == header_level(line@),
            r is Some ==> 1 <= r->0 <= 6,
    {
        let v = chars_of(line);
        level_of(&v)
    }

    /// Changes the section path for a new header of level `level`.
    pub fn update_section_path(&self, path: &mut Vec<String>, level: usize, header: String)
        ensures
            views(final(path)@) == path_under(views(old(path)@), level as int, header@),
    {
        let keep: usize = if level >= 1 {
            level - 1
        } else {
            0
        };
        path.truncate(keep);
        path.push(header);
        assert(views(path@) =~= path_under(views(old(path)@), level as int, header@));
    }

    /// The title and section path of the content of a chunk.
    pub fn extract_header(&self, content: &str) -> (r: String)
        ensures
            r@ == header_of(content@),
    {
        let all = chars_of(content);
        match index_of_text(&all, "\n\n", 0) {
            Some(at) => {
                assert(all@.subrange(0, at as int) =~= all@.take(at as int));
                string_of_range(&all, 0, at)
            },
            None => {
                assert(all@.subrange(0, 0) =~= Seq::empty());
                string_of_range(&all, 0, 0)
            },
        }
    }

    /// The text of the content of a chunk.
    pub fn extract_content_without_header(&self, content: &str) -> (r: String)
        ensures
            r@ == body_of(content@),
    {
        let all = chars_of(content);
        match index_of_text(&all, "\n\n", 0) {
            Some(at) => {
                proof {
                    reveal_strlit("\n\n");
                }
                assert(all@.subrange(at + 2, all.len() as int) =~= all@.skip(at + 2));
                string_of_range(&all, at + 2, all.len())
            },
            None => content.to_owned(),
        }
    }

    /// Where a piece that should end at `target` is cut.
    pub fn find_sentence_boundary(&self, text: &str, target: usize) -> (r: usize)
        requires
            target <= byte_len(text@),
            is_char_boundary(encode_utf8(text@), target as int),
        ensures
            r == sentence_boundary(encode_utf8(text@), target as int),
            r <= target,
            is_char_boundary(encode_utf8(text@), r as int),
    {
        let bytes = text.as_bytes();
        let len = bytes.len();
        let lo: usize = floor_char_boundary(
            text,
            if target > SENTENCE_WINDOW {
                target - SENTENCE_WINDOW
            } else {
                0
            },
        );
        let hi: usize = floor_char_boundary(
            text,
            if len - target > SENTENCE_WINDOW {
                target + SENTENCE_WINDOW
            } else {
                len
            },
        );
        proof {
            encode_utf8_valid_utf8(text@);
        }
        let mut i: usize = target;
        while i > lo
            invariant
                lo <= i <= target <= len,
                hi <= len,
                len == encode_utf8(text@).len(),
                bytes@ == encode_utf8(text@),
                valid_utf8(encode_utf8(text@)),
                lo == window_start(encode_utf8(text@), target as int),
                hi == window_end(encode_utf8(text@), target as int),
                sentence_boundary(encode_utf8(text@), target as int) == boundary_scan(
                    encode_utf8(text@),
                    i - 1,
                    lo as int,
                    hi as int,
                    target as int,
                ),
            decreases i,
        {
            let b = bytes[i - 1];
            if (b == FULL_STOP || b == EXCLAMATION_MARK || b == QUESTION_MARK) && i < hi {
                proof {
                    lemma_boundary_after_ascii(encode_utf8(text@), i - 1);
                }
                if is_whitespace(char_from(text, i)) {
                    return i;
                }
            }
            i -= 1;
        }
        target
    }

    /// The pieces into which a long text is cut: each at most `chunk_size`
    /// bytes where that is room for any character, cut at a sentence end
    /// where one is near, and starting `chunk_overlap` bytes before the
    /// end of the one before; every cut is moved down to the start of a
    /// character, and every piece starts behind the start of the one
    /// before it.
    pub fn split_text_with_overlap(&self, text: &str) -> (pieces: Vec<String>)
        ensures
            views(pieces@) == pieces_from(
                text@,
                self.config.chunk_size as int,
                self.config.chunk_overlap as int,
            ),
            pieces@.len() == 0 <==> text@.len() == 0,
            forall|k: int|
                0 <= k < pieces@.len() ==> 1 <= byte_len((#[trigger] pieces@[k])@) && (
                self.config.chunk_size >= 4 ==> byte_len(pieces@[k]@) <= self.config.chunk_size),
    {
        let len = byte_length(text);
        let size = self.config.chunk_size;
        let overlap = self.config.chunk_overlap;
        let mut pieces: Vec<String> = Vec::new();
        let mut start: usize = 0;
        let mut done = false;
        let ghost bytes = encode_utf8(text@);
        let ghost mut spans: Seq<(int, int)> = Seq::empty();
        proof {
            encode_utf8_valid_utf8(text@);
            is_char_boundary_start_end_of_seq(bytes);
            assert(spans + spans_from(bytes, 0, size as int, overlap as int) =~= spans_from(
                bytes,
                0,
                size as int,
                overlap as int,
            ));
            assert(views(pieces@) =~= pieces_of(bytes, spans));
        }
        while start < len && !done
            invariant
                bytes == encode_utf8(text@),
                valid_utf8(bytes),
                len == bytes.len(),
                size == self.config.chunk_size,
                overlap == self.config.chunk_overlap,
                start <= len,
                is_char_boundary(bytes, start as int),
                views(pieces@) == pieces_of(bytes, spans),
                !done ==> spans_from(bytes, 0, size as int, overlap as int) == spans + spans_from(
                    bytes,
                    start as int,
                    size as int,
                    overlap as int,
                ),
                done ==> spans_from(bytes, 0, size as int, overlap as int) == spans,
            decreases
                    len - start + if done {
                        0int
                    } else {
                        1int
                    },
        {
            let target: usize = if size < len - start {
                start + size
            } else {
                len
            };
            let wanted = floor_char_boundary(text, target);
            let cut: usize = if wanted < len {
                self.find_sentence_boundary(text, wanted)
            } else {
                wanted
            };
            let end: usize = if cut <= start {
                ceil_char_boundary(text, start + 1)
            } else {
                cut
            };
            let ghost prev = spans;
            let ghost rest = spans_from(bytes, start as int, size as int, overlap as int);
            let ghost before = views(pieces@);
            pieces.push(slice_between(text, start, end).to_owned());
            proof {
                spans = spans.push((start as int, end as int));
                let piece = text_between(bytes, start as int, end as int);
                assert(views(pieces@) =~= before.push(piece));
                assert(pieces_of(bytes, spans) =~= pieces_of(bytes, prev).push(piece));
            }
            if end >= len {
                done = true;
                assert(prev + rest =~= spans);
            } else {
                let back = floor_char_boundary(
                    text,
                    if end > overlap {
                        end - overlap
                    } else {
                        0
                    },
                );
                let next: usize = if back <= start {
                    ceil_char_boundary(text, start + 1)
                } else {
                    back
                };
                assert(prev + rest =~= spans + spans_from(
                    bytes,
                    next as int,
                    size as int,
                    overlap as int,
                ));
                start = next;
            }
        }
        proof {
            if !done {
                assert(spans + Seq::<(int, int)>::empty() =~= spans);
            }
            lemma_pieces_sized(text@, size as int, overlap as int);
            assert forall|k: int| 0 <= k < pieces@.len() implies 1 <= byte_len(
                (#[trigger] pieces@[k])@,
            ) && (size >= 4 ==> byte_len(pieces@[k]@) <= size) by {
                assert(views(pieces@)[k] == pieces@[k]@);
            }
        }
        pieces
    }

    /// The SHA-256 digest of a text, in hexadecimal.
    pub fn compute_hash(&self, content: &str) -> (r: String)
        ensures
            r@ == hex_text(sha256(content@)),
            r@.len() == 64,
    {
        sha256_hex(content)
    }

    /// The chunk that is made of a text, under a fresh identifier; none
    /// where the text, trimmed, has fewer than fifty bytes.
    pub fn create_chunk(
        &self,
        url: &str,
        title: &str,
        section_path: &Vec<String>,
        content: &Vec<char>,
        chunk_index: i32,
        char_range: (usize, usize),
    ) -> (r: Option<KnowledgeChunk>)
        ensures
            match r {
                Some(c) => is_uuid_text(c.id@) && Some(c.body()) == chunk_of(
                    url@,
                    title@,
                    views(section_path@),
                    content@,
                    chunk_index,
                    char_range.0,
                    char_range.1,
                ),
                None => chunk_of(
                    url@,
                    title@,
                    views(section_path@),
                    content@,
                    chunk_index,
                    char_range.0,
                    char_range.1,
                ) is None,
            },
    {
        let (from, to) = trim_bounds(content);
        let text = string_of_range(content, from, to);
        if byte_length(text.as_str()) < MIN_CHUNK_BYTES {
            return None;
        }
        let mut full: Vec<char> = Vec::new();
        push_text(&mut full, title);
        if section_path.len() > 0 {
            push_text(&mut full, " > ");
            let path = join_chars(section_path, " > ");
            push_chars(&mut full, &path);
        }
        push_text(&mut full, "\n\n");
        push_text(&mut full, text.as_str());
        assert(full@ =~= chunk_content(title@, views(section_path@), trimmed(content@)));
        Some(
            KnowledgeChunk {
                id: new_id(),
                source_url: url.to_owned(),
                source_title: title.to_owned(),
                chunk_index,
                content: string_of(&full),
                section_path: clone_strings(section_path),
                char_start: char_range.0,
                char_end: char_range.1,
            },
        )
    }
}

/// The index after `i`, held at the largest `i32`.
pub fn bump(i: i32) -> (r: i32)
    ensures
        r == next_index(i),
        r == index_after(i, 1),
{
    if i < i32::MAX {
        i + 1
    } else {
        i
    }
}

/// What is said of a page that cannot be turned into text.
pub open spec fn unreadable_page_message() -> Seq<char> {
    "failed to convert HTML to text"@
}

impl HtmlChunker {
    /// The chunks of a text by its headers: the text is read line by line;
    /// a header ends the text before it, which becomes a chunk under the
    /// headers that were in force, and changes the section path.
    pub fn chunk_sections(&self, url: &str, title: &str, markdown: &str) -> (chunks: Vec<
        KnowledgeChunk,
    >)
        ensures
            bodies(chunks@) == sections_of(markdown@, url@, title@),
            all_fresh(chunks@),
    {
        let text = chars_of(markdown);
        let lines = split_lines(&text);
        let ghost spec_lines = lines_of(markdown@);
        let mut chunks: Vec<KnowledgeChunk> = Vec::new();
        let mut path: Vec<String> = Vec::new();
        let mut current: Vec<char> = Vec::new();
        let mut start: usize = 0;
        let mut index: i32 = 0;
        let mut i: usize = 0;
        assert(bodies(chunks@) =~= Seq::empty());
        assert(views(path@) =~= Seq::empty());
        while i < lines.len()
            invariant
                i <= lines.len(),
                spec_lines == Seq::new(lines@.len(), |k: int| lines@[k]@),
                all_fresh(chunks@),
                gathered(spec_lines, i as int, url@, title@) == (Gathered {
                    chunks: bodies(chunks@),
                    path: views(path@),
                    text: current@,
                    start,
                    index,
                }),
            decreases lines.len() - i,
        {
            let line = &lines[i];
            assert(spec_lines[i as int] == line@);
            match level_of(line) {
                Some(level) => {
                    self.flush(url, title, &mut chunks, &path, &mut current, &mut start, &mut index);
                    let hashes = count_hashes(line, 0);
                    assert(line@.skip(0) =~= line@);
                    let rest = chars_of(string_of_range(line, hashes, line.len()).as_str());
                    assert(rest@ =~= line@.skip(hashes as int));
                    let (from, to) = trim_bounds(&rest);
                    let header = string_of_range(&rest, from, to);
                    self.update_section_path(&mut path, level, header);
                },
                None => {},
            }
            push_chars(&mut current, line);
            current.push('\n');
            proof {
                let g = gathered(spec_lines, i as int, url@, title@);
                let after = after_line(g, line@, url@, title@);
                assert(current@ =~= after.text);
            }
            i += 1;
        }
        self.flush(url, title, &mut chunks, &path, &mut current, &mut start, &mut index);
        chunks
    }

    /// Makes the current text a chunk, where it holds more than white
    /// space, and starts a new text behind it.
    pub fn flush(
        &self,
        url: &str,
        title: &str,
        chunks: &mut Vec<KnowledgeChunk>,
        path: &Vec<String>,
        current: &mut Vec<char>,
        start: &mut usize,
        index: &mut i32,
    )
        ensures
            all_fresh(old(chunks)@) ==> all_fresh(final(chunks)@),
            (Gathered {
                chunks: bodies(final(chunks)@),
                path: views(path@),
                text: final(current)@,
                start: *final(start),
                index: *final(index),
            }) == flushed(
                Gathered {
                    chunks: bodies(old(chunks)@),
                    path: views(path@),
                    text: old(current)@,
                    start: *old(start),
                    index: *old(index),
                },
                url@,
                title@,
            ),
    {
        let (from, to) = trim_bounds(current);
        if to == from {
            return;
        }
        let end = add_sat(*start, byte_length(string_of(current).as_str()));
        match self.create_chunk(url, title, path, current, *index, (*start, end)) {
            Some(c) => {
                let ghost prev = bodies(chunks@);
                chunks.push(c);
                assert(bodies(chunks@) =~= prev.push(c.body()));
                *index = bump(*index);
            },
            None => {},
        }
        *start = end;
        *current = Vec::new();
    }

    /// The chunks made of the pieces of one long chunk.
    pub fn chunk_pieces(
        &self,
        chunk: &KnowledgeChunk,
        pieces: &Vec<String>,
        index: i32,
        out: &mut Vec<KnowledgeChunk>,
    )
        ensures
            all_fresh(old(out)@) ==> all_fresh(final(out)@),
            bodies(final(out)@) == bodies(old(out)@) + piece_chunks(
                chunk.body(),
                views(pieces@),
                pieces@.len() as int,
                index,
                stride_of(self.config.chunk_size, self.config.chunk_overlap),
            ),
    {
        let stride: usize = if self.config.chunk_size >= self.config.chunk_overlap {
            self.config.chunk_size - self.config.chunk_overlap
        } else {
            0
        };
        let header = self.extract_header(chunk.content.as_str());
        let mut k: usize = 0;
        let mut at: i32 = index;
        let mut offset: usize = 0;
        assert(bodies(out@) + Seq::<ChunkBody>::empty() =~= bodies(out@));
        while k < pieces.len()
            invariant
                k <= pieces.len(),
                all_fresh(old(out)@) ==> all_fresh(out@),
                stride == stride_of(self.config.chunk_size, self.config.chunk_overlap),
                header@ == header_of(chunk.content@),
                at == index_after(index, k as int),
                offset == plus_sat(0, k * stride),
                bodies(out@) == bodies(old(out)@) + piece_chunks(
                    chunk.body(),
                    views(pieces@),
                    k as int,
                    index,
                    stride,
                ),
            decreases pieces.len() - k,
        {
            let piece = &pieces[k];
            let mut content = chars_of(header.as_str());
            push_text(&mut content, "\n\n");
            push_text(&mut content, piece.as_str());
            let from = add_sat(chunk.char_start, offset);
            let to = add_sat(from, byte_length(piece.as_str()));
            proof {
                assert(from == plus_sat(chunk.char_start as int, k * stride)) by {
                    if k * stride > usize::MAX {
                    } else {
                    }
                }
            }
            let made = KnowledgeChunk {
                id: new_id(),
                source_url: chunk.source_url.clone(),
                source_title: chunk.source_title.clone(),
                chunk_index: at,
                content: string_of(&content),
                section_path: clone_strings(&chunk.section_path),
                char_start: from,
                char_end: to,
            };
            let ghost prev = bodies(out@);
            let ghost before = piece_chunks(chunk.body(), views(pieces@), k as int, index, stride);
            out.push(made);
            proof {
                assert(views(pieces@)[k as int] == piece@);
                let after = piece_chunks(
                    chunk.body(),
                    views(pieces@),
                    k + 1,
                    index,
                    stride,
                );
                assert(after =~= before.push(made.body()));
                assert(bodies(out@) =~= prev.push(made.body()));
                assert(bodies(out@) =~= bodies(old(out)@) + after);
            }
            at = bump(at);
            assert((k + 1) * stride == k * stride + stride) by (nonlinear_arith);
            offset = add_sat(offset, stride);
            k += 1;
        }
    }

    /// The chunks of a list, long ones cut into pieces with an overlap,
    /// all numbered anew from zero.
    pub fn split_with_overlap(&self, chunks: Vec<KnowledgeChunk>) -> (out: Vec<KnowledgeChunk>)
        ensures
            all_fresh(chunks@) ==> all_fresh(out@),
            bodies(out@) == resplit(
                bodies(chunks@),
                chunks@.len() as int,
                self.config.chunk_size,
                self.config.chunk_overlap,
            ),
    {
        let mut out: Vec<KnowledgeChunk> = Vec::new();
        let mut global: i32 = 0;
        let mut i: usize = 0;
        assert(bodies(out@) =~= Seq::empty());
        while i < chunks.len()
            invariant
                i <= chunks.len(),
                all_fresh(chunks@) ==> all_fresh(out@),
                global == index_after(0, out@.len() as int),
                bodies(out@) == resplit(
                    bodies(chunks@),
                    i as int,
                    self.config.chunk_size,
                    self.config.chunk_overlap,
                ),
            decreases chunks.len() - i,
        {
            let chunk = &chunks[i];
            assert(bodies(chunks@)[i as int] == chunk.body());
            let body = self.extract_content_without_header(chunk.content.as_str());
            if byte_length(body.as_str()) <= self.config.chunk_size {
                let mut kept = chunk.clone();
                kept.chunk_index = global;
                let ghost prev = bodies(out@);
                out.push(kept);
                assert(bodies(out@) =~= prev.push(kept.body()));
            } else {
                let pieces = self.split_text_with_overlap(body.as_str());
                self.chunk_pieces(chunk, &pieces, global, &mut out);
            }
            global = if out.len() > i32::MAX as usize {
                i32::MAX
            } else {
                out.len() as i32
            };
            i += 1;
        }
        out
    }

    /// The chunks of a text: by its headers, and long ones cut again.
    pub fn chunk_markdown(&self, url: &str, title: &str, markdown: &str) -> (out: Vec<
        KnowledgeChunk,
    >)
        ensures
            all_fresh(out@),
            bodies(out@) == chunks_of(
                markdown@,
                url@,
                title@,
                self.config.chunk_size,
                self.config.chunk_overlap,
            ),
    {
        let sections = self.chunk_sections(url, title, markdown);
        self.split_with_overlap(sections)
    }

    /// The text between two positions of a page, made plain and trimmed,
    /// where it holds more than white space.
    fn plain_title(&self, html: &Vec<char>, from: usize, to: usize) -> (r: Option<String>)
        requires
            from <= to <= html.len(),
        ensures
            r.is_some() == (match html_text(html@.subrange(from as int, to as int), TEXT_WIDTH as int) {
                Some(t) => trimmed(t).len() > 0,
                None => false,
            }),
            r is Some ==> r->0@ == trimmed(
                html_text(html@.subrange(from as int, to as int), TEXT_WIDTH as int)->0,
            ),
    {
        let inner = string_of_range(html, from, to);
        match html_to_text(inner.as_str(), TEXT_WIDTH) {
            Some(text) => {
                let all = chars_of(text.as_str());
                let (a, b) = trim_bounds(&all);
                if b > a {
                    Some(string_of_range(&all, a, b))
                } else {
                    None
                }
            },
            None => None,
        }
    }

    /// The title of a page.
    pub fn extract_title(&self, html: &str) -> (r: String)
        ensures
            r@ == title_of(html@),
    {
        let all = chars_of(html);
        proof {
            reveal_strlit("<title>");
            reveal_strlit("</title>");
            reveal_strlit("<h1");
            reveal_strlit(">");
            reveal_strlit("</h1>");
        }
        match index_of_text(&all, "<title>", 0) {
            Some(start) => match index_of_text(&all, "</title>", start) {
                Some(end) => {
                    assert("<title>"@.len() == 7);
                    assert(start + 7 <= all.len());
                    if end >= start + 7 {
                        match self.plain_title(&all, start + 7, end) {
                            Some(t) => {
                                return t;
                            },
                            None => {},
                        }
                    }
                },
                None => {},
            },
            None => {},
        }
        assert(title_from_tag(html@) is None);
        match index_of_text(&all, "<h1", 0) {
            Some(start) => match index_of_text(&all, ">", start) {
                Some(open_end) => {
                    assert(">"@.len() == 1);
                    assert(open_end + 1 <= all.len());
                    match index_of_text(&all, "</h1>", open_end + 1) {
                        Some(end) => {
                            match self.plain_title(&all, open_end + 1, end) {
                                Some(t) => {
                                    return t;
                                },
                                None => {},
                            }
                        },
                        None => {},
                    }
                },
                None => {},
            },
            None => {},
        }
        assert(title_from_heading(html@) is None);
        "Untitled".to_owned()
    }

    /// The title of a page, the digest of its text, and its chunks. A page
    /// that cannot be turned into text is refused.
    pub fn parse_and_chunk(&self, url: &str, html: &str) -> (r: Result<
        (String, String, Vec<KnowledgeChunk>),
        String,
    >)
        ensures
            match r {
                Ok((title, hash, chunks)) => {
                    &&& html_text(html@, TEXT_WIDTH as int) is Some
                    &&& title@ == title_of(html@)
                    &&& hash@ == hex_text(sha256(html_text(html@, TEXT_WIDTH as int)->0))
                    &&& all_fresh(chunks@)
                    &&& bodies(chunks@) == chunks_of(
                        html_text(html@, TEXT_WIDTH as int)->0,
                        url@,
                        title@,
                        self.config.chunk_size,
                        self.config.chunk_overlap,
                    )
                },
                Err(e) => html_text(html@, TEXT_WIDTH as int) is None && e@
                    == unreadable_page_message(),
            },
    {
        let title = self.extract_title(html);
        match html_to_text(html, TEXT_WIDTH) {
            Some(markdown) => {
                let hash = self.compute_hash(markdown.as_str());
                let chunks = self.chunk_markdown(url, title.as_str(), markdown.as_str());
                Ok((title, hash, chunks))
            },
            None => Err("failed to convert HTML to text".to_owned()),
        }
    }
}

} // verus!
