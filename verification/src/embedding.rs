//! What surrounds the embedder: the shape of its model name and the
//! shortening of long outputs.

use vstd::prelude::*;
use vstd::string::StringExecFns;
use vstd::utf8::{
    encode_utf8, encode_utf8_valid_utf8, is_char_boundary, is_char_boundary_start_end_of_seq,
};
use octolib::embedding::types::EmbeddingProviderType;
use crate::bytes::{byte_len, byte_length, slice_between, text_between};
use crate::config::{Config, EmbeddingConfig};
use crate::text::{
    chars_of, find_first, index_of_text, push_text, string_of, string_of_range,
    trimmed, unicode_lowercase,
};

verus! {

/// How many bytes count as one token when a text is shortened.
pub const BYTES_PER_TOKEN: usize = 4;

/// The mark that stands behind a text that was cut.
pub open spec fn truncation_mark() -> Seq<char> {
    "...[truncated]"@
}

/// A text cut to `max_tokens` tokens of four bytes each, with a mark where
/// something was cut; `max_tokens` of zero cuts nothing. Lengths are those
/// of the text in UTF-8.
pub open spec fn truncated_output(text: Seq<char>, max_tokens: int) -> Seq<char> {
    if max_tokens == 0 || byte_len(text) <= BYTES_PER_TOKEN * max_tokens {
        text
    } else {
        text_between(encode_utf8(text), 0, BYTES_PER_TOKEN * max_tokens) + truncation_mark()
    }
}

/// Whether a text can be cut to `max_tokens` tokens: the place of the cut
/// is a number of bytes that the machine can count, and, where something is
/// cut, no character lies across it.
pub open spec fn can_truncate(text: Seq<char>, max_tokens: int) -> bool {
    &&& BYTES_PER_TOKEN * max_tokens <= usize::MAX
    &&& 0 < BYTES_PER_TOKEN * max_tokens < byte_len(text) ==> is_char_boundary(
        encode_utf8(text),
        BYTES_PER_TOKEN * max_tokens,
    )
}

/// A text cut to `max_tokens` tokens.
pub fn truncate_output(text: &str, max_tokens: usize) -> (r: String)
    requires
        can_truncate(text@, max_tokens as int),
    ensures
        r@ == truncated_output(text@, max_tokens as int),
{
    if max_tokens == 0 {
        return text.to_owned();
    }
    let max_bytes: usize = max_tokens * BYTES_PER_TOKEN;
    if byte_length(text) <= max_bytes {
        return text.to_owned();
    }
    proof {
        encode_utf8_valid_utf8(text@);
        is_char_boundary_start_end_of_seq(encode_utf8(text@));
    }
    let mut out = slice_between(text, 0, max_bytes).to_owned();
    out.append("...[truncated]");
    out
}

/// A text cut to `max_tokens` tokens, where it can be cut; `None` where
/// the cut would lie inside a character or beyond what the machine counts.
pub fn try_truncate_output(text: &str, max_tokens: usize) -> (r: Option<String>)
    ensures
        match r {
            Some(out) => can_truncate(text@, max_tokens as int) && out@ == truncated_output(
                text@,
                max_tokens as int,
            ),
            None => !can_truncate(text@, max_tokens as int),
        },
{
    if max_tokens > usize::MAX / BYTES_PER_TOKEN {
        return None;
    }
    let max_bytes: usize = max_tokens * BYTES_PER_TOKEN;
    if 0 < max_bytes && max_bytes < byte_length(text) && !text.is_char_boundary(max_bytes) {
        return None;
    }
    Some(truncate_output(text, max_tokens))
}

/// The two parts of a model name of the form `provider:model`, cut at the
/// first colon; `None` where there is no colon.
pub open spec fn provider_and_model(name: Seq<char>) -> Option<(Seq<char>, Seq<char>)> {
    let at = find_first(name, ":"@, 0);
    if at >= 0 {
        Some((name.take(at), name.skip(at + 1)))
    } else {
        None
    }
}

/// The two parts of a model name of the form `provider:model`.
pub fn split_provider_model(name: &str) -> (r: Option<(String, String)>)
    ensures
        match r {
            Some((p, m)) => provider_and_model(name@) == Some((p@, m@)),
            None => provider_and_model(name@) is None,
        },
{
    let all = chars_of(name);
    match index_of_text(&all, ":", 0) {
        Some(at) => {
            proof {
                reveal_strlit(":");
            }
            let provider = string_of_range(&all, 0, at);
            let model = string_of_range(&all, at + 1, all.len());
            assert(all@.subrange(0, at as int) =~= all@.take(at as int));
            assert(all@.subrange(at + 1, all.len() as int) =~= all@.skip(at + 1));
            Some((provider, model))
        },
        None => None,
    }
}

/// The providers of embedders.
#[derive(Clone, Copy, Debug, PartialEq, Eq, Structural)]
pub enum EmbeddingProviderKind {
    FastEmbed,
    Jina,
    Voyage,
    Google,
    HuggingFace,
    Onnx,
    OpenAI,
    OpenRouter,
    OctoHub,
    Local,
}

/// The provider that a name in lower case stands for.
pub open spec fn provider_of(name: Seq<char>) -> Option<EmbeddingProviderKind> {
    if name == "fastembed"@ {
        Some(EmbeddingProviderKind::FastEmbed)
    } else if name == "jinaai"@ || name == "jina"@ {
        Some(EmbeddingProviderKind::Jina)
    } else if name == "voyageai"@ || name == "voyage"@ {
        Some(EmbeddingProviderKind::Voyage)
    } else if name == "google"@ {
        Some(EmbeddingProviderKind::Google)
    } else if name == "huggingface"@ || name == "hf"@ {
        Some(EmbeddingProviderKind::HuggingFace)
    } else if name == "onnx"@ || name == "ort"@ {
        Some(EmbeddingProviderKind::Onnx)
    } else if name == "openai"@ {
        Some(EmbeddingProviderKind::OpenAI)
    } else if name == "openrouter"@ {
        Some(EmbeddingProviderKind::OpenRouter)
    } else if name == "octohub"@ {
        Some(EmbeddingProviderKind::OctoHub)
    } else if name == "local"@ {
        Some(EmbeddingProviderKind::Local)
    } else {
        None
    }
}

/// The provider and the model that the name of an embedder stands for:
/// the name, trimmed, is cut at its first colon; both parts are trimmed
/// and must not be empty; the first, in lower case, must name a provider.
pub open spec fn embedder_of(name: Seq<char>) -> Option<(EmbeddingProviderKind, Seq<char>)> {
    let t = trimmed(name);
    let at = find_first(t, ":"@, 0);
    if at < 0 {
        None
    } else {
        let provider = trimmed(t.take(at));
        let model = trimmed(t.skip(at + 1));
        if provider.len() == 0 || model.len() == 0 {
            None
        } else {
            match provider_of(unicode_lowercase(provider)) {
                Some(kind) => Some((kind, model)),
                None => None,
            }
        }
    }
}

/// Reads the name of an embedder with
/// `octolib::embedding::parse_provider_model`, which trims the name, cuts
/// it at the first colon, trims both parts, refuses an empty part, and
/// looks the first part up, in lower case, among the providers it knows.
#[verifier::external_body]
pub(crate) fn parse_embedder(name: &str) -> (r: Option<(EmbeddingProviderKind, String)>)
    ensures
        match r {
            Some((kind, model)) => embedder_of(name@) == Some((kind, model@)),
            None => embedder_of(name@) is None,
        },
{
    let (provider, model) = octolib::embedding::parse_provider_model(name).ok()?;
    let kind = match provider {
        EmbeddingProviderType::FastEmbed => EmbeddingProviderKind::FastEmbed,
        EmbeddingProviderType::Jina => EmbeddingProviderKind::Jina,
        EmbeddingProviderType::Voyage => EmbeddingProviderKind::Voyage,
        EmbeddingProviderType::Google => EmbeddingProviderKind::Google,
        EmbeddingProviderType::HuggingFace => EmbeddingProviderKind::HuggingFace,
        EmbeddingProviderType::Onnx => EmbeddingProviderKind::Onnx,
        EmbeddingProviderType::OpenAI => EmbeddingProviderKind::OpenAI,
        EmbeddingProviderType::OpenRouter => EmbeddingProviderKind::OpenRouter,
        EmbeddingProviderType::OctoHub => EmbeddingProviderKind::OctoHub,
        EmbeddingProviderType::Local => EmbeddingProviderKind::Local,
    };
    Some((kind, model))
}

/// What is said of an embedder name that cannot be read.
pub open spec fn embedder_message(name: Seq<char>) -> Seq<char> {
    "Invalid embedding model, expected provider:model, got: "@ + name
}

/// The provider and the model of the embedder that the settings name; a
/// name that cannot be read is refused.
pub fn embedding_provider_parts(config: &Config) -> (r: Result<
    (EmbeddingProviderKind, String),
    String,
>)
    ensures
        match r {
            Ok((kind, model)) => embedder_of(config.embedding.model@) == Some((kind, model@)),
            Err(e) => embedder_of(config.embedding.model@) is None && e@ == embedder_message(
                config.embedding.model@,
            ),
        },
{
    match parse_embedder(config.embedding.model.as_str()) {
        Some(parts) => Ok(parts),
        None => {
            let mut text: Vec<char> = Vec::new();
            push_text(&mut text, "Invalid embedding model, expected provider:model, got: ");
            push_text(&mut text, config.embedding.model.as_str());
            Err(string_of(&text))
        },
    }
}

/// How many tokens a text of `bytes` bytes counts as: a token for every
/// four bytes, rounded up.
pub open spec fn token_estimate(bytes: int) -> int {
    (bytes + 3) / 4
}

/// What cutting the first `n` texts into batches leaves: the batches that
/// are full, the batch that is open, and the tokens in it. A text goes
/// into the open batch unless that holds `batch_size` texts already or
/// would exceed `max_tokens`; then the open batch is closed first.
pub open spec fn batched(texts: Seq<String>, n: int, batch_size: int, max_tokens: int) -> (
    Seq<Seq<String>>,
    Seq<String>,
    int,
)
    decreases n,
{
    if n <= 0 {
        (Seq::empty(), Seq::empty(), 0)
    } else {
        let (full, open, tokens) = batched(texts, n - 1, batch_size, max_tokens);
        let cost = token_estimate(byte_len(texts[n - 1]@) as int);
        if open.len() > 0 && (open.len() >= batch_size || tokens + cost > max_tokens) {
            (full.push(open), seq![texts[n - 1]], cost)
        } else {
            (full, open.push(texts[n - 1]), tokens + cost)
        }
    }
}

/// The batches in which texts are sent to the embedder: in order, none
/// empty, each of at most `batch_size` texts and, unless it is a single
/// text, of at most `max_tokens` tokens.
pub open spec fn batches_of(texts: Seq<String>, batch_size: int, max_tokens: int) -> Seq<
    Seq<String>,
> {
    let (full, open, _tokens) = batched(texts, texts.len() as int, batch_size, max_tokens);
    if open.len() > 0 {
        full.push(open)
    } else {
        full
    }
}

/// All texts of a list of batches, in order.
pub open spec fn flattened(batches: Seq<Seq<String>>) -> Seq<String>
    decreases batches.len(),
{
    if batches.len() == 0 {
        Seq::empty()
    } else {
        flattened(batches.drop_last()) + batches.last()
    }
}

/// While texts are cut into batches, no text is lost or moved; no full
/// batch is empty; no batch has more than `batch_size` texts, unless that
/// is zero, when each batch has one; and the open batch is within the
/// budget of tokens unless it holds a single text.
pub proof fn lemma_batched(texts: Seq<String>, n: int, batch_size: int, max_tokens: int)
    requires
        0 <= n <= texts.len(),
    ensures
        flattened(batched(texts, n, batch_size, max_tokens).0) + batched(
            texts,
            n,
            batch_size,
            max_tokens,
        ).1 == texts.take(n),
        forall|k: int|
            0 <= k < batched(texts, n, batch_size, max_tokens).0.len() ==> 1 <= (#[trigger] batched(
                texts,
                n,
                batch_size,
                max_tokens,
            ).0[k]).len() <= (if batch_size < 1 {
                1
            } else {
                batch_size
            }),
        batched(texts, n, batch_size, max_tokens).1.len() <= (if batch_size < 1 {
            1
        } else {
            batch_size
        }),
        n > 0 ==> batched(texts, n, batch_size, max_tokens).1.len() >= 1,
        batched(texts, n, batch_size, max_tokens).1.len() > 1 ==> batched(
            texts,
            n,
            batch_size,
            max_tokens,
        ).2 <= max_tokens,
    decreases n,
{
    if n > 0 {
        lemma_batched(texts, n - 1, batch_size, max_tokens);
        let (full, open, tokens) = batched(texts, n - 1, batch_size, max_tokens);
        let after = batched(texts, n, batch_size, max_tokens);
        assert(texts.take(n) =~= texts.take(n - 1).push(texts[n - 1]));
        if open.len() > 0 && (open.len() >= batch_size || tokens + token_estimate(
            byte_len(texts[n - 1]@) as int,
        ) > max_tokens) {
            assert(full.push(open).drop_last() =~= full);
            assert(flattened(full.push(open)) + seq![texts[n - 1]] =~= (flattened(full) + open).push(
                texts[n - 1],
            ));
            assert forall|k: int| 0 <= k < after.0.len() implies 1 <= (#[trigger] after.0[k]).len()
                <= (if batch_size < 1 {
                1
            } else {
                batch_size
            }) by {
                if k < full.len() {
                    assert(after.0[k] == full[k]);
                }
            }
        } else {
            assert(flattened(full) + open.push(texts[n - 1]) =~= (flattened(full) + open).push(
                texts[n - 1],
            ));
        }
    } else {
        assert(texts.take(0) =~= Seq::empty());
        assert(flattened(Seq::<Seq<String>>::empty()) + Seq::<String>::empty() =~= Seq::empty());
    }
}

/// The batches hold all texts in order, and none of them is empty or holds
/// more than `batch_size` texts (one where `batch_size` is zero).
pub proof fn lemma_batches(texts: Seq<String>, batch_size: int, max_tokens: int)
    ensures
        flattened(batches_of(texts, batch_size, max_tokens)) == texts,
        forall|k: int|
            0 <= k < batches_of(texts, batch_size, max_tokens).len() ==> 1 <= (#[trigger] batches_of(
                texts,
                batch_size,
                max_tokens,
            )[k]).len() <= (if batch_size < 1 {
                1
            } else {
                batch_size
            }),
{
    lemma_batched(texts, texts.len() as int, batch_size, max_tokens);
    let (full, open, _tokens) = batched(texts, texts.len() as int, batch_size, max_tokens);
    assert(texts.take(texts.len() as int) =~= texts);
    let all = batches_of(texts, batch_size, max_tokens);
    if open.len() > 0 {
        assert(full.push(open).drop_last() =~= full);
        assert forall|k: int| 0 <= k < all.len() implies 1 <= (#[trigger] all[k]).len() <= (
        if batch_size < 1 {
            1
        } else {
            batch_size
        }) by {
            if k < full.len() {
                assert(all[k] == full[k]);
            }
        }
    } else {
        assert(flattened(full) + open =~= flattened(full));
    }
}

/// The batches of a list of lists of strings, as sequences.
pub open spec fn batch_views(v: Seq<Vec<String>>) -> Seq<Seq<String>> {
    Seq::new(v.len(), |i: int| v[i]@)
}

/// The batches in which texts are sent to the embedder, under the caps of
/// the settings.
pub fn embedding_batches(texts: &Vec<String>, config: &EmbeddingConfig) -> (batches: Vec<
    Vec<String>,
>)
    ensures
        batch_views(batches@) == batches_of(
            texts@,
            config.batch_size as int,
            config.max_tokens_per_batch as int,
        ),
{
    let mut batches: Vec<Vec<String>> = Vec::new();
    let mut open: Vec<String> = Vec::new();
    let mut tokens: u128 = 0;
    let mut i: usize = 0;
    assert(batch_views(batches@) =~= Seq::empty());
    while i < texts.len()
        invariant
            i <= texts.len(),
            0 <= tokens <= i * 0x1_0000_0000_0000_0000,
            (batch_views(batches@), open@, tokens as int) == batched(
                texts@,
                i as int,
                config.batch_size as int,
                config.max_tokens_per_batch as int,
            ),
        decreases texts.len() - i,
    {
        let bytes = byte_length(texts[i].as_str());
        let cost: u128 = (bytes as u128 + 3) / 4;
        if open.len() > 0 && (open.len() >= config.batch_size || tokens + cost
            > config.max_tokens_per_batch as u128) {
            let ghost prev = batch_views(batches@);
            let ghost closed = open@;
            batches.push(open);
            assert(batch_views(batches@) =~= prev.push(closed));
            open = Vec::new();
            open.push(texts[i].clone());
            assert(open@ =~= seq![texts@[i as int]]);
            tokens = cost;
        } else {
            open.push(texts[i].clone());
            tokens = tokens + cost;
        }
        i += 1;
    }
    if open.len() > 0 {
        let ghost prev = batch_views(batches@);
        let ghost closed = open@;
        batches.push(open);
        assert(batch_views(batches@) =~= prev.push(closed));
    }
    batches
}

} // verus!
