//! Which memories a query lets pass.

use vstd::prelude::*;
use crate::memory::store::MemoryStore;
use crate::memory::types::{Memory, MemoryQuery, MemoryType, MemoryView};
use crate::text::{contains_text, has_text, same_text, views};

verus! {

/// Whether two lists of texts have a text in common.
pub open spec fn share_text(wanted: Seq<String>, present: Seq<Seq<char>>) -> bool {
    exists|i: int| 0 <= i < wanted.len() && present.contains((#[trigger] wanted[i])@)
}

/// Whether the memory passes every filter of the query: it is of one of the
/// kinds asked for, shares a tag and a file with the query, was made at
/// the commit asked for, is important and certain enough, and was made
/// within the dates given. A filter that is absent lets every memory pass.
pub open spec fn passes_filters(m: MemoryView, q: &MemoryQuery) -> bool {
    &&& match q.memory_types {
        Some(kinds) => kinds@.contains(m.memory_type),
        None => true,
    }
    &&& match q.tags {
        Some(tags) => share_text(tags@, m.metadata.tags),
        None => true,
    }
    &&& match q.related_files {
        Some(files) => share_text(files@, m.metadata.related_files),
        None => true,
    }
    &&& match q.git_commit {
        Some(commit) => m.metadata.git_commit == Some(commit@),
        None => true,
    }
    &&& match q.min_importance {
        Some(least) => m.metadata.importance.micros >= least.micros,
        None => true,
    }
    &&& match q.min_confidence {
        Some(least) => m.metadata.confidence.micros >= least.micros,
        None => true,
    }
    &&& match q.created_after {
        Some(after) => m.created_at.millis >= after.millis,
        None => true,
    }
    &&& match q.created_before {
        Some(before) => m.created_at.millis <= before.millis,
        None => true,
    }
}

/// A list of strings holds a text exactly where its views do.
pub proof fn lemma_has_text_views(v: Seq<String>, s: Seq<char>)
    ensures
        has_text(v, s) == views(v).contains(s),
{
    if has_text(v, s) {
        let i = choose|i: int| 0 <= i < v.len() && #[trigger] v[i]@ == s;
        assert(views(v)[i] == s);
    }
    if views(v).contains(s) {
        let i = choose|i: int| 0 <= i < views(v).len() && views(v)[i] == s;
        assert(v[i]@ == s);
    }
}

/// Whether `kind` is one of `kinds`.
pub fn has_kind(kinds: &Vec<MemoryType>, kind: MemoryType) -> (r: bool)
    ensures
        r == kinds@.contains(kind),
{
    let mut i: usize = 0;
    while i < kinds.len()
        invariant
            i <= kinds.len(),
            forall|j: int| 0 <= j < i ==> kinds@[j] != kind,
        decreases kinds.len() - i,
    {
        if kinds[i] == kind {
            return true;
        }
        i += 1;
    }
    false
}

/// Whether some text of `wanted` is among `present`.
pub fn any_shared(wanted: &Vec<String>, present: &Vec<String>) -> (r: bool)
    ensures
        r == share_text(wanted@, views(present@)),
{
    let mut i: usize = 0;
    while i < wanted.len()
        invariant
            i <= wanted.len(),
            forall|j: int| 0 <= j < i ==> !views(present@).contains((#[trigger] wanted@[j])@),
        decreases wanted.len() - i,
    {
        proof {
            lemma_has_text_views(present@, wanted@[i as int]@);
        }
        if contains_text(present, wanted[i].as_str()) {
            return true;
        }
        i += 1;
    }
    false
}

impl MemoryStore {
    /// Whether the memory passes every filter of the query.
    pub fn matches_filters(&self, memory: &Memory, query: &MemoryQuery) -> (r: bool)
        ensures
            r == passes_filters(memory@, query),
    {
        match &query.memory_types {
            Some(kinds) => {
                if !has_kind(kinds, memory.memory_type) {
                    return false;
                }
            },
            None => {},
        }
        match &query.tags {
            Some(tags) => {
                if !any_shared(tags, &memory.metadata.tags) {
                    return false;
                }
            },
            None => {},
        }
        match &query.related_files {
            Some(files) => {
                if !any_shared(files, &memory.metadata.related_files) {
                    return false;
                }
            },
            None => {},
        }
        match &query.git_commit {
            Some(commit) => {
                match &memory.metadata.git_commit {
                    Some(have) => {
                        if !same_text(have.as_str(), commit.as_str()) {
                            return false;
                        }
                    },
                    None => {
                        return false;
                    },
                }
            },
            None => {},
        }
        match query.min_importance {
            Some(least) => {
                if memory.metadata.importance.micros < least.micros {
                    return false;
                }
            },
            None => {},
        }
        match query.min_confidence {
            Some(least) => {
                if memory.metadata.confidence.micros < least.micros {
                    return false;
                }
            },
            None => {},
        }
        match query.created_after {
            Some(after) => {
                if memory.created_at.millis < after.millis {
                    return false;
                }
            },
            None => {},
        }
        match query.created_before {
            Some(before) => {
                if memory.created_at.millis > before.millis {
                    return false;
                }
            },
            None => {},
        }
        true
    }
}

} // verus!
