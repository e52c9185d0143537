//! Edges between memories: links made by similarity of meaning, and the
//! graph around one memory.

use vstd::prelude::*;
use crate::clock::Timestamp;
use crate::fixed::{saturate, unit, Score, SCALE};
use crate::ident::{is_uuid_text, new_id};
use crate::memory::rows::memory_views;
use crate::memory::store::MemoryStore;
use crate::memory::types::{
    Memory, MemoryGraph, MemoryRelationship, MemoryView, RelationshipKind, RelationshipType,
    RelationshipView,
};
use crate::text::same_text;

verus! {

/// A memory that is close in meaning to another: its identifier and how
/// similar it is.
#[derive(Debug)]
pub struct LinkCandidate {
    pub id: String,
    pub similarity: Score,
}

/// The views of a list of relationships.
pub open spec fn edge_views(v: Seq<MemoryRelationship>) -> Seq<RelationshipView> {
    Seq::new(v.len(), |i: int| v[i]@)
}

/// An edge without its identifier.
pub open spec fn unnamed(e: RelationshipView) -> RelationshipView {
    RelationshipView {
        id: Seq::empty(),
        source_id: e.source_id,
        target_id: e.target_id,
        relationship_type: e.relationship_type,
        strength: e.strength,
        description: e.description,
        created_at: e.created_at,
    }
}

/// The edges of a list without their identifiers.
pub open spec fn unnamed_edges(v: Seq<MemoryRelationship>) -> Seq<RelationshipView> {
    Seq::new(v.len(), |i: int| unnamed(v[i]@))
}

/// Whether every edge of a list has an identifier of the shape of a UUID.
pub open spec fn all_named(v: Seq<MemoryRelationship>) -> bool {
    forall|i: int| 0 <= i < v.len() ==> is_uuid_text((#[trigger] v[i]).id@)
}

/// What an automatic link says of itself.
pub open spec fn auto_link_description() -> Seq<char> {
    "Automatically linked by semantic similarity"@
}

/// The automatic link from `source` to `target`, without an identifier.
pub open spec fn auto_edge(source: Seq<char>, target: Seq<char>, similarity: Score, now: Timestamp)
    -> RelationshipView {
    RelationshipView {
        id: Seq::empty(),
        source_id: source,
        target_id: target,
        relationship_type: RelationshipKind::AutoLinked,
        strength: Score { micros: unit(similarity.micros as int) as i64 },
        description: auto_link_description(),
        created_at: now,
    }
}

/// How many of the first `n` candidates are linked: those that are not
/// the memory itself and are more similar than the threshold, up to `max`
/// of them.
pub open spec fn links_made(
    candidates: Seq<LinkCandidate>,
    n: int,
    own: Seq<char>,
    threshold: Score,
    max: int,
) -> int
    decreases n,
{
    if n <= 0 {
        0
    } else {
        let before = links_made(candidates, n - 1, own, threshold, max);
        if before < max && candidates[n - 1].id@ != own && candidates[n - 1].similarity.micros
            > threshold.micros {
            before + 1
        } else {
            before
        }
    }
}

/// Whether the candidate at place `k` is linked.
pub open spec fn is_linked(
    candidates: Seq<LinkCandidate>,
    k: int,
    own: Seq<char>,
    threshold: Score,
    max: int,
) -> bool {
    &&& 0 <= k < candidates.len()
    &&& links_made(candidates, k, own, threshold, max) < max
    &&& candidates[k].id@ != own
    &&& candidates[k].similarity.micros > threshold.micros
}

/// The automatic links for the first `n` candidates, without identifiers:
/// for each linked candidate an edge to it, and one back where links go
/// both ways.
pub open spec fn auto_edges(
    candidates: Seq<LinkCandidate>,
    n: int,
    own: Seq<char>,
    threshold: Score,
    max: int,
    both_ways: bool,
    now: Timestamp,
) -> Seq<RelationshipView>
    decreases n,
{
    if n <= 0 {
        Seq::empty()
    } else {
        let before = auto_edges(candidates, n - 1, own, threshold, max, both_ways, now);
        let c = candidates[n - 1];
        if !is_linked(candidates, n - 1, own, threshold, max) {
            before
        } else if both_ways {
            before.push(auto_edge(own, c.id@, c.similarity, now)).push(
                auto_edge(c.id@, own, c.similarity, now),
            )
        } else {
            before.push(auto_edge(own, c.id@, c.similarity, now))
        }
    }
}

/// The other end of an edge that starts or ends at `root`.
pub open spec fn other_end(e: RelationshipView, root: Seq<char>) -> Option<Seq<char>> {
    if e.source_id == root {
        Some(e.target_id)
    } else if e.target_id == root {
        Some(e.source_id)
    } else {
        None
    }
}

/// The other ends of the first `n` edges that start or end at `root`,
/// each once, in the order of the edges.
pub open spec fn other_ends(edges: Seq<RelationshipView>, root: Seq<char>, n: int) -> Seq<Seq<char>>
    decreases n,
{
    if n <= 0 {
        Seq::empty()
    } else {
        let before = other_ends(edges, root, n - 1);
        match other_end(edges[n - 1], root) {
            Some(o) => if before.contains(o) {
                before
            } else {
                before.push(o)
            },
            None => before,
        }
    }
}

/// Whether some edge leads from `root` to `id` or back.
pub open spec fn is_neighbour(edges: Seq<RelationshipView>, root: Seq<char>, id: Seq<char>) -> bool {
    exists|i: int| 0 <= i < edges.len() && other_end(#[trigger] edges[i], root) == Some(id)
}

/// Whether a memory of the list has the identifier `id`.
pub open spec fn has_id(memories: Seq<MemoryView>, id: Seq<char>) -> bool {
    exists|i: int| 0 <= i < memories.len() && (#[trigger] memories[i]).id == id
}

/// The memories of the graph after the first `n` of those that were
/// looked up: the root, and each neighbour once.
pub open spec fn graph_memories(
    root: MemoryView,
    edges: Seq<RelationshipView>,
    found: Seq<MemoryView>,
    n: int,
) -> Seq<MemoryView>
    decreases n,
{
    if n <= 0 {
        seq![root]
    } else {
        let before = graph_memories(root, edges, found, n - 1);
        let m = found[n - 1];
        if is_neighbour(edges, root.id, m.id) && !has_id(before, m.id) {
            before.push(m)
        } else {
            before
        }
    }
}

/// The first `n` edges that join the root to a memory of the graph.
pub open spec fn graph_edges(
    edges: Seq<RelationshipView>,
    root: Seq<char>,
    present: Seq<MemoryView>,
    n: int,
) -> Seq<RelationshipView>
    decreases n,
{
    if n <= 0 {
        Seq::empty()
    } else {
        let before = graph_edges(edges, root, present, n - 1);
        match other_end(edges[n - 1], root) {
            Some(o) => if has_id(present, o) {
                before.push(edges[n - 1])
            } else {
                before
            },
            None => before,
        }
    }
}

/// Every edge of the graph joins two memories of the graph.
pub proof fn lemma_graph_has_no_dangling_edge(
    edges: Seq<RelationshipView>,
    root: Seq<char>,
    present: Seq<MemoryView>,
    n: int,
)
    requires
        has_id(present, root),
    ensures
        forall|i: int|
            0 <= i < graph_edges(edges, root, present, n).len() ==> has_id(
                present,
                (#[trigger] graph_edges(edges, root, present, n)[i]).source_id,
            ) && has_id(present, graph_edges(edges, root, present, n)[i].target_id),
    decreases n,
{
    if n > 0 {
        lemma_graph_has_no_dangling_edge(edges, root, present, n - 1);
        let before = graph_edges(edges, root, present, n - 1);
        let after = graph_edges(edges, root, present, n);
        assert forall|i: int| 0 <= i < after.len() implies has_id(
            present,
            (#[trigger] after[i]).source_id,
        ) && has_id(present, after[i].target_id) by {
            if i < before.len() {
                assert(after[i] == before[i]);
            }
        }
    }
}

/// Whether a memory of the list has the identifier `id`.
pub fn contains_id(memories: &Vec<Memory>, id: &str) -> (r: bool)
    ensures
        r == has_id(memory_views(memories@), id@),
{
    let mut i: usize = 0;
    while i < memories.len()
        invariant
            i <= memories.len(),
            forall|j: int| 0 <= j < i ==> (#[trigger] memory_views(memories@)[j]).id != id@,
        decreases memories.len() - i,
    {
        if same_text(memories[i].id.as_str(), id) {
            assert(memory_views(memories@)[i as int].id == id@);
            return true;
        }
        i += 1;
    }
    false
}

/// Whether some edge leads from `root` to `id` or back.
pub fn touches(edges: &Vec<MemoryRelationship>, root: &str, id: &str) -> (r: bool)
    ensures
        r == is_neighbour(edge_views(edges@), root@, id@),
{
    let mut i: usize = 0;
    while i < edges.len()
        invariant
            i <= edges.len(),
            forall|j: int|
                0 <= j < i ==> other_end(#[trigger] edge_views(edges@)[j], root@) != Some(id@),
        decreases edges.len() - i,
    {
        let e = &edges[i];
        assert(edge_views(edges@)[i as int] == e@);
        let found = if same_text(e.source_id.as_str(), root) {
            same_text(e.target_id.as_str(), id)
        } else if same_text(e.target_id.as_str(), root) {
            same_text(e.source_id.as_str(), id)
        } else {
            false
        };
        if found {
            return true;
        }
        i += 1;
    }
    false
}

/// The views of a list of candidates.
pub open spec fn link_views(v: Seq<LinkCandidate>) -> Seq<(Seq<char>, Score)> {
    Seq::new(v.len(), |i: int| (v[i].id@, v[i].similarity))
}

/// The candidates that nearest rows and their cosine distances make: each
/// row that has a distance, with one minus its distance as its
/// similarity.
pub open spec fn candidates_of(nearest: Seq<Memory>, distances: Seq<Score>) -> Seq<
    (Seq<char>, Score),
> {
    Seq::new(
        if distances.len() < nearest.len() {
            distances.len()
        } else {
            nearest.len()
        },
        |i: int| (nearest[i]@.id, Score { micros: saturate(SCALE - distances[i].micros) as i64 }),
    )
}

impl MemoryStore {
    /// The automatic links for a newly stored memory, as the clock
    /// stands. `candidates` are the memories nearest to it, the nearest
    /// first, each with its similarity.
    pub fn auto_link(&self, memory: &Memory, candidates: &Vec<LinkCandidate>) -> (edges: Vec<
        MemoryRelationship,
    >)
        ensures
            all_named(edges@),
            !self.config.auto_linking_enabled ==> edges@.len() == 0,
            self.config.auto_linking_enabled ==> exists|now: Timestamp|
                unnamed_edges(edges@) == auto_edges(
                    candidates@,
                    candidates@.len() as int,
                    memory@.id,
                    self.config.auto_link_threshold,
                    self.config.max_auto_links_per_memory as int,
                    self.config.bidirectional_links,
                    now,
                ),
    {
        let now = Timestamp::now();
        let edges = self.auto_link_at(memory, candidates, now);
        proof {
            if self.config.auto_linking_enabled {
                assert(unnamed_edges(edges@) == auto_edges(
                    candidates@,
                    candidates@.len() as int,
                    memory@.id,
                    self.config.auto_link_threshold,
                    self.config.max_auto_links_per_memory as int,
                    self.config.bidirectional_links,
                    now,
                ));
            }
        }
        edges
    }

    /// The automatic links for a newly stored memory, made at `now`: none
    /// where linking is disabled; else, for each of the nearest memories
    /// that is more similar than the threshold, up to the largest number
    /// of links, an edge to it, and one back where links go both ways.
    pub fn auto_link_at(&self, memory: &Memory, candidates: &Vec<LinkCandidate>, now: Timestamp)
        -> (edges: Vec<MemoryRelationship>)
        ensures
            all_named(edges@),
            !self.config.auto_linking_enabled ==> edges@.len() == 0,
            self.config.auto_linking_enabled ==> unnamed_edges(edges@) == auto_edges(
                candidates@,
                candidates@.len() as int,
                memory@.id,
                self.config.auto_link_threshold,
                self.config.max_auto_links_per_memory as int,
                self.config.bidirectional_links,
                now,
            ),
    {
        let mut edges: Vec<MemoryRelationship> = Vec::new();
        if !self.config.auto_linking_enabled {
            return edges;
        }
        let threshold = self.config.auto_link_threshold;
        let max = self.config.max_auto_links_per_memory;
        let both_ways = self.config.bidirectional_links;
        let mut made: usize = 0;
        let mut i: usize = 0;
        assert(unnamed_edges(edges@) =~= Seq::empty());
        while i < candidates.len()
            invariant
                i <= candidates.len(),
                made <= i,
                threshold == self.config.auto_link_threshold,
                max == self.config.max_auto_links_per_memory,
                both_ways == self.config.bidirectional_links,
                all_named(edges@),
                made == links_made(candidates@, i as int, memory@.id, threshold, max as int),
                unnamed_edges(edges@) == auto_edges(
                    candidates@,
                    i as int,
                    memory@.id,
                    threshold,
                    max as int,
                    both_ways,
                    now,
                ),
            decreases candidates.len() - i,
        {
            let c = &candidates[i];
            if made < max && !same_text(c.id.as_str(), memory.id.as_str()) && c.similarity.micros
                > threshold.micros {
                let ghost prev = unnamed_edges(edges@);
                let forward = MemoryRelationship {
                    id: new_id(),
                    source_id: memory.id.clone(),
                    target_id: c.id.clone(),
                    relationship_type: RelationshipType::AutoLinked,
                    strength: c.similarity.clamp_unit(),
                    description: "Automatically linked by semantic similarity".to_owned(),
                    created_at: now,
                };
                edges.push(forward);
                assert(unnamed_edges(edges@) =~= prev.push(
                    auto_edge(memory@.id, c.id@, c.similarity, now),
                ));
                if both_ways {
                    let ghost prev = unnamed_edges(edges@);
                    let back = MemoryRelationship {
                        id: new_id(),
                        source_id: c.id.clone(),
                        target_id: memory.id.clone(),
                        relationship_type: RelationshipType::AutoLinked,
                        strength: c.similarity.clamp_unit(),
                        description: "Automatically linked by semantic similarity".to_owned(),
                        created_at: now,
                    };
                    edges.push(back);
                    assert(unnamed_edges(edges@) =~= prev.push(
                        auto_edge(c.id@, memory@.id, c.similarity, now),
                    ));
                }
                made += 1;
            }
            i += 1;
        }
        edges
    }

    /// How many nearest rows are asked of the table to link a new memory:
    /// none where linking is disabled; else one more than the largest
    /// number of links, as the memory itself may be among them.
    pub fn auto_link_reach(&self) -> (n: usize)
        ensures
            n == if !self.config.auto_linking_enabled {
                0
            } else if self.config.max_auto_links_per_memory < usize::MAX {
                self.config.max_auto_links_per_memory + 1
            } else {
                usize::MAX as int
            },
    {
        if !self.config.auto_linking_enabled {
            0
        } else if self.config.max_auto_links_per_memory < usize::MAX {
            self.config.max_auto_links_per_memory + 1
        } else {
            usize::MAX
        }
    }

    /// The candidates that nearest rows and their cosine distances make.
    pub fn link_candidates(nearest: &Vec<Memory>, distances: &Vec<Score>) -> (out: Vec<
        LinkCandidate,
    >)
        ensures
            link_views(out@) == candidates_of(nearest@, distances@),
    {
        let count: usize = if distances.len() < nearest.len() {
            distances.len()
        } else {
            nearest.len()
        };
        let mut out: Vec<LinkCandidate> = Vec::new();
        let mut i: usize = 0;
        while i < count
            invariant
                i <= count,
                count <= nearest.len(),
                count <= distances.len(),
                out@.len() == i,
                forall|j: int|
                    0 <= j < i ==> (#[trigger] out@[j]).id@ == nearest@[j]@.id && out@[j].similarity.micros
                        == saturate(SCALE - distances@[j].micros),
            decreases count - i,
        {
            out.push(
                LinkCandidate {
                    id: nearest[i].id.clone(),
                    similarity: Score::one().minus(distances[i]),
                },
            );
            i += 1;
        }
        assert(link_views(out@) =~= candidates_of(nearest@, distances@));
        out
    }

    /// The identifiers of the memories to look up for the graph around
    /// `root_id`: the other end of each edge that starts or ends there,
    /// each once, in the order of the edges.
    pub fn neighbour_ids(root_id: &str, relationships: &Vec<MemoryRelationship>) -> (ids: Vec<
        String,
    >)
        ensures
            crate::text::views(ids@) == other_ends(
                edge_views(relationships@),
                root_id@,
                relationships@.len() as int,
            ),
    {
        let mut ids: Vec<String> = Vec::new();
        let mut i: usize = 0;
        assert(crate::text::views(ids@) =~= Seq::empty());
        while i < relationships.len()
            invariant
                i <= relationships.len(),
                crate::text::views(ids@) == other_ends(
                    edge_views(relationships@),
                    root_id@,
                    i as int,
                ),
            decreases relationships.len() - i,
        {
            let e = &relationships[i];
            assert(edge_views(relationships@)[i as int] == e@);
            let other: Option<&String> = if same_text(e.source_id.as_str(), root_id) {
                Some(&e.target_id)
            } else if same_text(e.target_id.as_str(), root_id) {
                Some(&e.source_id)
            } else {
                None
            };
            match other {
                Some(o) => {
                    proof {
                        crate::memory::filters::lemma_has_text_views(ids@, o@);
                    }
                    if !crate::text::contains_text(&ids, o.as_str()) {
                        let ghost prev = crate::text::views(ids@);
                        ids.push(o.clone());
                        assert(crate::text::views(ids@) =~= prev.push(o@));
                    }
                },
                None => {},
            }
            i += 1;
        }
        ids
    }

    /// The graph around a memory: the memory, its neighbours one edge
    /// away, and the edges that join them. `relationships` are the edges
    /// that start or end at the memory; `found` are the memories that the
    /// lookup of their other ends gave. An edge whose other end was not
    /// found is left out.
    pub fn memory_graph(
        root: &Memory,
        relationships: &Vec<MemoryRelationship>,
        found: &Vec<Memory>,
    ) -> (graph: MemoryGraph)
        ensures
            graph.root@ == root@.id,
            memory_views(graph.memories@) == graph_memories(
                root@,
                edge_views(relationships@),
                memory_views(found@),
                found@.len() as int,
            ),
            edge_views(graph.relationships@) == graph_edges(
                edge_views(relationships@),
                root@.id,
                memory_views(graph.memories@),
                relationships@.len() as int,
            ),
    {
        let mut memories: Vec<Memory> = Vec::new();
        memories.push(root.clone());
        assert(memory_views(memories@) =~= seq![root@]);
        let mut i: usize = 0;
        while i < found.len()
            invariant
                i <= found.len(),
                memory_views(memories@) == graph_memories(
                    root@,
                    edge_views(relationships@),
                    memory_views(found@),
                    i as int,
                ),
            decreases found.len() - i,
        {
            let m = &found[i];
            assert(memory_views(found@)[i as int] == m@);
            if touches(relationships, root.id.as_str(), m.id.as_str()) && !contains_id(
                &memories,
                m.id.as_str(),
            ) {
                let ghost prev = memory_views(memories@);
                memories.push(m.clone());
                assert(memory_views(memories@) =~= prev.push(m@));
            }
            i += 1;
        }
        let mut edges: Vec<MemoryRelationship> = Vec::new();
        let mut j: usize = 0;
        assert(edge_views(edges@) =~= Seq::empty());
        while j < relationships.len()
            invariant
                j <= relationships.len(),
                edge_views(edges@) == graph_edges(
                    edge_views(relationships@),
                    root@.id,
                    memory_views(memories@),
                    j as int,
                ),
            decreases relationships.len() - j,
        {
            let e = &relationships[j];
            assert(edge_views(relationships@)[j as int] == e@);
            let keep = if same_text(e.source_id.as_str(), root.id.as_str()) {
                contains_id(&memories, e.target_id.as_str())
            } else if same_text(e.target_id.as_str(), root.id.as_str()) {
                contains_id(&memories, e.source_id.as_str())
            } else {
                false
            };
            if keep {
                let ghost prev = edge_views(edges@);
                edges.push(e.clone());
                assert(edge_views(edges@) =~= prev.push(e@));
            }
            j += 1;
        }
        MemoryGraph { root: root.id.clone(), memories, relationships: edges }
    }
}

} // verus!
