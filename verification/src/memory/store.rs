//! The rules of the memory store.
//!
//! The store keeps memories and relationships in two tables of a columnar
//! database. Reading and writing those tables is the caller's part; what
//! is written, what is asked for, and what is made of the rows that come
//! back is decided here.

use vstd::prelude::*;
use crate::clock::{rfc3339_millis, rfc3339_text, Timestamp};
use crate::config::Config;
use crate::fixed::{saturate, unit};
use crate::memory::rows::{
    all_readable, edge_of, edge_row_of, edge_writable, instant_of, json_items, json_text,
    memory_of, memory_to_row, memory_views, readable, relationship_to_row, row_of, row_to_memory,
    row_to_relationship, row_views, unreadable_message, unwritable_message, writable, MemoryRow,
    MemoryRowView, RelationshipRow, RelationshipRowView, RowPredicate, StoreError,
};
use crate::memory::types::{
    Memory, MemoryConfig, MemoryRelationship, MemoryView, };
use crate::text::unicode_lowercase;
use crate::vector_optimizer::{is_index_choice, IndexParams, VectorOptimizer};

verus! {

/// The text with which the embedder is probed for its dimension when a
/// store is first opened.
pub const DIMENSION_PROBE: &'static str = "test";

/// The name of the table of memories.
pub const MEMORIES_TABLE: &'static str = "memories";

/// The name of the table of relationships.
pub const RELATIONSHIPS_TABLE: &'static str = "memory_relationships";

/// The rules of one store: its settings and the dimension of its vectors.
#[derive(Debug)]
pub struct MemoryStore {
    /// The settings of the memory system.
    pub config: MemoryConfig,
    /// The settings of embedding and search.
    pub main_config: Config,
    /// The number of elements of every stored vector, fixed when the store
    /// is made.
    pub vector_dim: usize,
}

impl MemoryStore {
    /// The rules of a store whose embedder answered the probe with a vector
    /// of `vector_dim` elements.
    pub fn new(config: MemoryConfig, main_config: Config, vector_dim: usize) -> (r: MemoryStore)
        ensures
            r.config == config,
            r.main_config == main_config,
            r.vector_dim == vector_dim,
    {
        MemoryStore { config, main_config, vector_dim }
    }
}

/// What is written for a memory: first the rows that `delete_where`
/// chooses are deleted from the table of memories, then `row` is appended
/// with the vector of the memory.
#[derive(Debug)]
pub struct StorePlan {
    pub delete_where: RowPredicate,
    pub row: MemoryRow,
}

/// What is written for a relationship: first the rows that `delete_where`
/// chooses are deleted from the table of relationships, then `row` is
/// appended.
#[derive(Debug)]
pub struct RelationshipPlan {
    pub delete_where: RowPredicate,
    pub row: RelationshipRow,
}

/// What is deleted for a memory: the rows that `memories_where` chooses,
/// from the table of memories; then, as far as it succeeds, the rows that
/// `relationships_where` chooses, from the table of relationships.
#[derive(Debug)]
pub struct DeletePlan {
    pub memories_where: RowPredicate,
    pub relationships_where: RowPredicate,
}

/// What is read for one memory: up to `limit` of the rows that `filter`
/// chooses.
#[derive(Debug)]
pub struct LookupPlan {
    pub filter: RowPredicate,
    pub limit: usize,
}

/// What is done about the index over the vectors.
#[derive(Clone, Copy, Debug, PartialEq, Eq, Structural)]
pub enum IndexAction {
    /// An index is built with these parameters.
    Create(IndexParams),
    /// Nothing is done.
    Keep,
}

/// Which of the two tables are to be made.
#[derive(Clone, Copy, Debug, PartialEq, Eq, Structural)]
pub struct TablesToCreate {
    pub memories: bool,
    pub relationships: bool,
}

/// What kind of values a column holds.
#[derive(Clone, Copy, Debug, PartialEq, Eq, Structural)]
pub enum ColumnKind {
    /// Text.
    Text,
    /// A 32-bit floating-point number.
    Number,
    /// A list of this many 32-bit floating-point numbers.
    Vector(usize),
}

/// One column of a table.
#[derive(Clone, Copy, Debug)]
pub struct Column {
    pub name: &'static str,
    pub kind: ColumnKind,
    pub nullable: bool,
}

/// The table of memories without the rows that have the identifier `id`.
pub open spec fn without_id(table: Seq<MemoryRowView>, id: Seq<char>) -> Seq<MemoryRowView>
    decreases table.len(),
{
    if table.len() == 0 {
        Seq::empty()
    } else if table.last().id == id {
        without_id(table.drop_last(), id)
    } else {
        without_id(table.drop_last(), id).push(table.last())
    }
}

/// The rows of the table of memories that have the identifier `id`.
pub open spec fn rows_with_id(table: Seq<MemoryRowView>, id: Seq<char>) -> Seq<MemoryRowView>
    decreases table.len(),
{
    if table.len() == 0 {
        Seq::empty()
    } else if table.last().id == id {
        rows_with_id(table.drop_last(), id).push(table.last())
    } else {
        rows_with_id(table.drop_last(), id)
    }
}

/// The table of memories after `row` was stored: the rows with its
/// identifier deleted, and the row appended.
pub open spec fn table_after_store(table: Seq<MemoryRowView>, row: MemoryRowView) -> Seq<
    MemoryRowView,
> {
    without_id(table, row.id).push(row)
}

/// The table of relationships without the rows that start or end at the
/// memory `id`.
pub open spec fn without_touching(edges: Seq<RelationshipRowView>, id: Seq<char>) -> Seq<
    RelationshipRowView,
>
    decreases edges.len(),
{
    if edges.len() == 0 {
        Seq::empty()
    } else if edges.last().source_id == id || edges.last().target_id == id {
        without_touching(edges.drop_last(), id)
    } else {
        without_touching(edges.drop_last(), id).push(edges.last())
    }
}

/// The rows of the table of memories that a predicate does not choose:
/// what is left once the chosen rows are deleted.
pub open spec fn without_chosen(table: Seq<MemoryRowView>, p: &RowPredicate) -> Seq<MemoryRowView>
    decreases table.len(),
{
    if table.len() == 0 {
        Seq::empty()
    } else if p.chooses_memory(table.last()) {
        without_chosen(table.drop_last(), p)
    } else {
        without_chosen(table.drop_last(), p).push(table.last())
    }
}

/// The rows of the table of memories that a predicate chooses.
pub open spec fn rows_chosen(table: Seq<MemoryRowView>, p: &RowPredicate) -> Seq<MemoryRowView>
    decreases table.len(),
{
    if table.len() == 0 {
        Seq::empty()
    } else if p.chooses_memory(table.last()) {
        rows_chosen(table.drop_last(), p).push(table.last())
    } else {
        rows_chosen(table.drop_last(), p)
    }
}

impl StorePlan {
    /// The table of memories after the plan was carried out.
    pub open spec fn applied(&self, table: Seq<MemoryRowView>) -> Seq<MemoryRowView> {
        without_chosen(table, &self.delete_where).push(self.row@)
    }
}

/// Every row is either chosen or left: deleting the chosen rows removes as
/// many rows as were chosen.
pub proof fn lemma_chosen_and_left(table: Seq<MemoryRowView>, p: &RowPredicate)
    ensures
        rows_chosen(table, p).len() + without_chosen(table, p).len() == table.len(),
        forall|i: int|
            0 <= i < without_chosen(table, p).len() ==> !p.chooses_memory(
                #[trigger] without_chosen(table, p)[i],
            ),
        forall|i: int|
            0 <= i < rows_chosen(table, p).len() ==> p.chooses_memory(
                #[trigger] rows_chosen(table, p)[i],
            ),
    decreases table.len(),
{
    if table.len() > 0 {
        lemma_chosen_and_left(table.drop_last(), p);
        let left_before = without_chosen(table.drop_last(), p);
        let left = without_chosen(table, p);
        let chosen_before = rows_chosen(table.drop_last(), p);
        let chosen = rows_chosen(table, p);
        assert forall|i: int| 0 <= i < left.len() implies !p.chooses_memory(#[trigger] left[i]) by {
            if i < left_before.len() {
                assert(left[i] == left_before[i]);
            }
        }
        assert forall|i: int| 0 <= i < chosen.len() implies p.chooses_memory(
            #[trigger] chosen[i],
        ) by {
            if i < chosen_before.len() {
                assert(chosen[i] == chosen_before[i]);
            }
        }
    }
}

/// A predicate on the identifier chooses the rows with that identifier.
pub proof fn lemma_id_predicate(table: Seq<MemoryRowView>, p: &RowPredicate, id: Seq<char>)
    requires
        *p matches RowPredicate::IdIs(text) && text@ == id,
    ensures
        without_chosen(table, p) == without_id(table, id),
        rows_chosen(table, p) == rows_with_id(table, id),
    decreases table.len(),
{
    if table.len() > 0 {
        lemma_id_predicate(table.drop_last(), p, id);
    }
}

/// Carrying out the plan for a memory leaves the table as storing its row
/// does.
pub proof fn lemma_plan_applied(table: Seq<MemoryRowView>, plan: &StorePlan)
    requires
        plan.delete_where matches RowPredicate::IdIs(text) && text@ == plan.row@.id,
    ensures
        plan.applied(table) == table_after_store(table, plan.row@),
{
    lemma_id_predicate(table, &plan.delete_where, plan.row@.id);
}

/// Once the rows with an identifier are deleted, none has it, and the
/// rows with another identifier are all still there.
pub proof fn lemma_without_id(table: Seq<MemoryRowView>, id: Seq<char>, other: Seq<char>)
    ensures
        rows_with_id(without_id(table, id), id).len() == 0,
        other != id ==> rows_with_id(without_id(table, id), other) == rows_with_id(table, other),
    decreases table.len(),
{
    if table.len() > 0 {
        lemma_without_id(table.drop_last(), id, other);
        if table.last().id != id {
            let kept = without_id(table.drop_last(), id);
            assert(kept.push(table.last()).drop_last() =~= kept);
        }
    }
}

/// After a memory is stored, the table holds exactly one row with its
/// identifier, the row that was written, and the rows of every other
/// memory as before.
pub proof fn lemma_store_then_get(table: Seq<MemoryRowView>, row: MemoryRowView, other: Seq<char>)
    ensures
        rows_with_id(table_after_store(table, row), row.id) == seq![row],
        other != row.id ==> rows_with_id(table_after_store(table, row), other) == rows_with_id(
            table,
            other,
        ),
{
    lemma_without_id(table, row.id, other);
    let kept = without_id(table, row.id);
    assert(kept.push(row).drop_last() =~= kept);
    assert(rows_with_id(kept, row.id) =~= Seq::empty());
    assert(rows_with_id(kept, row.id).push(row) =~= seq![row]);
}

/// A memory that is written to a row and read back is the same in every
/// stored field, with importance and confidence brought into `[0, 1]`, and
/// has no relevance score; provided that the JSON text of each of its
/// lists reads back as that list, that the RFC 3339 text of each of its
/// instants reads back as that instant, and that the label of its kind,
/// which is in lower case, is its own lower case.
pub proof fn lemma_row_round_trip(m: MemoryView, now: Timestamp)
    requires
        writable(m),
        json_items(json_text(m.metadata.tags)->0) == Some(m.metadata.tags),
        json_items(json_text(m.metadata.related_files)->0) == Some(m.metadata.related_files),
        rfc3339_millis(rfc3339_text(m.created_at.millis as int)->0) == Some(
            m.created_at.millis as int,
        ),
        rfc3339_millis(rfc3339_text(m.updated_at.millis as int)->0) == Some(
            m.updated_at.millis as int,
        ),
        unicode_lowercase(m.memory_type.label()) == m.memory_type.label(),
    ensures
        readable(row_of(m)),
        memory_of(row_of(m), now).id == m.id,
        memory_of(row_of(m), now).memory_type == m.memory_type,
        memory_of(row_of(m), now).title == m.title,
        memory_of(row_of(m), now).content == m.content,
        memory_of(row_of(m), now).created_at == m.created_at,
        memory_of(row_of(m), now).updated_at == m.updated_at,
        memory_of(row_of(m), now).metadata.tags == m.metadata.tags,
        memory_of(row_of(m), now).metadata.related_files == m.metadata.related_files,
        memory_of(row_of(m), now).metadata.git_commit == m.metadata.git_commit,
        memory_of(row_of(m), now).metadata.importance.micros == unit(
            m.metadata.importance.micros as int,
        ),
        memory_of(row_of(m), now).metadata.confidence.micros == unit(
            m.metadata.confidence.micros as int,
        ),
        memory_of(row_of(m), now).relevance_score is None,
{
    crate::memory::types::lemma_label_round_trip(m.memory_type);
}

/// Whether a memory agrees with another in every stored field, with
/// importance and confidence brought into `[0, 1]`, and has no relevance
/// score.
pub open spec fn same_as_stored(back: MemoryView, m: MemoryView) -> bool {
    &&& back.id == m.id
    &&& back.memory_type == m.memory_type
    &&& back.title == m.title
    &&& back.content == m.content
    &&& back.created_at == m.created_at
    &&& back.updated_at == m.updated_at
    &&& back.metadata.tags == m.metadata.tags
    &&& back.metadata.related_files == m.metadata.related_files
    &&& back.metadata.git_commit == m.metadata.git_commit
    &&& back.metadata.importance.micros == unit(m.metadata.importance.micros as int)
    &&& back.metadata.confidence.micros == unit(m.metadata.confidence.micros as int)
    &&& back.relevance_score is None
}

/// A memory that was stored is what a lookup of its identifier gives:
/// the table then holds one row with that identifier, and the row reads as
/// the memory in every stored field; under the same provisos on the texts
/// of lists and instants as for a single row.
pub proof fn lemma_get_after_store(table: Seq<MemoryRowView>, m: MemoryView, now: Timestamp)
    requires
        writable(m),
        json_items(json_text(m.metadata.tags)->0) == Some(m.metadata.tags),
        json_items(json_text(m.metadata.related_files)->0) == Some(m.metadata.related_files),
        rfc3339_millis(rfc3339_text(m.created_at.millis as int)->0) == Some(
            m.created_at.millis as int,
        ),
        rfc3339_millis(rfc3339_text(m.updated_at.millis as int)->0) == Some(
            m.updated_at.millis as int,
        ),
        unicode_lowercase(m.memory_type.label()) == m.memory_type.label(),
    ensures
        rows_with_id(table_after_store(table, row_of(m)), m.id).len() == 1,
        readable(rows_with_id(table_after_store(table, row_of(m)), m.id)[0]),
        same_as_stored(
            memory_of(rows_with_id(table_after_store(table, row_of(m)), m.id)[0], now),
            m,
        ),
{
    lemma_store_then_get(table, row_of(m), m.id);
    lemma_row_round_trip(m, now);
}

/// After a memory is deleted, no row of the table of memories has its
/// identifier, and no row of the table of relationships starts or ends at
/// it.
pub proof fn lemma_delete_leaves_nothing(
    table: Seq<MemoryRowView>,
    edges: Seq<RelationshipRowView>,
    id: Seq<char>,
)
    ensures
        rows_with_id(without_id(table, id), id).len() == 0,
        forall|i: int|
            0 <= i < without_touching(edges, id).len() ==> (#[trigger] without_touching(
                edges,
                id,
            )[i]).source_id != id && without_touching(edges, id)[i].target_id != id,
    decreases edges.len(),
{
    lemma_without_id(table, id, id);
    if edges.len() > 0 {
        lemma_delete_leaves_nothing(table, edges.drop_last(), id);
        let before = without_touching(edges.drop_last(), id);
        let after = without_touching(edges, id);
        assert forall|i: int| 0 <= i < after.len() implies (#[trigger] after[i]).source_id != id
            && after[i].target_id != id by {
            if i < before.len() {
                assert(after[i] == before[i]);
            }
        }
    }
}

/// Once the chosen rows are deleted, an identifier whose rows were all
/// chosen has no row left, and one of whose rows none was chosen has all
/// its rows as before.
pub proof fn lemma_chosen_by_id(table: Seq<MemoryRowView>, p: &RowPredicate, id: Seq<char>)
    ensures
        (forall|i: int|
            0 <= i < table.len() && (#[trigger] table[i]).id == id ==> p.chooses_memory(table[i]))
            ==> rows_with_id(without_chosen(table, p), id).len() == 0,
        (forall|i: int|
            0 <= i < table.len() && (#[trigger] table[i]).id == id ==> !p.chooses_memory(table[i]))
            ==> rows_with_id(without_chosen(table, p), id) == rows_with_id(table, id),
    decreases table.len(),
{
    if table.len() > 0 {
        let before = table.drop_last();
        lemma_chosen_by_id(before, p, id);
        assert forall|i: int| 0 <= i < before.len() implies #[trigger] before[i] == table[i] by {}
        let left = without_chosen(before, p);
        if !p.chooses_memory(table.last()) {
            assert(left.push(table.last()).drop_last() =~= left);
        }
        if forall|i: int|
            0 <= i < table.len() && (#[trigger] table[i]).id == id ==> p.chooses_memory(table[i]) {
            assert forall|i: int| 0 <= i < before.len() && (#[trigger] before[i]).id
                == id implies p.chooses_memory(before[i]) by {
                assert(before[i] == table[i]);
            }
            assert(table.last() == table[table.len() - 1]);
        }
        if forall|i: int|
            0 <= i < table.len() && (#[trigger] table[i]).id == id ==> !p.chooses_memory(table[i]) {
            assert forall|i: int| 0 <= i < before.len() && (#[trigger] before[i]).id
                == id implies !p.chooses_memory(before[i]) by {
                assert(before[i] == table[i]);
            }
            assert(table.last() == table[table.len() - 1]);
        }
    }
}

/// The two tables of a store: the rows of each, where it exists.
pub struct StoredTables {
    pub memories: Option<Seq<MemoryRowView>>,
    pub relationships: Option<Seq<RelationshipRowView>>,
}

/// No table at all: what a wipe leaves before the tables are made anew.
pub open spec fn no_tables() -> StoredTables {
    StoredTables { memories: None, relationships: None }
}

/// Whether `names` names, of the two tables, those that exist.
pub open spec fn names_those_of(names: Seq<String>, tables: StoredTables) -> bool {
    &&& crate::text::has_text(names, MEMORIES_TABLE@) <==> tables.memories is Some
    &&& crate::text::has_text(names, RELATIONSHIPS_TABLE@) <==> tables.relationships is Some
}

/// How many rows the two tables hold together.
pub open spec fn rows_stored(tables: StoredTables) -> nat {
    (match tables.memories {
        Some(rows) => rows.len(),
        None => 0,
    }) + (match tables.relationships {
        Some(rows) => rows.len(),
        None => 0,
    })
}

impl TablesToCreate {
    /// Whether this is what is to be made where the tables named `names`
    /// exist: each of the two that is not named.
    pub open spec fn is_missing_from(self, names: Seq<String>) -> bool {
        &&& self.memories == !crate::text::has_text(names, MEMORIES_TABLE@)
        &&& self.relationships == !crate::text::has_text(names, RELATIONSHIPS_TABLE@)
    }

    /// The tables once those that are to be made were made, each without
    /// a row.
    pub open spec fn made(self, tables: StoredTables) -> StoredTables {
        StoredTables {
            memories: if self.memories {
                Some(Seq::empty())
            } else {
                tables.memories
            },
            relationships: if self.relationships {
                Some(Seq::empty())
            } else {
                tables.relationships
            },
        }
    }
}

/// Making the tables that are missing leaves both in being, those that
/// were there with their rows and the new ones empty; after a wipe, which
/// leaves no table, both are there again and hold no row.
pub proof fn lemma_tables_made(names: Seq<String>, tables: StoredTables, plan: TablesToCreate)
    requires
        names_those_of(names, tables),
        plan.is_missing_from(names),
    ensures
        plan.made(tables).memories is Some,
        plan.made(tables).relationships is Some,
        tables.memories is Some ==> plan.made(tables).memories == tables.memories,
        tables.relationships is Some ==> plan.made(tables).relationships == tables.relationships,
        rows_stored(plan.made(tables)) == rows_stored(tables),
        tables == no_tables() ==> rows_stored(plan.made(tables)) == 0 && plan.made(tables) == (
        StoredTables { memories: Some(Seq::empty()), relationships: Some(Seq::empty()) }),
{
}

/// The memories that rows are read as, as of `now`.
pub open spec fn memories_of(rows: Seq<MemoryRowView>, now: Timestamp) -> Seq<MemoryView> {
    Seq::new(rows.len(), |i: int| memory_of(rows[i], now))
}

/// What is said of a vector of the wrong length.
pub open spec fn dimension_message() -> Seq<char> {
    "embedding dimension does not match the store"@
}

impl MemoryStore {
    /// What is written for a memory whose embedding has `embedding_len`
    /// elements. The embedding must have the dimension of the store, and
    /// the memory must be writable.
    pub fn store_memory(&self, memory: &Memory, embedding_len: usize) -> (r: Result<
        StorePlan,
        StoreError,
    >)
        ensures
            match r {
                Ok(plan) => {
                    &&& embedding_len == self.vector_dim
                    &&& writable(memory@)
                    &&& plan.delete_where matches RowPredicate::IdIs(id) && id@ == memory@.id
                    &&& plan.row@ == row_of(memory@)
                },
                Err(StoreError::Embedding(e)) => embedding_len != self.vector_dim && e@
                    == dimension_message(),
                Err(StoreError::Storage(e)) => embedding_len == self.vector_dim && !writable(
                    memory@,
                ) && e@ == unwritable_message(),
                Err(_) => false,
            },
    {
        if embedding_len != self.vector_dim {
            return Err(
                StoreError::Embedding("embedding dimension does not match the store".to_owned()),
            );
        }
        match memory_to_row(memory) {
            Ok(row) => Ok(StorePlan { delete_where: RowPredicate::IdIs(memory.id.clone()), row }),
            Err(e) => Err(e),
        }
    }

    /// What is written for a memory that was changed: the same as for a
    /// new one.
    pub fn update_memory(&self, memory: &Memory, embedding_len: usize) -> (r: Result<
        StorePlan,
        StoreError,
    >)
        ensures
            match r {
                Ok(plan) => {
                    &&& embedding_len == self.vector_dim
                    &&& writable(memory@)
                    &&& plan.delete_where matches RowPredicate::IdIs(id) && id@ == memory@.id
                    &&& plan.row@ == row_of(memory@)
                },
                Err(StoreError::Embedding(e)) => embedding_len != self.vector_dim && e@
                    == dimension_message(),
                Err(StoreError::Storage(e)) => embedding_len == self.vector_dim && !writable(
                    memory@,
                ) && e@ == unwritable_message(),
                Err(_) => false,
            },
    {
        self.store_memory(memory, embedding_len)
    }

    /// What is deleted for the memory `memory_id`: its row, and the
    /// relationships that start or end at it.
    pub fn delete_memory(&self, memory_id: &str) -> (plan: DeletePlan)
        ensures
            plan.memories_where matches RowPredicate::IdIs(id) && id@ == memory_id@,
            plan.relationships_where matches RowPredicate::Touches(id) && id@ == memory_id@,
    {
        DeletePlan {
            memories_where: RowPredicate::IdIs(memory_id.to_owned()),
            relationships_where: RowPredicate::Touches(memory_id.to_owned()),
        }
    }

    /// What is read for the memory `memory_id`: one row with its
    /// identifier.
    pub fn get_memory(&self, memory_id: &str) -> (plan: LookupPlan)
        ensures
            plan.filter matches RowPredicate::IdIs(id) && id@ == memory_id@,
            plan.limit == 1,
    {
        LookupPlan { filter: RowPredicate::IdIs(memory_id.to_owned()), limit: 1 }
    }

    /// The memory that a lookup found: the first of the rows that came
    /// back, read as of `now`; none where no row came back.
    pub fn found_memory(&self, rows: &Vec<MemoryRow>, now: Timestamp) -> (r: Result<
        Option<Memory>,
        StoreError,
    >)
        ensures
            match r {
                Ok(None) => rows@.len() == 0,
                Ok(Some(m)) => rows@.len() > 0 && readable(rows@[0]@) && m@ == memory_of(
                    rows@[0]@,
                    now,
                ),
                Err(StoreError::Storage(e)) => rows@.len() > 0 && !readable(rows@[0]@) && e@
                    == unreadable_message(),
                Err(_) => false,
            },
    {
        if rows.len() == 0 {
            return Ok(None);
        }
        match row_to_memory(&rows[0], now) {
            Ok(m) => Ok(Some(m)),
            Err(e) => Err(e),
        }
    }

    /// The memories that the rows of a batch are read as, as the clock
    /// stands; the first row that cannot be read fails the whole batch.
    pub fn batch_to_memories(&self, rows: &Vec<MemoryRow>) -> (r: Result<Vec<Memory>, StoreError>)
        ensures
            match r {
                Ok(out) => all_readable(row_views(rows@)) && exists|now: Timestamp|
                    memory_views(out@) == memories_of(row_views(rows@), now),
                Err(StoreError::Storage(e)) => !all_readable(row_views(rows@)) && e@
                    == unreadable_message(),
                Err(_) => false,
            },
    {
        let now = Timestamp::now();
        let r = self.batch_to_memories_at(rows, now);
        proof {
            if r is Ok {
                assert(memory_views(r->Ok_0@) == memories_of(row_views(rows@), now));
            }
        }
        r
    }

    /// The memories that the rows of a batch are read as, as of `now`.
    pub fn batch_to_memories_at(&self, rows: &Vec<MemoryRow>, now: Timestamp) -> (r: Result<
        Vec<Memory>,
        StoreError,
    >)
        ensures
            match r {
                Ok(out) => all_readable(row_views(rows@)) && memory_views(out@) == memories_of(
                    row_views(rows@),
                    now,
                ),
                Err(StoreError::Storage(e)) => !all_readable(row_views(rows@)) && e@
                    == unreadable_message(),
                Err(_) => false,
            },
    {
        let mut out: Vec<Memory> = Vec::new();
        let mut i: usize = 0;
        while i < rows.len()
            invariant
                i <= rows.len(),
                out@.len() == i,
                forall|j: int| 0 <= j < i ==> readable(#[trigger] rows@[j]@),
                forall|j: int| 0 <= j < i ==> (#[trigger] out@[j])@ == memory_of(rows@[j]@, now),
            decreases rows.len() - i,
        {
            match row_to_memory(&rows[i], now) {
                Ok(m) => {
                    out.push(m);
                },
                Err(e) => {
                    assert(!readable(row_views(rows@)[i as int]));
                    return Err(e);
                },
            }
            i += 1;
        }
        assert forall|j: int| 0 <= j < row_views(rows@).len() implies readable(
            #[trigger] row_views(rows@)[j],
        ) by {
            assert(readable(rows@[j]@));
        }
        assert(memory_views(out@) =~= memories_of(row_views(rows@), now));
        Ok(out)
    }

    /// The relationships that the rows of a batch are read as; the first
    /// row that cannot be read fails the whole batch.
    pub fn batch_to_relationships(&self, rows: &Vec<RelationshipRow>) -> (r: Result<
        Vec<MemoryRelationship>,
        StoreError,
    >)
        ensures
            match r {
                Ok(out) => {
                    &&& out@.len() == rows@.len()
                    &&& forall|j: int|
                        0 <= j < rows@.len() ==> instant_of((#[trigger] rows@[j])@.created_at)
                            is Some && out@[j]@ == edge_of(rows@[j]@)
                },
                Err(StoreError::Storage(e)) => e@ == unreadable_message() && exists|j: int|
                    0 <= j < rows@.len() && instant_of((#[trigger] rows@[j])@.created_at) is None,
                Err(_) => false,
            },
    {
        let mut out: Vec<MemoryRelationship> = Vec::new();
        let mut i: usize = 0;
        while i < rows.len()
            invariant
                i <= rows.len(),
                out@.len() == i,
                forall|j: int|
                    0 <= j < i ==> instant_of((#[trigger] rows@[j])@.created_at) is Some
                        && out@[j]@ == edge_of(rows@[j]@),
            decreases rows.len() - i,
        {
            match row_to_relationship(&rows[i]) {
                Ok(e) => {
                    out.push(e);
                },
                Err(e) => {
                    assert(instant_of(rows@[i as int]@.created_at) is None);
                    return Err(e);
                },
            }
            i += 1;
        }
        Ok(out)
    }

    /// What is written for a relationship.
    pub fn store_relationship(&self, relationship: &MemoryRelationship) -> (r: Result<
        RelationshipPlan,
        StoreError,
    >)
        ensures
            match r {
                Ok(plan) => {
                    &&& edge_writable(relationship@)
                    &&& plan.delete_where matches RowPredicate::IdIs(id) && id@ == relationship@.id
                    &&& plan.row@ == edge_row_of(relationship@)
                },
                Err(StoreError::Storage(e)) => !edge_writable(relationship@) && e@
                    == unwritable_message(),
                Err(_) => false,
            },
    {
        match relationship_to_row(relationship) {
            Ok(row) => Ok(
                RelationshipPlan {
                    delete_where: RowPredicate::IdIs(relationship.id.clone()),
                    row,
                },
            ),
            Err(e) => Err(e),
        }
    }

    /// By what the relationships of the memory `memory_id` are read: those
    /// that start or end at it.
    pub fn get_memory_relationships(&self, memory_id: &str) -> (filter: RowPredicate)
        ensures
            filter matches RowPredicate::Touches(id) && id@ == memory_id@,
    {
        RowPredicate::Touches(memory_id.to_owned())
    }

    /// The instant before which cleanup counts a memory as old, as of
    /// `now`: `auto_cleanup_days` days before, where that is set.
    pub open spec fn cleanup_cutoff(&self, now: Timestamp) -> Option<int> {
        match self.config.auto_cleanup_days {
            Some(days) => Some(saturate(now.millis - days * crate::clock::MILLIS_PER_DAY)),
            None => None,
        }
    }

    /// Whether `r` is what cleanup decides as of `now`: nothing where no
    /// age is set; else the memories made before the cutoff, with an
    /// importance below the threshold; or a failure where the cutoff has
    /// no RFC 3339 text.
    pub open spec fn is_cleanup_choice(
        &self,
        now: Timestamp,
        r: Result<Option<RowPredicate>, StoreError>,
    ) -> bool {
        match self.cleanup_cutoff(now) {
            None => r matches Ok(None),
            Some(at) => match r {
                Ok(Some(RowPredicate::Stale { cutoff, min_importance })) => min_importance
                    == self.config.cleanup_min_importance && rfc3339_text(at) == Some(cutoff@),
                Ok(_) => false,
                Err(StoreError::Storage(e)) => rfc3339_text(at) is None && e@
                    == unwritable_message(),
                Err(_) => false,
            },
        }
    }

    /// By what cleanup chooses the memories to remove, as the clock
    /// stands.
    pub fn cleanup_old_memories(&self) -> (r: Result<Option<RowPredicate>, StoreError>)
        ensures
            self.config.auto_cleanup_days is None ==> r matches Ok(None),
            exists|now: Timestamp| self.is_cleanup_choice(now, r),
    {
        let now = Timestamp::now();
        let r = self.cleanup_old_memories_at(now);
        assert(self.is_cleanup_choice(now, r));
        r
    }

    /// By what cleanup chooses the memories to remove, as of `now`.
    pub fn cleanup_old_memories_at(&self, now: Timestamp) -> (r: Result<
        Option<RowPredicate>,
        StoreError,
    >)
        ensures
            self.is_cleanup_choice(now, r),
    {
        match self.config.auto_cleanup_days {
            Some(days) => {
                let cutoff = now.minus_days(days);
                match cutoff.to_rfc3339() {
                    Some(text) => Ok(
                        Some(
                            RowPredicate::Stale {
                                cutoff: text,
                                min_importance: self.config.cleanup_min_importance,
                            },
                        ),
                    ),
                    None => Err(
                        StoreError::Storage("memory cannot be written as a row".to_owned()),
                    ),
                }
            },
            None => Ok(None),
        }
    }

    /// How many rows a wipe of both tables removes: the rows of both
    /// tables together, a count that could not be had taken as zero.
    pub fn clear_all_memory_data(
        &self,
        memory_count: Option<usize>,
        relationship_count: Option<usize>,
    ) -> (total: usize)
        ensures
            total == if memory_count.unwrap_or(0) + relationship_count.unwrap_or(0) <= usize::MAX {
                memory_count.unwrap_or(0) + relationship_count.unwrap_or(0)
            } else {
                usize::MAX as int
            },
    {
        let memories: usize = match memory_count {
            Some(n) => n,
            None => 0,
        };
        let relationships: usize = match relationship_count {
            Some(n) => n,
            None => 0,
        };
        if memories <= usize::MAX - relationships {
            memories + relationships
        } else {
            usize::MAX
        }
    }

    /// Which tables are to be made, given the names of those that exist.
    pub fn initialize_tables(&self, table_names: &Vec<String>) -> (r: TablesToCreate)
        ensures
            r.is_missing_from(table_names@),
    {
        TablesToCreate {
            memories: !crate::text::contains_text(table_names, MEMORIES_TABLE),
            relationships: !crate::text::contains_text(table_names, RELATIONSHIPS_TABLE),
        }
    }

    /// What is done about the index of a table of `row_count` rows: where
    /// there is none, one is built if the tuner says so; where there is
    /// one, it is built anew only if the tuner finds that the table has
    /// outgrown it and says to build one.
    pub fn ensure_optimal_index(&self, row_count: usize, has_index: bool) -> (action: IndexAction)
        ensures
            match action {
                IndexAction::Create(params) => !has_index && row_count >= 1000 && is_index_choice(
                    row_count as int,
                    self.vector_dim as int,
                    params,
                ),
                IndexAction::Keep => has_index || row_count < 1000,
            },
    {
        if !has_index {
            let params = VectorOptimizer::calculate_index_params(row_count, self.vector_dim);
            if params.should_create_index {
                IndexAction::Create(params)
            } else {
                IndexAction::Keep
            }
        } else if VectorOptimizer::should_optimize_for_growth(row_count, self.vector_dim, true) {
            let params = VectorOptimizer::calculate_index_params(row_count, self.vector_dim);
            if params.should_create_index {
                IndexAction::Create(params)
            } else {
                IndexAction::Keep
            }
        } else {
            IndexAction::Keep
        }
    }
}

/// The fewest characters of a title.
pub const MIN_TITLE_CHARS: usize = 5;

/// The most characters of a title.
pub const MAX_TITLE_CHARS: usize = 200;

/// What is said of a title of the wrong length.
pub open spec fn title_message() -> Seq<char> {
    "title must be between 5 and 200 characters"@
}

/// What is said where no memory has the identifier `id`.
pub open spec fn not_found_message(id: Seq<char>) -> Seq<char> {
    "Memory not found: "@ + id
}

impl MemoryStore {
    /// Accepts a title of five to two hundred characters.
    pub fn validate_title(title: &str) -> (r: Result<(), StoreError>)
        ensures
            match r {
                Ok(_) => MIN_TITLE_CHARS <= title@.len() <= MAX_TITLE_CHARS,
                Err(StoreError::InvalidInput(e)) => !(MIN_TITLE_CHARS <= title@.len()
                    <= MAX_TITLE_CHARS) && e@ == title_message(),
                Err(_) => false,
            },
    {
        let n = title.unicode_len();
        if n < MIN_TITLE_CHARS || n > MAX_TITLE_CHARS {
            Err(
                StoreError::InvalidInput("title must be between 5 and 200 characters".to_owned()),
            )
        } else {
            Ok(())
        }
    }

    /// The memory that an operation on the identifier `id` works on: the
    /// one that the lookup found, or a failure where it found none.
    pub fn require_found(id: &str, found: Option<Memory>) -> (r: Result<Memory, StoreError>)
        ensures
            match r {
                Ok(m) => found == Some(m),
                Err(StoreError::NotFound(e)) => found is None && e@ == not_found_message(id@),
                Err(_) => false,
            },
    {
        match found {
            Some(m) => Ok(m),
            None => {
                let mut text: Vec<char> = Vec::new();
                crate::text::push_text(&mut text, "Memory not found: ");
                crate::text::push_text(&mut text, id);
                Err(StoreError::NotFound(crate::text::string_of(&text)))
            },
        }
    }

    /// The columns of the table of memories.
    pub fn memories_schema(&self) -> (columns: Vec<Column>)
        ensures
            columns@.len() == 12,
            columns@[0].name@ == "id"@ && columns@[0].kind == ColumnKind::Text
                && !columns@[0].nullable,
            columns@[1].name@ == "memory_type"@ && columns@[1].kind == ColumnKind::Text
                && !columns@[1].nullable,
            columns@[2].name@ == "title"@ && columns@[2].kind == ColumnKind::Text
                && !columns@[2].nullable,
            columns@[3].name@ == "content"@ && columns@[3].kind == ColumnKind::Text
                && !columns@[3].nullable,
            columns@[4].name@ == "created_at"@ && columns@[4].kind == ColumnKind::Text
                && !columns@[4].nullable,
            columns@[5].name@ == "updated_at"@ && columns@[5].kind == ColumnKind::Text
                && !columns@[5].nullable,
            columns@[6].name@ == "importance"@ && columns@[6].kind == ColumnKind::Number
                && !columns@[6].nullable,
            columns@[7].name@ == "confidence"@ && columns@[7].kind == ColumnKind::Number
                && !columns@[7].nullable,
            columns@[8].name@ == "tags_json"@ && columns@[8].kind == ColumnKind::Text
                && columns@[8].nullable,
            columns@[9].name@ == "related_files_json"@ && columns@[9].kind == ColumnKind::Text
                && columns@[9].nullable,
            columns@[10].name@ == "git_commit"@ && columns@[10].kind == ColumnKind::Text
                && columns@[10].nullable,
            columns@[11].name@ == "embedding"@ && columns@[11].kind == ColumnKind::Vector(
                self.vector_dim,
            ) && columns@[11].nullable,
    {
        let mut columns: Vec<Column> = Vec::new();
        columns.push(Column { name: "id", kind: ColumnKind::Text, nullable: false });
        columns.push(Column { name: "memory_type", kind: ColumnKind::Text, nullable: false });
        columns.push(Column { name: "title", kind: ColumnKind::Text, nullable: false });
        columns.push(Column { name: "content", kind: ColumnKind::Text, nullable: false });
        columns.push(Column { name: "created_at", kind: ColumnKind::Text, nullable: false });
        columns.push(Column { name: "updated_at", kind: ColumnKind::Text, nullable: false });
        columns.push(Column { name: "importance", kind: ColumnKind::Number, nullable: false });
        columns.push(Column { name: "confidence", kind: ColumnKind::Number, nullable: false });
        columns.push(Column { name: "tags_json", kind: ColumnKind::Text, nullable: true });
        columns.push(Column { name: "related_files_json", kind: ColumnKind::Text, nullable: true });
        columns.push(Column { name: "git_commit", kind: ColumnKind::Text, nullable: true });
        columns.push(
            Column { name: "embedding", kind: ColumnKind::Vector(self.vector_dim), nullable: true },
        );
        columns
    }

    /// The columns of the table of relationships.
    pub fn relationships_schema(&self) -> (columns: Vec<Column>)
        ensures
            columns@.len() == 7,
            columns@[0].name@ == "id"@ && columns@[0].kind == ColumnKind::Text,
            columns@[1].name@ == "source_id"@ && columns@[1].kind == ColumnKind::Text,
            columns@[2].name@ == "target_id"@ && columns@[2].kind == ColumnKind::Text,
            columns@[3].name@ == "relationship_type"@ && columns@[3].kind == ColumnKind::Text,
            columns@[4].name@ == "strength"@ && columns@[4].kind == ColumnKind::Number,
            columns@[5].name@ == "description"@ && columns@[5].kind == ColumnKind::Text,
            columns@[6].name@ == "created_at"@ && columns@[6].kind == ColumnKind::Text,
            forall|i: int| 0 <= i < 7 ==> !(#[trigger] columns@[i]).nullable,
    {
        let mut columns: Vec<Column> = Vec::new();
        columns.push(Column { name: "id", kind: ColumnKind::Text, nullable: false });
        columns.push(Column { name: "source_id", kind: ColumnKind::Text, nullable: false });
        columns.push(Column { name: "target_id", kind: ColumnKind::Text, nullable: false });
        columns.push(Column { name: "relationship_type", kind: ColumnKind::Text, nullable: false });
        columns.push(Column { name: "strength", kind: ColumnKind::Number, nullable: false });
        columns.push(Column { name: "description", kind: ColumnKind::Text, nullable: false });
        columns.push(Column { name: "created_at", kind: ColumnKind::Text, nullable: false });
        columns
    }
}

} // verus!
