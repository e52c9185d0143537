//! What a row of each table holds, how memories and relationships are
//! written to rows and read back, and the predicates by which rows are
//! chosen.
//!
//! Lists are written as JSON and instants as RFC 3339 text. Every value
//! that goes into a predicate goes in quoted.

use vstd::prelude::*;
use crate::clock::{rfc3339_millis, rfc3339_text, Timestamp};
use crate::fixed::{decimal_text, unit, Score};
use crate::memory::types::{
    default_metadata, opt_text, Memory, MemoryMetadata, MemoryRelationship, MemoryType,
    MemoryView, MetadataView, RelationshipKind, RelationshipType, RelationshipView,
};
use crate::text::{
    chars_of, clone_opt_string, push_text, string_of, unicode_lowercase, views,
};

verus! {

/// The JSON text that serde_json writes for a list of strings, or `None`
/// where it writes none.
pub uninterp spec fn json_text(items: Seq<Seq<char>>) -> Option<Seq<char>>;

/// The list of strings that serde_json reads from a JSON text, or `None`
/// where the text is not a JSON list of strings.
pub uninterp spec fn json_items(text: Seq<char>) -> Option<Seq<Seq<char>>>;

/// Writes a list of strings with `serde_json::to_string`. The text is
/// named, not defined.
#[verifier::external_body]
pub(crate) fn write_json(items: &Vec<String>) -> (r: Option<String>)
    ensures
        match r {
            Some(s) => json_text(views(items@)) == Some(s@),
            None => json_text(views(items@)) is None,
        },
{
    serde_json::to_string(items).ok()
}

/// Reads a list of strings with `serde_json::from_str`. The list is named,
/// not defined.
#[verifier::external_body]
pub(crate) fn read_json(text: &str) -> (r: Option<Vec<String>>)
    ensures
        match r {
            Some(v) => json_items(text@) == Some(views(v@)),
            None => json_items(text@) is None,
        },
{
    serde_json::from_str::<Vec<String>>(text).ok()
}

/// What went wrong in the store.
#[derive(Debug)]
pub enum StoreError {
    /// What the caller gave cannot be used.
    InvalidInput(String),
    /// No memory has the identifier.
    NotFound(String),
    /// The embedder failed or gave a vector of the wrong length.
    Embedding(String),
    /// The table could not be read or written.
    Storage(String),
}

/// `s` with every single quote doubled.
pub open spec fn quoted(s: Seq<char>) -> Seq<char>
    decreases s.len(),
{
    if s.len() == 0 {
        Seq::empty()
    } else if s.last() == '\'' {
        quoted(s.drop_last()).push('\'').push('\'')
    } else {
        quoted(s.drop_last()).push(s.last())
    }
}

/// Whether `s`, read as the inside of a quoted literal, never ends the
/// literal: every single quote in it is followed by a second one that
/// belongs to it.
pub open spec fn stays_inside(s: Seq<char>) -> bool
    decreases s.len(),
{
    if s.len() == 0 {
        true
    } else if s[0] != '\'' {
        stays_inside(s.drop_first())
    } else if s.len() >= 2 && s[1] == '\'' {
        stays_inside(s.skip(2))
    } else {
        false
    }
}

/// Text that stays inside a literal still does so with a character that is
/// no quote, or with a doubled quote, put behind it.
pub proof fn lemma_stays_inside_push(s: Seq<char>, c: char)
    requires
        stays_inside(s),
    ensures
        c != '\'' ==> stays_inside(s.push(c)),
        stays_inside(s.push('\'').push('\'')),
    decreases s.len(),
{
    let one = s.push(c);
    let two = s.push('\'').push('\'');
    assert(stays_inside(Seq::<char>::empty()));
    if s.len() == 0 {
        assert(one.drop_first() =~= Seq::empty());
        assert(two.skip(2) =~= Seq::empty());
        assert(two[0] == '\'' && two[1] == '\'');
    } else if s[0] != '\'' {
        lemma_stays_inside_push(s.drop_first(), c);
        assert(one[0] == s[0] && two[0] == s[0]);
        assert(one.drop_first() =~= s.drop_first().push(c));
        assert(two.drop_first() =~= s.drop_first().push('\'').push('\''));
    } else {
        assert(s.len() >= 2 && s[1] == '\'');
        lemma_stays_inside_push(s.skip(2), c);
        assert(one[0] == s[0] && one[1] == s[1]);
        assert(two[0] == s[0] && two[1] == s[1]);
        assert(one.skip(2) =~= s.skip(2).push(c));
        assert(two.skip(2) =~= s.skip(2).push('\'').push('\''));
    }
}

/// A quoted text never ends the literal that it is put into.
pub proof fn lemma_quoted_stays_inside(s: Seq<char>)
    ensures
        stays_inside(quoted(s)),
    decreases s.len(),
{
    if s.len() > 0 {
        lemma_quoted_stays_inside(s.drop_last());
        lemma_stays_inside_push(quoted(s.drop_last()), s.last());
    }
}

/// Appends `s` to `out` with every single quote doubled.
pub fn push_quoted(out: &mut Vec<char>, s: &str)
    ensures
        final(out)@ == old(out)@ + quoted(s@),
{
    let text = chars_of(s);
    let mut i: usize = 0;
    assert(quoted(text@.take(0)) =~= Seq::empty());
    while i < text.len()
        invariant
            i <= text.len(),
            text@ == s@,
            out@ == old(out)@ + quoted(text@.take(i as int)),
        decreases text.len() - i,
    {
        proof {
            assert(text@.take(i + 1).drop_last() =~= text@.take(i as int));
            assert(text@.take(i + 1).last() == text@[i as int]);
        }
        let c = text[i];
        if c == '\'' {
            out.push('\'');
            out.push('\'');
        } else {
            out.push(c);
        }
        i += 1;
        assert(out@ =~= old(out)@ + quoted(text@.take(i as int)));
    }
    assert(text@.take(text.len() as int) =~= text@);
}

/// `input` with every single quote doubled, fit to stand between quotes
/// in a predicate.
pub fn quote_filter_string(input: &str) -> (r: String)
    ensures
        r@ == quoted(input@),
        stays_inside(r@),
{
    let mut out: Vec<char> = Vec::new();
    push_quoted(&mut out, input);
    proof {
        lemma_quoted_stays_inside(input@);
        assert(out@ =~= quoted(input@));
    }
    string_of(&out)
}

/// A row of the table of memories, without its vector.
#[derive(Debug)]
pub struct MemoryRow {
    pub id: String,
    /// The label of the kind.
    pub memory_type: String,
    pub title: String,
    pub content: String,
    /// RFC 3339 text.
    pub created_at: String,
    /// RFC 3339 text.
    pub updated_at: String,
    pub importance: Score,
    pub confidence: Score,
    /// A JSON list of strings, or null.
    pub tags: Option<String>,
    /// A JSON list of strings, or null.
    pub related_files: Option<String>,
    pub git_commit: Option<String>,
}

/// A [`MemoryRow`] as plain values.
pub struct MemoryRowView {
    pub id: Seq<char>,
    pub memory_type: Seq<char>,
    pub title: Seq<char>,
    pub content: Seq<char>,
    pub created_at: Seq<char>,
    pub updated_at: Seq<char>,
    pub importance: Score,
    pub confidence: Score,
    pub tags: Option<Seq<char>>,
    pub related_files: Option<Seq<char>>,
    pub git_commit: Option<Seq<char>>,
}

impl View for MemoryRow {
    type V = MemoryRowView;

    open spec fn view(&self) -> MemoryRowView {
        MemoryRowView {
            id: self.id@,
            memory_type: self.memory_type@,
            title: self.title@,
            content: self.content@,
            created_at: self.created_at@,
            updated_at: self.updated_at@,
            importance: self.importance,
            confidence: self.confidence,
            tags: opt_text(self.tags),
            related_files: opt_text(self.related_files),
            git_commit: opt_text(self.git_commit),
        }
    }
}

/// A row of the table of relationships.
#[derive(Debug)]
pub struct RelationshipRow {
    pub id: String,
    pub source_id: String,
    pub target_id: String,
    /// The label of the kind.
    pub relationship_type: String,
    pub strength: Score,
    pub description: String,
    /// RFC 3339 text.
    pub created_at: String,
}

/// A [`RelationshipRow`] as plain values.
pub struct RelationshipRowView {
    pub id: Seq<char>,
    pub source_id: Seq<char>,
    pub target_id: Seq<char>,
    pub relationship_type: Seq<char>,
    pub strength: Score,
    pub description: Seq<char>,
    pub created_at: Seq<char>,
}

impl View for RelationshipRow {
    type V = RelationshipRowView;

    open spec fn view(&self) -> RelationshipRowView {
        RelationshipRowView {
            id: self.id@,
            source_id: self.source_id@,
            target_id: self.target_id@,
            relationship_type: self.relationship_type@,
            strength: self.strength,
            description: self.description@,
            created_at: self.created_at@,
        }
    }
}

/// Whether a memory can be written to a row: both of its instants have an
/// RFC 3339 text and both of its lists a JSON text.
pub open spec fn writable(m: MemoryView) -> bool {
    &&& rfc3339_text(m.created_at.millis as int) is Some
    &&& rfc3339_text(m.updated_at.millis as int) is Some
    &&& json_text(m.metadata.tags) is Some
    &&& json_text(m.metadata.related_files) is Some
}

/// The row that a memory is written to: its texts as they are, its kind
/// as a label, its instants as RFC 3339 text, importance and confidence
/// brought into `[0, 1]`, its lists as JSON.
pub open spec fn row_of(m: MemoryView) -> MemoryRowView {
    MemoryRowView {
        id: m.id,
        memory_type: m.memory_type.label(),
        title: m.title,
        content: m.content,
        created_at: rfc3339_text(m.created_at.millis as int)->0,
        updated_at: rfc3339_text(m.updated_at.millis as int)->0,
        importance: Score { micros: unit(m.metadata.importance.micros as int) as i64 },
        confidence: Score { micros: unit(m.metadata.confidence.micros as int) as i64 },
        tags: json_text(m.metadata.tags),
        related_files: json_text(m.metadata.related_files),
        git_commit: m.metadata.git_commit,
    }
}

/// Whether a row can be read as a memory: both of its instants are
/// RFC 3339 text that fits the range of instants.
pub open spec fn readable(r: MemoryRowView) -> bool {
    &&& instant_of(r.created_at) is Some
    &&& instant_of(r.updated_at) is Some
}

/// The instant that an RFC 3339 text names.
pub open spec fn instant_of(text: Seq<char>) -> Option<Timestamp> {
    match rfc3339_millis(text) {
        Some(m) => if i64::MIN <= m <= i64::MAX {
            Some(Timestamp { millis: m as i64 })
        } else {
            None
        },
        None => None,
    }
}

/// The list that a column of JSON holds: nothing for null, and nothing for
/// a text that is not a JSON list of strings.
pub open spec fn list_of(column: Option<Seq<char>>) -> Seq<Seq<char>> {
    match column {
        Some(text) => match json_items(text) {
            Some(items) => items,
            None => Seq::empty(),
        },
        None => Seq::empty(),
    }
}

/// The memory that a row is read as, at the instant `now`: what the row
/// holds, and default metadata as of `now` for the rest.
pub open spec fn memory_of(r: MemoryRowView, now: Timestamp) -> MemoryView {
    MemoryView {
        id: r.id,
        memory_type: MemoryType::of_label(unicode_lowercase(r.memory_type)),
        title: r.title,
        content: r.content,
        metadata: MetadataView {
            git_commit: r.git_commit,
            related_files: list_of(r.related_files),
            tags: list_of(r.tags),
            importance: r.importance,
            confidence: r.confidence,
            created_by: default_metadata(now).created_by,
            custom_fields: default_metadata(now).custom_fields,
            decay: default_metadata(now).decay,
        },
        created_at: instant_of(r.created_at)->0,
        updated_at: instant_of(r.updated_at)->0,
        relevance_score: None,
    }
}

/// What is said of a memory that cannot be written.
pub open spec fn unwritable_message() -> Seq<char> {
    "memory cannot be written as a row"@
}

/// What is said of a row that cannot be read.
pub open spec fn unreadable_message() -> Seq<char> {
    "row holds an invalid timestamp"@
}

/// The row that a memory is written to.
pub fn memory_to_row(memory: &Memory) -> (r: Result<MemoryRow, StoreError>)
    ensures
        match r {
            Ok(row) => writable(memory@) && row@ == row_of(memory@),
            Err(StoreError::Storage(e)) => !writable(memory@) && e@ == unwritable_message(),
            Err(_) => false,
        },
{
    let created = memory.created_at.to_rfc3339();
    let updated = memory.updated_at.to_rfc3339();
    let tags = write_json(&memory.metadata.tags);
    let files = write_json(&memory.metadata.related_files);
    match (created, updated, tags, files) {
        (Some(created_at), Some(updated_at), Some(tags), Some(related_files)) => Ok(
            MemoryRow {
                id: memory.id.clone(),
                memory_type: memory.memory_type.to_string(),
                title: memory.title.clone(),
                content: memory.content.clone(),
                created_at,
                updated_at,
                importance: memory.metadata.importance.clamp_unit(),
                confidence: memory.metadata.confidence.clamp_unit(),
                tags: Some(tags),
                related_files: Some(related_files),
                git_commit: clone_opt_string(&memory.metadata.git_commit),
            },
        ),
        _ => Err(StoreError::Storage("memory cannot be written as a row".to_owned())),
    }
}

/// The list that a column of JSON holds.
pub fn read_list(column: &Option<String>) -> (r: Vec<String>)
    ensures
        views(r@) == list_of(opt_text(*column)),
{
    match column {
        Some(text) => match read_json(text.as_str()) {
            Some(items) => items,
            None => {
                let r: Vec<String> = Vec::new();
                assert(views(r@) =~= Seq::empty());
                r
            },
        },
        None => {
            let r: Vec<String> = Vec::new();
            assert(views(r@) =~= Seq::empty());
            r
        },
    }
}

/// The memory that a row is read as, at the instant `now`.
pub fn row_to_memory(row: &MemoryRow, now: Timestamp) -> (r: Result<Memory, StoreError>)
    ensures
        match r {
            Ok(m) => readable(row@) && m@ == memory_of(row@, now),
            Err(StoreError::Storage(e)) => !readable(row@) && e@ == unreadable_message(),
            Err(_) => false,
        },
{
    let created = Timestamp::parse_from_rfc3339(row.created_at.as_str());
    let updated = Timestamp::parse_from_rfc3339(row.updated_at.as_str());
    match (created, updated) {
        (Some(created_at), Some(updated_at)) => {
            let defaults = MemoryMetadata::default_at(now);
            let metadata = MemoryMetadata {
                git_commit: clone_opt_string(&row.git_commit),
                related_files: read_list(&row.related_files),
                tags: read_list(&row.tags),
                importance: row.importance,
                confidence: row.confidence,
                created_by: defaults.created_by,
                custom_fields: defaults.custom_fields,
                decay: defaults.decay,
            };
            let m = Memory {
                id: row.id.clone(),
                memory_type: MemoryType::from(row.memory_type.clone()),
                title: row.title.clone(),
                content: row.content.clone(),
                metadata,
                created_at,
                updated_at,
                relevance_score: None,
            };
            assert(m@.metadata =~= memory_of(row@, now).metadata);
            Ok(m)
        },
        _ => Err(StoreError::Storage("row holds an invalid timestamp".to_owned())),
    }
}

/// The views of a list of memories.
pub open spec fn memory_views(v: Seq<Memory>) -> Seq<MemoryView> {
    Seq::new(v.len(), |i: int| v[i]@)
}

/// The views of a list of rows.
pub open spec fn row_views(v: Seq<MemoryRow>) -> Seq<MemoryRowView> {
    Seq::new(v.len(), |i: int| v[i]@)
}

/// Whether every row of a list can be read as a memory.
pub open spec fn all_readable(rows: Seq<MemoryRowView>) -> bool {
    forall|i: int| 0 <= i < rows.len() ==> readable(#[trigger] rows[i])
}

/// Whether a relationship can be written to a row: its instant has an
/// RFC 3339 text.
pub open spec fn edge_writable(e: RelationshipView) -> bool {
    rfc3339_text(e.created_at.millis as int) is Some
}

/// The row that a relationship is written to: its texts as they are, its
/// kind as a label, its strength brought into `[0, 1]`, its instant as
/// RFC 3339 text.
pub open spec fn edge_row_of(e: RelationshipView) -> RelationshipRowView {
    RelationshipRowView {
        id: e.id,
        source_id: e.source_id,
        target_id: e.target_id,
        relationship_type: e.relationship_type.label(),
        strength: Score { micros: unit(e.strength.micros as int) as i64 },
        description: e.description,
        created_at: rfc3339_text(e.created_at.millis as int)->0,
    }
}

/// The relationship that a row is read as.
pub open spec fn edge_of(r: RelationshipRowView) -> RelationshipView {
    RelationshipView {
        id: r.id,
        source_id: r.source_id,
        target_id: r.target_id,
        relationship_type: RelationshipKind::of_label(r.relationship_type),
        strength: r.strength,
        description: r.description,
        created_at: instant_of(r.created_at)->0,
    }
}

/// The row that a relationship is written to.
pub fn relationship_to_row(edge: &MemoryRelationship) -> (r: Result<RelationshipRow, StoreError>)
    ensures
        match r {
            Ok(row) => edge_writable(edge@) && row@ == edge_row_of(edge@),
            Err(StoreError::Storage(e)) => !edge_writable(edge@) && e@ == unwritable_message(),
            Err(_) => false,
        },
{
    match edge.created_at.to_rfc3339() {
        Some(created_at) => Ok(
            RelationshipRow {
                id: edge.id.clone(),
                source_id: edge.source_id.clone(),
                target_id: edge.target_id.clone(),
                relationship_type: edge.relationship_type.to_string(),
                strength: edge.strength.clamp_unit(),
                description: edge.description.clone(),
                created_at,
            },
        ),
        None => Err(StoreError::Storage("memory cannot be written as a row".to_owned())),
    }
}

/// The relationship that a row is read as.
pub fn row_to_relationship(row: &RelationshipRow) -> (r: Result<MemoryRelationship, StoreError>)
    ensures
        match r {
            Ok(e) => instant_of(row@.created_at) is Some && e@ == edge_of(row@),
            Err(StoreError::Storage(e)) => instant_of(row@.created_at) is None && e@
                == unreadable_message(),
            Err(_) => false,
        },
{
    match Timestamp::parse_from_rfc3339(row.created_at.as_str()) {
        Some(created_at) => Ok(
            MemoryRelationship {
                id: row.id.clone(),
                source_id: row.source_id.clone(),
                target_id: row.target_id.clone(),
                relationship_type: RelationshipType::from_label(row.relationship_type.as_str()),
                strength: row.strength,
                description: row.description.clone(),
                created_at,
            },
        ),
        None => Err(StoreError::Storage("row holds an invalid timestamp".to_owned())),
    }
}

/// Whether `a` comes before `b` in the order of a dictionary, character by
/// character.
pub open spec fn text_before(a: Seq<char>, b: Seq<char>) -> bool
    decreases a.len(),
{
    if b.len() == 0 {
        false
    } else if a.len() == 0 {
        true
    } else if a[0] != b[0] {
        a[0] < b[0]
    } else {
        text_before(a.drop_first(), b.drop_first())
    }
}

/// Whether `a` comes before `b` in the order of a dictionary.
pub fn comes_before(a: &str, b: &str) -> (r: bool)
    ensures
        r == text_before(a@, b@),
{
    let x = chars_of(a);
    let y = chars_of(b);
    let mut i: usize = 0;
    assert(x@.skip(0) =~= x@ && y@.skip(0) =~= y@);
    while i < x.len() && i < y.len()
        invariant
            i <= x.len(),
            i <= y.len(),
            x@ == a@,
            y@ == b@,
            text_before(x@, y@) == text_before(x@.skip(i as int), y@.skip(i as int)),
        decreases x.len() - i,
    {
        proof {
            assert(x@.skip(i as int).len() > 0 && y@.skip(i as int).len() > 0);
            assert(x@.skip(i as int)[0] == x@[i as int]);
            assert(y@.skip(i as int)[0] == y@[i as int]);
            assert(x@.skip(i as int).drop_first() =~= x@.skip(i + 1));
            assert(y@.skip(i as int).drop_first() =~= y@.skip(i + 1));
        }
        if x[i] != y[i] {
            return x[i] < y[i];
        }
        i += 1;
    }
    assert(x@.skip(i as int).len() == x@.len() - i);
    assert(y@.skip(i as int).len() == y@.len() - i);
    i < y.len()
}

/// By what rows of a table are chosen.
#[derive(Debug)]
pub enum RowPredicate {
    /// The row with this identifier.
    IdIs(String),
    /// The relationships that start or end at this memory.
    Touches(String),
    /// The memories made before `cutoff`, an RFC 3339 text, whose
    /// importance is below `min_importance`.
    Stale { cutoff: String, min_importance: Score },
}

impl RowPredicate {
    /// The predicate as the table engine reads it, every text quoted.
    pub open spec fn text(&self) -> Seq<char> {
        match self {
            RowPredicate::IdIs(id) => "id = '"@ + quoted(id@) + "'"@,
            RowPredicate::Touches(id) => "source_id = '"@ + quoted(id@) + "' OR target_id = '"@
                + quoted(id@) + "'"@,
            RowPredicate::Stale { cutoff, min_importance } => "created_at < '"@ + quoted(cutoff@)
                + "' AND importance < "@ + decimal_text(min_importance.micros as int),
        }
    }

    /// Whether the predicate chooses a row of the table of memories.
    pub open spec fn chooses_memory(&self, row: MemoryRowView) -> bool {
        match self {
            RowPredicate::IdIs(id) => row.id == id@,
            RowPredicate::Touches(_) => false,
            RowPredicate::Stale { cutoff, min_importance } => text_before(row.created_at, cutoff@)
                && row.importance.micros < min_importance.micros,
        }
    }

    /// Whether the predicate chooses a row of the table of relationships.
    pub open spec fn chooses_relationship(&self, row: RelationshipRowView) -> bool {
        match self {
            RowPredicate::IdIs(id) => row.id == id@,
            RowPredicate::Touches(id) => row.source_id == id@ || row.target_id == id@,
            RowPredicate::Stale { .. } => false,
        }
    }

    /// The predicate as the table engine reads it.
    pub fn to_sql(&self) -> (r: String)
        ensures
            r@ == self.text(),
    {
        let mut out: Vec<char> = Vec::new();
        match self {
            RowPredicate::IdIs(id) => {
                push_text(&mut out, "id = '");
                push_quoted(&mut out, id.as_str());
                push_text(&mut out, "'");
            },
            RowPredicate::Touches(id) => {
                push_text(&mut out, "source_id = '");
                push_quoted(&mut out, id.as_str());
                push_text(&mut out, "' OR target_id = '");
                push_quoted(&mut out, id.as_str());
                push_text(&mut out, "'");
            },
            RowPredicate::Stale { cutoff, min_importance } => {
                push_text(&mut out, "created_at < '");
                push_quoted(&mut out, cutoff.as_str());
                push_text(&mut out, "' AND importance < ");
                let number = min_importance.to_decimal_string();
                push_text(&mut out, number.as_str());
            },
        }
        string_of(&out)
    }

    /// Whether the predicate chooses a row of the table of memories.
    pub fn selects_memory(&self, row: &MemoryRow) -> (r: bool)
        ensures
            r == self.chooses_memory(row@),
    {
        match self {
            RowPredicate::IdIs(id) => crate::text::same_text(row.id.as_str(), id.as_str()),
            RowPredicate::Touches(_) => false,
            RowPredicate::Stale { cutoff, min_importance } => comes_before(
                row.created_at.as_str(),
                cutoff.as_str(),
            ) && row.importance.micros < min_importance.micros,
        }
    }

    /// Whether the predicate chooses a row of the table of relationships.
    pub fn selects_relationship(&self, row: &RelationshipRow) -> (r: bool)
        ensures
            r == self.chooses_relationship(row@),
    {
        match self {
            RowPredicate::IdIs(id) => crate::text::same_text(row.id.as_str(), id.as_str()),
            RowPredicate::Touches(id) => crate::text::same_text(
                row.source_id.as_str(),
                id.as_str(),
            ) || crate::text::same_text(row.target_id.as_str(), id.as_str()),
            RowPredicate::Stale { .. } => false,
        }
    }
}

} // verus!
