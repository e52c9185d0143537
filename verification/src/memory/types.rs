//! The memory data model.

use vstd::prelude::*;
use vstd::std_specs::convert::FromSpecImpl;
use crate::clock::{whole_days, Timestamp};
use crate::expmath::{exp_neg, exp_neg_micros, log_micros, log_of};
use crate::fixed::{decimal_text, mul_micros, narrow, saturate, trunc_div, unit, Score, SCALE};
use crate::ident::{is_uuid_text, new_id};
use crate::text::{
    clone_opt_string, clone_strings, has_text, join_chars, joined, position_of, push_chars,
    push_text, same_text, string_of, to_lowercase, unicode_lowercase, views,
};

verus! {

/// The kinds of memory.
#[derive(Clone, Copy, Debug, PartialEq, Eq, Structural)]
pub enum MemoryType {
    /// Code insights, patterns, solutions and implementations.
    Code,
    /// System architecture, design decisions and patterns.
    Architecture,
    /// Bug fixes, issues and troubleshooting.
    BugFix,
    /// Feature implementations, requirements and specifications.
    Feature,
    /// Documentation, explanations and knowledge.
    Documentation,
    /// User preferences, settings and workflow patterns.
    UserPreference,
    /// Project decisions, meeting notes and planning.
    Decision,
    /// Learning notes, tutorials and educational content.
    Learning,
    /// Configuration, environment setup and deployment.
    Configuration,
    /// Testing strategies, test cases and QA insights.
    Testing,
    /// Performance optimizations and monitoring insights.
    Performance,
    /// Security considerations, vulnerabilities and fixes.
    Security,
    /// General insights, tips and miscellaneous knowledge.
    Insight,
}

impl MemoryType {
    /// The name under which the kind is stored and shown.
    pub open spec fn label(self) -> Seq<char> {
        match self {
            MemoryType::Code => "code"@,
            MemoryType::Architecture => "architecture"@,
            MemoryType::BugFix => "bug_fix"@,
            MemoryType::Feature => "feature"@,
            MemoryType::Documentation => "documentation"@,
            MemoryType::UserPreference => "user_preference"@,
            MemoryType::Decision => "decision"@,
            MemoryType::Learning => "learning"@,
            MemoryType::Configuration => "configuration"@,
            MemoryType::Testing => "testing"@,
            MemoryType::Performance => "performance"@,
            MemoryType::Security => "security"@,
            MemoryType::Insight => "insight"@,
        }
    }

    /// The kind that a name in lower case stands for. Every kind is found
    /// under its label and under a few shorter names; any other text means
    /// `Insight`.
    pub open spec fn of_label(l: Seq<char>) -> MemoryType {
        if l == "code"@ {
            MemoryType::Code
        } else if l == "architecture"@ {
            MemoryType::Architecture
        } else if l == "bug_fix"@ || l == "bugfix"@ || l == "bug"@ {
            MemoryType::BugFix
        } else if l == "feature"@ {
            MemoryType::Feature
        } else if l == "documentation"@ || l == "docs"@ || l == "doc"@ {
            MemoryType::Documentation
        } else if l == "user_preference"@ || l == "preference"@ || l == "user"@ {
            MemoryType::UserPreference
        } else if l == "decision"@ || l == "meeting"@ || l == "planning"@ {
            MemoryType::Decision
        } else if l == "learning"@ || l == "tutorial"@ || l == "education"@ {
            MemoryType::Learning
        } else if l == "configuration"@ || l == "config"@ || l == "setup"@ || l == "deployment"@ {
            MemoryType::Configuration
        } else if l == "testing"@ || l == "test"@ || l == "qa"@ {
            MemoryType::Testing
        } else if l == "performance"@ || l == "perf"@ || l == "optimization"@ {
            MemoryType::Performance
        } else if l == "security"@ || l == "vulnerability"@ || l == "vuln"@ {
            MemoryType::Security
        } else {
            MemoryType::Insight
        }
    }

    /// The label of the kind.
    pub fn to_string(&self) -> (s: String)
        ensures
            s@ == self.label(),
    {
        match self {
            MemoryType::Code => "code".to_owned(),
            MemoryType::Architecture => "architecture".to_owned(),
            MemoryType::BugFix => "bug_fix".to_owned(),
            MemoryType::Feature => "feature".to_owned(),
            MemoryType::Documentation => "documentation".to_owned(),
            MemoryType::UserPreference => "user_preference".to_owned(),
            MemoryType::Decision => "decision".to_owned(),
            MemoryType::Learning => "learning".to_owned(),
            MemoryType::Configuration => "configuration".to_owned(),
            MemoryType::Testing => "testing".to_owned(),
            MemoryType::Performance => "performance".to_owned(),
            MemoryType::Security => "security".to_owned(),
            MemoryType::Insight => "insight".to_owned(),
        }
    }

    /// The kind that a name already in lower case stands for.
    pub fn from_lowercase(l: &str) -> (t: MemoryType)
        ensures
            t == MemoryType::of_label(l@),
    {
        if same_text(l, "code") {
            MemoryType::Code
        } else if same_text(l, "architecture") {
            MemoryType::Architecture
        } else if same_text(l, "bug_fix") || same_text(l, "bugfix") || same_text(l, "bug") {
            MemoryType::BugFix
        } else if same_text(l, "feature") {
            MemoryType::Feature
        } else if same_text(l, "documentation") || same_text(l, "docs") || same_text(l, "doc") {
            MemoryType::Documentation
        } else if same_text(l, "user_preference") || same_text(l, "preference") || same_text(
            l,
            "user",
        ) {
            MemoryType::UserPreference
        } else if same_text(l, "decision") || same_text(l, "meeting") || same_text(l, "planning") {
            MemoryType::Decision
        } else if same_text(l, "learning") || same_text(l, "tutorial") || same_text(
            l,
            "education",
        ) {
            MemoryType::Learning
        } else if same_text(l, "configuration") || same_text(l, "config") || same_text(l, "setup")
            || same_text(l, "deployment") {
            MemoryType::Configuration
        } else if same_text(l, "testing") || same_text(l, "test") || same_text(l, "qa") {
            MemoryType::Testing
        } else if same_text(l, "performance") || same_text(l, "perf") || same_text(
            l,
            "optimization",
        ) {
            MemoryType::Performance
        } else if same_text(l, "security") || same_text(l, "vulnerability") || same_text(
            l,
            "vuln",
        ) {
            MemoryType::Security
        } else {
            MemoryType::Insight
        }
    }
}

impl From<String> for MemoryType {
    /// The kind that a name stands for, whatever its case.
    fn from(s: String) -> (t: MemoryType) {
        let lower = to_lowercase(s.as_str());
        MemoryType::from_lowercase(lower.as_str())
    }
}

impl FromSpecImpl<String> for MemoryType {
    open spec fn obeys_from_spec() -> bool {
        true
    }

    open spec fn from_spec(s: String) -> MemoryType {
        MemoryType::of_label(unicode_lowercase(s@))
    }
}

/// Every kind is found again under its own label.
pub proof fn lemma_label_round_trip(t: MemoryType)
    ensures
        MemoryType::of_label(t.label()) == t,
{
    reveal_strlit("code");
    reveal_strlit("architecture");
    reveal_strlit("bug_fix");
    reveal_strlit("bugfix");
    reveal_strlit("bug");
    reveal_strlit("feature");
    reveal_strlit("documentation");
    reveal_strlit("docs");
    reveal_strlit("doc");
    reveal_strlit("user_preference");
    reveal_strlit("preference");
    reveal_strlit("user");
    reveal_strlit("decision");
    reveal_strlit("meeting");
    reveal_strlit("planning");
    reveal_strlit("learning");
    reveal_strlit("tutorial");
    reveal_strlit("education");
    reveal_strlit("configuration");
    reveal_strlit("config");
    reveal_strlit("setup");
    reveal_strlit("deployment");
    reveal_strlit("testing");
    reveal_strlit("test");
    reveal_strlit("qa");
    reveal_strlit("performance");
    reveal_strlit("perf");
    reveal_strlit("optimization");
    reveal_strlit("security");
    reveal_strlit("vulnerability");
    reveal_strlit("vuln");
    reveal_strlit("insight");
    let l = t.label();
    match t {
        MemoryType::Code => {},
        MemoryType::Architecture => {
            assert(l[0] == 'a');
        },
        MemoryType::BugFix => {
            assert(l[0] == 'b');
        },
        MemoryType::Feature => {
            assert(l[0] == 'f');
        },
        MemoryType::Documentation => {
            assert(l[0] == 'd' && l[1] == 'o');
        },
        MemoryType::UserPreference => {
            assert(l[0] == 'u');
        },
        MemoryType::Decision => {
            assert(l[0] == 'd' && l[1] == 'e' && l[2] == 'c');
        },
        MemoryType::Learning => {
            assert(l[0] == 'l');
        },
        MemoryType::Configuration => {
            assert(l[0] == 'c' && l[1] == 'o' && l[2] == 'n');
        },
        MemoryType::Testing => {
            assert(l[0] == 't' && l[1] == 'e');
        },
        MemoryType::Performance => {
            assert(l[0] == 'p' && l[1] == 'e' && l[2] == 'r' && l[3] == 'f');
        },
        MemoryType::Security => {
            assert(l[0] == 's' && l[1] == 'e' && l[2] == 'c');
        },
        MemoryType::Insight => {
            assert(l[0] == 'i');
        },
    }
}

/// How the importance of one memory fades and is reinforced.
#[derive(Clone, Copy, Debug, PartialEq, Eq, Structural)]
pub struct MemoryDecay {
    /// Importance before decay, in `[0, 1]`.
    pub base_importance: Score,
    /// How often the memory has been read.
    pub access_count: u32,
    /// When the memory was last read.
    pub last_accessed: Timestamp,
    /// How fast importance fades; `1.0` is one e-fold in thirty days.
    pub decay_rate: Score,
}

/// The exponent of the time decay: `rate * days / 30`, in millionths.
pub open spec fn decay_exponent(rate: int, days: int) -> int {
    saturate(trunc_div(rate * days, 30))
}

/// The factor by which importance has faded after `days` days:
/// `exp(-rate * days / 30)`, in millionths.
pub open spec fn time_decay(rate: int, days: int) -> int {
    exp_neg(decay_exponent(rate, days)) as int
}

/// The factor by which `count` reads reinforce importance: `ln(count + 1)`,
/// in millionths.
pub open spec fn access_boost(count: nat) -> int {
    log_micros(count + 1) as int
}

/// Importance after decay and reinforcement, before the floor:
/// `base * exp(-rate * days / 30) * ln(count + 1)`.
pub open spec fn decayed_importance(base: int, rate: int, days: int, count: nat) -> int {
    mul_micros(mul_micros(base, time_decay(rate, days)), access_boost(count))
}

/// The larger of two integers.
pub open spec fn larger(a: int, b: int) -> int {
    if a >= b {
        a
    } else {
        b
    }
}

impl MemoryDecay {
    /// Whether the record keeps its bounds: a base importance in `[0, 1]`
    /// and a positive decay rate.
    pub open spec fn well_formed(self) -> bool {
        &&& self.base_importance.in_unit()
        &&& self.decay_rate.micros > 0
    }

    /// The current importance at the instant `now`, never below
    /// `min_threshold`.
    pub open spec fn importance_at(self, now: int, min_threshold: int) -> int {
        larger(
            min_threshold,
            decayed_importance(
                self.base_importance.micros as int,
                self.decay_rate.micros as int,
                whole_days(self.last_accessed.millis as int, now),
                self.access_count as nat,
            ),
        )
    }

    /// A fresh record: never read, last touched now, fading at rate one.
    pub fn new(base_importance: Score) -> (r: MemoryDecay)
        ensures
            r.base_importance == base_importance,
            r.access_count == 0,
            r.decay_rate.micros == SCALE,
    {
        MemoryDecay::new_at(base_importance, Timestamp::now())
    }

    /// A fresh record as of `now`.
    pub fn new_at(base_importance: Score, now: Timestamp) -> (r: MemoryDecay)
        ensures
            r == (MemoryDecay {
                base_importance,
                access_count: 0,
                last_accessed: now,
                decay_rate: Score { micros: SCALE },
            }),
    {
        MemoryDecay {
            base_importance,
            access_count: 0,
            last_accessed: now,
            decay_rate: Score::one(),
        }
    }

    /// The current importance as the clock stands: the decayed and
    /// reinforced importance at some instant, never below `min_threshold`.
    pub fn calculate_current_importance(&self, min_threshold: Score) -> (r: Score)
        ensures
            r.micros >= min_threshold.micros,
            exists|now: int| r.micros == self.importance_at(now, min_threshold.micros as int),
    {
        let now = Timestamp::now();
        let r = self.calculate_current_importance_at(now, min_threshold);
        assert(r.micros == self.importance_at(now.millis as int, min_threshold.micros as int));
        r
    }

    /// The current importance at the instant `now`.
    pub fn calculate_current_importance_at(&self, now: Timestamp, min_threshold: Score) -> (r:
        Score)
        ensures
            r.micros == self.importance_at(now.millis as int, min_threshold.micros as int),
            r.micros >= min_threshold.micros,
    {
        let days: i64 = self.last_accessed.days_until(now);
        let rate: i128 = self.decay_rate.micros as i128;
        let span: i128 = days as i128;
        assert(-0x4000_0000_0000_0000_0000_0000_0000_0000 <= rate * span
            <= 0x4000_0000_0000_0000_0000_0000_0000_0000) by (nonlinear_arith)
            requires
                -0x8000_0000_0000_0000 <= rate <= 0x8000_0000_0000_0000,
                -0x8000_0000_0000_0000 <= span <= 0x8000_0000_0000_0000,
        ;
        let product: i128 = rate * span;
        let exponent: i64 = crate::fixed::narrow(product / 30i128);
        let fade: u64 = exp_neg_micros(exponent);
        proof {
            crate::expmath::lemma_exp_neg_bound(exponent as int);
        }
        let boost: u64 = log_of(self.access_count as u64 + 1);
        let faded = self.base_importance.times(Score { micros: fade as i64 });
        let current = faded.times(Score { micros: boost as i64 });
        current.at_least(min_threshold)
    }

    /// Counts one more read and moves the last access to now. The count
    /// stays at its largest value once it is reached.
    pub fn record_access(&mut self)
        ensures
            final(self).access_count == if old(self).access_count < u32::MAX {
                old(self).access_count + 1
            } else {
                u32::MAX as int
            },
            final(self).base_importance == old(self).base_importance,
            final(self).decay_rate == old(self).decay_rate,
    {
        self.record_access_at(Timestamp::now());
    }

    /// Counts one more read and moves the last access to `now`.
    pub fn record_access_at(&mut self, now: Timestamp)
        ensures
            final(self).access_count == if old(self).access_count < u32::MAX {
                old(self).access_count + 1
            } else {
                u32::MAX as int
            },
            final(self).last_accessed == now,
            final(self).base_importance == old(self).base_importance,
            final(self).decay_rate == old(self).decay_rate,
            old(self).well_formed() ==> final(self).well_formed(),
    {
        if self.access_count < u32::MAX {
            self.access_count = self.access_count + 1;
        }
        self.last_accessed = now;
    }

    /// Sets the base importance, brought into `[0, 1]`.
    pub fn update_base_importance(&mut self, new_importance: Score)
        ensures
            final(self).base_importance.micros == unit(new_importance.micros as int),
            final(self).access_count == old(self).access_count,
            final(self).last_accessed == old(self).last_accessed,
            final(self).decay_rate == old(self).decay_rate,
            old(self).decay_rate.micros > 0 ==> final(self).well_formed(),
    {
        self.base_importance = new_importance.clamp_unit();
    }
}

impl Default for MemoryDecay {
    /// A fresh record of base importance one half.
    fn default() -> (r: MemoryDecay)
        ensures
            r.base_importance.micros == 500_000,
            r.access_count == 0,
            r.decay_rate.micros == SCALE,
    {
        MemoryDecay::new(Score { micros: 500_000 })
    }
}

/// Importance never gains with time: with the reads held fixed, what is
/// read at a later instant is no larger.
pub proof fn lemma_importance_fades(d: MemoryDecay, now1: int, now2: int, min_threshold: int)
    requires
        d.base_importance.micros >= 0,
        d.decay_rate.micros >= 0,
        now1 <= now2,
    ensures
        d.importance_at(now2, min_threshold) <= d.importance_at(now1, min_threshold),
{
    let last = d.last_accessed.millis as int;
    crate::fixed::lemma_trunc_div_monotone(
        now1 - last,
        now2 - last,
        crate::clock::MILLIS_PER_DAY as int,
    );
    lemma_decay_fades(
        d.base_importance.micros as int,
        d.decay_rate.micros as int,
        whole_days(last, now1),
        whole_days(last, now2),
        d.access_count as nat,
    );
}

/// With the reads held fixed, more days give no more importance.
pub proof fn lemma_decay_fades(base: int, rate: int, days1: int, days2: int, count: nat)
    requires
        base >= 0,
        rate >= 0,
        days1 <= days2,
    ensures
        decayed_importance(base, rate, days2, count) <= decayed_importance(
            base,
            rate,
            days1,
            count,
        ),
{
    assert(rate * days1 <= rate * days2) by (nonlinear_arith)
        requires
            rate >= 0,
            days1 <= days2,
    ;
    crate::fixed::lemma_trunc_div_monotone(rate * days1, rate * days2, 30);
    crate::expmath::lemma_exp_neg_antitone(
        decay_exponent(rate, days1),
        decay_exponent(rate, days2),
    );
    crate::fixed::lemma_mul_micros_monotone(time_decay(rate, days2), time_decay(rate, days1), base);
    crate::expmath::lemma_log_exists(count + 1);
    crate::fixed::lemma_mul_micros_monotone(
        mul_micros(base, time_decay(rate, days2)),
        mul_micros(base, time_decay(rate, days1)),
        access_boost(count),
    );
}

/// With the days held fixed, more reads give no less importance.
pub proof fn lemma_reads_reinforce(base: int, rate: int, days: int, count1: nat, count2: nat)
    requires
        base >= 0,
        count1 <= count2,
    ensures
        decayed_importance(base, rate, days, count1) <= decayed_importance(
            base,
            rate,
            days,
            count2,
        ),
{
    crate::expmath::lemma_log_exists(count1 + 1);
    crate::expmath::lemma_log_exists(count2 + 1);
    crate::expmath::lemma_log_monotone(count1 + 1, count2 + 1);
    crate::fixed::lemma_mul_micros_nonnegative(base, time_decay(rate, days));
    crate::fixed::lemma_mul_micros_monotone(
        access_boost(count1),
        access_boost(count2),
        mul_micros(base, time_decay(rate, days)),
    );
}

/// Reading a memory more often never lowers its importance at a given
/// instant.
pub proof fn lemma_importance_reinforced(
    d1: MemoryDecay,
    d2: MemoryDecay,
    now: int,
    min_threshold: int,
)
    requires
        d1.base_importance.micros >= 0,
        d2.base_importance == d1.base_importance,
        d2.decay_rate == d1.decay_rate,
        d2.last_accessed == d1.last_accessed,
        d1.access_count <= d2.access_count,
    ensures
        d1.importance_at(now, min_threshold) <= d2.importance_at(now, min_threshold),
{
    lemma_reads_reinforce(
        d1.base_importance.micros as int,
        d1.decay_rate.micros as int,
        whole_days(d1.last_accessed.millis as int, now),
        d1.access_count as nat,
        d2.access_count as nat,
    );
}

/// The current importance never falls below the floor.
pub proof fn lemma_importance_floor(d: MemoryDecay, now: int, min_threshold: int)
    ensures
        d.importance_at(now, min_threshold) >= min_threshold,
{
}

/// The text of an optional string.
pub open spec fn opt_text(o: Option<String>) -> Option<Seq<char>> {
    match o {
        Some(s) => Some(s@),
        None => None,
    }
}

/// The texts of a list of pairs of strings.
pub open spec fn pair_views(v: Seq<(String, String)>) -> Seq<(Seq<char>, Seq<char>)> {
    Seq::new(v.len(), |i: int| (v[i].0@, v[i].1@))
}

/// Whether no text stands twice in `v`.
pub open spec fn distinct_texts(v: Seq<String>) -> bool {
    forall|i: int, j: int| 0 <= i < j < v.len() ==> (#[trigger] v[i])@ != (#[trigger] v[j])@
}

/// Whether no name stands twice among pairs of a name and a value.
pub open spec fn distinct_keys(v: Seq<(String, String)>) -> bool {
    forall|i: int, j: int| 0 <= i < j < v.len() ==> (#[trigger] v[i]).0@ != (#[trigger] v[j]).0@
}

/// What belongs to a memory besides its text.
#[derive(Debug)]
pub struct MemoryMetadata {
    /// The Git commit at which the memory was made.
    pub git_commit: Option<String>,
    /// The files the memory is about, each once, in the order they came.
    pub related_files: Vec<String>,
    /// The tags of the memory, each once, in the order they came.
    pub tags: Vec<String>,
    /// Importance, in `[0, 1]`.
    pub importance: Score,
    /// Confidence, in `[0, 1]`.
    pub confidence: Score,
    /// Who made the memory.
    pub created_by: Option<String>,
    /// Further fields, as pairs of a name and a value, each name once.
    pub custom_fields: Vec<(String, String)>,
    /// How the importance fades and is reinforced.
    pub decay: MemoryDecay,
}

/// A [`MemoryMetadata`] as plain values.
pub struct MetadataView {
    pub git_commit: Option<Seq<char>>,
    pub related_files: Seq<Seq<char>>,
    pub tags: Seq<Seq<char>>,
    pub importance: Score,
    pub confidence: Score,
    pub created_by: Option<Seq<char>>,
    pub custom_fields: Seq<(Seq<char>, Seq<char>)>,
    pub decay: MemoryDecay,
}

impl View for MemoryMetadata {
    type V = MetadataView;

    open spec fn view(&self) -> MetadataView {
        MetadataView {
            git_commit: opt_text(self.git_commit),
            related_files: views(self.related_files@),
            tags: views(self.tags@),
            importance: self.importance,
            confidence: self.confidence,
            created_by: opt_text(self.created_by),
            custom_fields: pair_views(self.custom_fields@),
            decay: self.decay,
        }
    }
}

/// The metadata of a memory about which nothing was said, as of `now`:
/// importance one half, confidence one, never read, nothing else.
pub open spec fn default_metadata(now: Timestamp) -> MetadataView {
    MetadataView {
        git_commit: None,
        related_files: Seq::empty(),
        tags: Seq::empty(),
        importance: Score { micros: 500_000 },
        confidence: Score { micros: SCALE },
        created_by: None,
        custom_fields: Seq::empty(),
        decay: MemoryDecay {
            base_importance: Score { micros: 500_000 },
            access_count: 0,
            last_accessed: now,
            decay_rate: Score { micros: SCALE },
        },
    }
}

/// A copy of a list of pairs of strings.
pub fn clone_pairs(v: &Vec<(String, String)>) -> (r: Vec<(String, String)>)
    ensures
        r@ == v@,
{
    let mut r: Vec<(String, String)> = Vec::new();
    let mut i: usize = 0;
    while i < v.len()
        invariant
            i <= v.len(),
            r@ == v@.take(i as int),
        decreases v.len() - i,
    {
        let pair = (v[i].0.clone(), v[i].1.clone());
        r.push(pair);
        i += 1;
        assert(r@ =~= v@.take(i as int));
    }
    assert(v@.take(v.len() as int) =~= v@);
    r
}

impl MemoryMetadata {
    /// Whether the metadata keep their bounds: importance and confidence in
    /// `[0, 1]`, no tag and no file twice, no name of a further field
    /// twice, a well-formed decay record.
    pub open spec fn well_formed(&self) -> bool {
        &&& self.importance.in_unit()
        &&& self.confidence.in_unit()
        &&& distinct_texts(self.tags@)
        &&& distinct_texts(self.related_files@)
        &&& distinct_keys(self.custom_fields@)
        &&& self.decay.well_formed()
    }

    /// The metadata of a memory about which nothing was said, as of `now`:
    /// importance one half, confidence one, nothing else.
    pub fn default_at(now: Timestamp) -> (r: MemoryMetadata)
        ensures
            r@ == default_metadata(now),
            r.well_formed(),
    {
        let r = MemoryMetadata {
            git_commit: None,
            related_files: Vec::new(),
            tags: Vec::new(),
            importance: Score { micros: 500_000 },
            confidence: Score::one(),
            created_by: None,
            custom_fields: Vec::new(),
            decay: MemoryDecay::new_at(Score { micros: 500_000 }, now),
        };
        assert(r@.related_files =~= Seq::empty());
        assert(r@.tags =~= Seq::empty());
        assert(r@.custom_fields =~= Seq::empty());
        r
    }
}

impl Default for MemoryMetadata {
    /// The metadata of a memory about which nothing was said, as the clock
    /// stands.
    fn default() -> (r: MemoryMetadata)
        ensures
            exists|now: Timestamp| r@ == default_metadata(now),
            r.well_formed(),
    {
        MemoryMetadata::default_at(Timestamp::now())
    }
}

impl Clone for MemoryMetadata {
    fn clone(&self) -> (r: MemoryMetadata)
        ensures
            r@ == self@,
            r.tags@ == self.tags@,
            r.related_files@ == self.related_files@,
    {
        MemoryMetadata {
            git_commit: clone_opt_string(&self.git_commit),
            related_files: clone_strings(&self.related_files),
            tags: clone_strings(&self.tags),
            importance: self.importance,
            confidence: self.confidence,
            created_by: clone_opt_string(&self.created_by),
            custom_fields: clone_pairs(&self.custom_fields),
            decay: self.decay,
        }
    }
}

/// One memory.
#[derive(Debug)]
pub struct Memory {
    /// The identifier, a UUID in text.
    pub id: String,
    /// The kind of memory.
    pub memory_type: MemoryType,
    /// A short title.
    pub title: String,
    /// The text to remember.
    pub content: String,
    /// What belongs to the memory besides its text.
    pub metadata: MemoryMetadata,
    /// When the memory was made.
    pub created_at: Timestamp,
    /// When the memory was last changed; never before `created_at`.
    pub updated_at: Timestamp,
    /// The score under which a search found the memory; not stored.
    pub relevance_score: Option<Score>,
}

/// A [`Memory`] as plain values.
pub struct MemoryView {
    pub id: Seq<char>,
    pub memory_type: MemoryType,
    pub title: Seq<char>,
    pub content: Seq<char>,
    pub metadata: MetadataView,
    pub created_at: Timestamp,
    pub updated_at: Timestamp,
    pub relevance_score: Option<Score>,
}

impl View for Memory {
    type V = MemoryView;

    open spec fn view(&self) -> MemoryView {
        MemoryView {
            id: self.id@,
            memory_type: self.memory_type,
            title: self.title@,
            content: self.content@,
            metadata: self.metadata@,
            created_at: self.created_at,
            updated_at: self.updated_at,
            relevance_score: self.relevance_score,
        }
    }
}

impl Clone for Memory {
    fn clone(&self) -> (r: Memory)
        ensures
            r@ == self@,
            r.metadata.tags@ == self.metadata.tags@,
            r.metadata.related_files@ == self.metadata.related_files@,
    {
        Memory {
            id: self.id.clone(),
            memory_type: self.memory_type,
            title: self.title.clone(),
            content: self.content.clone(),
            metadata: self.metadata.clone(),
            created_at: self.created_at,
            updated_at: self.updated_at,
            relevance_score: self.relevance_score,
        }
    }
}

/// The later of two instants.
pub open spec fn later_of(a: Timestamp, b: Timestamp) -> Timestamp {
    if a.millis >= b.millis {
        a
    } else {
        b
    }
}

/// The text by which a memory is found: title, content, the tags and the
/// files, each part set off by one space.
pub open spec fn searchable_text(m: MemoryView) -> Seq<char> {
    m.title + seq![' '] + m.content + seq![' '] + joined(m.metadata.tags, seq![' ']) + seq![' ']
        + joined(m.metadata.related_files, seq![' '])
}

impl Memory {
    /// Whether the memory keeps its bounds: never changed before it was
    /// made, and well-formed metadata.
    pub open spec fn well_formed(&self) -> bool {
        &&& self.updated_at.millis >= self.created_at.millis
        &&& self.metadata.well_formed()
    }

    /// A new memory with a fresh identifier, made and changed now; without
    /// `metadata` it gets the default metadata.
    pub fn new(
        memory_type: MemoryType,
        title: String,
        content: String,
        metadata: Option<MemoryMetadata>,
    ) -> (m: Memory)
        ensures
            is_uuid_text(m.id@),
            m.memory_type == memory_type,
            m.title == title,
            m.content == content,
            m.created_at == m.updated_at,
            m.relevance_score is None,
            match metadata {
                Some(given) => m.metadata == given,
                None => exists|now: Timestamp| m.metadata@ == default_metadata(now),
            },
            metadata is None || metadata->0.well_formed() ==> m.well_formed(),
    {
        let now = Timestamp::now();
        let m = Memory::new_at(memory_type, title, content, metadata, new_id(), now);
        m
    }

    /// A new memory under the identifier `id`, made and changed at `now`.
    pub fn new_at(
        memory_type: MemoryType,
        title: String,
        content: String,
        metadata: Option<MemoryMetadata>,
        id: String,
        now: Timestamp,
    ) -> (m: Memory)
        ensures
            m.id == id,
            m.memory_type == memory_type,
            m.title == title,
            m.content == content,
            m.created_at == now,
            m.updated_at == now,
            m.relevance_score is None,
            match metadata {
                Some(given) => m.metadata == given,
                None => m.metadata@ == default_metadata(now),
            },
            metadata is None || metadata->0.well_formed() ==> m.well_formed(),
    {
        let metadata = match metadata {
            Some(given) => given,
            None => MemoryMetadata::default_at(now),
        };
        Memory {
            id,
            memory_type,
            title,
            content,
            metadata,
            created_at: now,
            updated_at: now,
            relevance_score: None,
        }
    }

    /// Marks the memory as changed at `now`, or at its creation where the
    /// clock stands before that.
    pub fn touch_at(&mut self, now: Timestamp)
        ensures
            final(self).updated_at == later_of(now, old(self).created_at),
            final(self).id == old(self).id,
            final(self).memory_type == old(self).memory_type,
            final(self).title == old(self).title,
            final(self).content == old(self).content,
            final(self).metadata == old(self).metadata,
            final(self).created_at == old(self).created_at,
            final(self).relevance_score == old(self).relevance_score,
            old(self).metadata.well_formed() ==> final(self).well_formed(),
    {
        if now.millis >= self.created_at.millis {
            self.updated_at = now;
        } else {
            self.updated_at = self.created_at;
        }
    }

    /// Replaces what is given, keeps the rest, and marks the memory as
    /// changed.
    pub fn update(
        &mut self,
        title: Option<String>,
        content: Option<String>,
        metadata: Option<MemoryMetadata>,
    )
        ensures
            final(self).title == (match title {
                Some(t) => t,
                None => old(self).title,
            }),
            final(self).content == (match content {
                Some(c) => c,
                None => old(self).content,
            }),
            final(self).metadata == (match metadata {
                Some(m) => m,
                None => old(self).metadata,
            }),
            final(self).id == old(self).id,
            final(self).memory_type == old(self).memory_type,
            final(self).created_at == old(self).created_at,
            final(self).relevance_score == old(self).relevance_score,
            final(self).updated_at.millis >= final(self).created_at.millis,
            (match metadata {
                Some(m) => m.well_formed(),
                None => old(self).metadata.well_formed(),
            }) ==> final(self).well_formed(),
    {
        self.update_at(title, content, metadata, Timestamp::now());
    }

    /// Replaces what is given, keeps the rest, and marks the memory as
    /// changed at `now`.
    pub fn update_at(
        &mut self,
        title: Option<String>,
        content: Option<String>,
        metadata: Option<MemoryMetadata>,
        now: Timestamp,
    )
        ensures
            final(self).title == (match title {
                Some(t) => t,
                None => old(self).title,
            }),
            final(self).content == (match content {
                Some(c) => c,
                None => old(self).content,
            }),
            final(self).metadata == (match metadata {
                Some(m) => m,
                None => old(self).metadata,
            }),
            final(self).id == old(self).id,
            final(self).memory_type == old(self).memory_type,
            final(self).created_at == old(self).created_at,
            final(self).relevance_score == old(self).relevance_score,
            final(self).updated_at == later_of(now, old(self).created_at),
            (match metadata {
                Some(m) => m.well_formed(),
                None => old(self).metadata.well_formed(),
            }) ==> final(self).well_formed(),
    {
        match title {
            Some(t) => {
                self.title = t;
            },
            None => {},
        }
        match content {
            Some(c) => {
                self.content = c;
            },
            None => {},
        }
        match metadata {
            Some(m) => {
                self.metadata = m;
            },
            None => {},
        }
        self.touch_at(now);
    }

    /// The text that is handed to the embedder.
    pub fn get_searchable_text(&self) -> (s: String)
        ensures
            s@ == searchable_text(self@),
    {
        let mut out: Vec<char> = Vec::new();
        push_text(&mut out, self.title.as_str());
        out.push(' ');
        push_text(&mut out, self.content.as_str());
        out.push(' ');
        let tags = join_chars(&self.metadata.tags, " ");
        push_chars(&mut out, &tags);
        out.push(' ');
        let files = join_chars(&self.metadata.related_files, " ");
        push_chars(&mut out, &files);
        proof {
            reveal_strlit(" ");
            assert(" "@ =~= seq![' ']);
            assert(out@ =~= searchable_text(self@));
        }
        string_of(&out)
    }

    /// The importance used in ranking: the decayed importance where decay is
    /// enabled, the stored importance where it is not.
    pub fn get_current_importance(&self, decay_enabled: bool, min_threshold: Score) -> (r: Score)
        ensures
            !decay_enabled ==> r == self.metadata.importance,
            decay_enabled ==> r.micros >= min_threshold.micros,
            decay_enabled ==> exists|now: int|
                r.micros == self.metadata.decay.importance_at(now, min_threshold.micros as int),
    {
        if decay_enabled {
            self.metadata.decay.calculate_current_importance(min_threshold)
        } else {
            self.metadata.importance
        }
    }

    /// The importance used in ranking at the instant `now`.
    pub open spec fn current_importance_at(
        &self,
        decay_enabled: bool,
        min_threshold: int,
        now: int,
    ) -> int {
        if decay_enabled {
            self.metadata.decay.importance_at(now, min_threshold)
        } else {
            self.metadata.importance.micros as int
        }
    }

    /// The importance used in ranking at the instant `now`.
    pub fn get_current_importance_at(
        &self,
        decay_enabled: bool,
        min_threshold: Score,
        now: Timestamp,
    ) -> (r: Score)
        ensures
            r.micros == self.current_importance_at(
                decay_enabled,
                min_threshold.micros as int,
                now.millis as int,
            ),
    {
        if decay_enabled {
            self.metadata.decay.calculate_current_importance_at(now, min_threshold)
        } else {
            self.metadata.importance
        }
    }

    /// Counts one more read of the memory.
    pub fn record_access(&mut self)
        ensures
            final(self).metadata.decay.access_count == if old(self).metadata.decay.access_count
                < u32::MAX {
                old(self).metadata.decay.access_count + 1
            } else {
                u32::MAX as int
            },
            final(self).metadata.decay.base_importance == old(self).metadata.decay.base_importance,
            final(self).metadata.decay.decay_rate == old(self).metadata.decay.decay_rate,
            final(self).metadata.tags == old(self).metadata.tags,
            final(self).metadata.related_files == old(self).metadata.related_files,
            final(self).metadata.importance == old(self).metadata.importance,
            final(self).metadata.confidence == old(self).metadata.confidence,
            final(self).metadata.git_commit == old(self).metadata.git_commit,
            final(self).id == old(self).id,
            final(self).title == old(self).title,
            final(self).content == old(self).content,
            final(self).created_at == old(self).created_at,
            final(self).updated_at == old(self).updated_at,
            old(self).well_formed() ==> final(self).well_formed(),
    {
        self.metadata.decay.record_access();
    }

    /// Adds a tag that the memory does not have yet, and then marks the
    /// memory as changed; a tag that it has changes nothing.
    pub fn add_tag(&mut self, tag: String)
        ensures
            has_text(old(self).metadata.tags@, tag@) ==> *final(self) == *old(self),
            !has_text(old(self).metadata.tags@, tag@) ==> {
                &&& final(self).metadata.tags@ == old(self).metadata.tags@.push(tag)
                &&& final(self).updated_at.millis >= final(self).created_at.millis
            },
            final(self).id == old(self).id,
            final(self).title == old(self).title,
            final(self).content == old(self).content,
            final(self).memory_type == old(self).memory_type,
            final(self).created_at == old(self).created_at,
            final(self).metadata.related_files == old(self).metadata.related_files,
            final(self).metadata.importance == old(self).metadata.importance,
            final(self).metadata.confidence == old(self).metadata.confidence,
            final(self).metadata.decay == old(self).metadata.decay,
            final(self).metadata.git_commit == old(self).metadata.git_commit,
            final(self).metadata.created_by == old(self).metadata.created_by,
            final(self).metadata.custom_fields == old(self).metadata.custom_fields,
            final(self).relevance_score == old(self).relevance_score,
            distinct_texts(old(self).metadata.tags@) ==> distinct_texts(final(self).metadata.tags@),
            old(self).well_formed() ==> final(self).well_formed(),
    {
        self.add_tag_at(tag, Timestamp::now());
    }

    /// Adds a tag that the memory does not have yet, and then marks the
    /// memory as changed at `now`; a tag that it has changes nothing.
    pub fn add_tag_at(&mut self, tag: String, now: Timestamp)
        ensures
            has_text(old(self).metadata.tags@, tag@) ==> *final(self) == *old(self),
            !has_text(old(self).metadata.tags@, tag@) ==> {
                &&& final(self).metadata.tags@ == old(self).metadata.tags@.push(tag)
                &&& final(self).updated_at.millis >= final(self).created_at.millis
            },
            final(self).id == old(self).id,
            final(self).title == old(self).title,
            final(self).content == old(self).content,
            final(self).memory_type == old(self).memory_type,
            final(self).created_at == old(self).created_at,
            final(self).metadata.related_files == old(self).metadata.related_files,
            final(self).metadata.importance == old(self).metadata.importance,
            final(self).metadata.confidence == old(self).metadata.confidence,
            final(self).metadata.decay == old(self).metadata.decay,
            final(self).metadata.git_commit == old(self).metadata.git_commit,
            final(self).metadata.created_by == old(self).metadata.created_by,
            final(self).metadata.custom_fields == old(self).metadata.custom_fields,
            final(self).relevance_score == old(self).relevance_score,
            distinct_texts(old(self).metadata.tags@) ==> distinct_texts(final(self).metadata.tags@),
            old(self).well_formed() ==> final(self).well_formed(),
            !has_text(old(self).metadata.tags@, tag@) ==> final(self).updated_at == later_of(
                now,
                old(self).created_at,
            ),
    {
        if position_of(&self.metadata.tags, tag.as_str()).is_none() {
            self.metadata.tags.push(tag);
            self.touch_at(now);
        }
    }

    /// Removes the first tag that reads as `tag`, and then marks the memory
    /// as changed; a tag that it does not have changes nothing.
    pub fn remove_tag(&mut self, tag: &str)
        ensures
            !has_text(old(self).metadata.tags@, tag@) ==> *final(self) == *old(self),
            has_text(old(self).metadata.tags@, tag@) ==> {
                &&& exists|pos: int|
                    {
                        &&& 0 <= pos < old(self).metadata.tags@.len()
                        &&& (#[trigger] old(self).metadata.tags@[pos])@ == tag@
                        &&& forall|j: int| 0 <= j < pos ==> (#[trigger] old(self).metadata.tags@[j])@ != tag@
                        &&& final(self).metadata.tags@ == old(self).metadata.tags@.remove(pos)
                    }
                &&& final(self).updated_at.millis >= final(self).created_at.millis
            },
            final(self).id == old(self).id,
            final(self).title == old(self).title,
            final(self).content == old(self).content,
            final(self).memory_type == old(self).memory_type,
            final(self).created_at == old(self).created_at,
            final(self).metadata.related_files == old(self).metadata.related_files,
            final(self).metadata.importance == old(self).metadata.importance,
            final(self).metadata.confidence == old(self).metadata.confidence,
            final(self).metadata.decay == old(self).metadata.decay,
            final(self).metadata.git_commit == old(self).metadata.git_commit,
            final(self).metadata.created_by == old(self).metadata.created_by,
            final(self).metadata.custom_fields == old(self).metadata.custom_fields,
            final(self).relevance_score == old(self).relevance_score,
            distinct_texts(old(self).metadata.tags@) ==> !has_text(final(self).metadata.tags@, tag@),
            old(self).well_formed() ==> final(self).well_formed(),
    {
        self.remove_tag_at(tag, Timestamp::now());
    }

    /// Removes the first tag that reads as `tag`, and then marks the memory
    /// as changed at `now`; a tag that it does not have changes nothing.
    pub fn remove_tag_at(&mut self, tag: &str, now: Timestamp)
        ensures
            !has_text(old(self).metadata.tags@, tag@) ==> *final(self) == *old(self),
            has_text(old(self).metadata.tags@, tag@) ==> {
                &&& exists|pos: int|
                    {
                        &&& 0 <= pos < old(self).metadata.tags@.len()
                        &&& (#[trigger] old(self).metadata.tags@[pos])@ == tag@
                        &&& forall|j: int| 0 <= j < pos ==> (#[trigger] old(self).metadata.tags@[j])@ != tag@
                        &&& final(self).metadata.tags@ == old(self).metadata.tags@.remove(pos)
                    }
                &&& final(self).updated_at.millis >= final(self).created_at.millis
            },
            final(self).id == old(self).id,
            final(self).title == old(self).title,
            final(self).content == old(self).content,
            final(self).memory_type == old(self).memory_type,
            final(self).created_at == old(self).created_at,
            final(self).metadata.related_files == old(self).metadata.related_files,
            final(self).metadata.importance == old(self).metadata.importance,
            final(self).metadata.confidence == old(self).metadata.confidence,
            final(self).metadata.decay == old(self).metadata.decay,
            final(self).metadata.git_commit == old(self).metadata.git_commit,
            final(self).metadata.created_by == old(self).metadata.created_by,
            final(self).metadata.custom_fields == old(self).metadata.custom_fields,
            final(self).relevance_score == old(self).relevance_score,
            distinct_texts(old(self).metadata.tags@) ==> !has_text(final(self).metadata.tags@, tag@),
            old(self).well_formed() ==> final(self).well_formed(),
            has_text(old(self).metadata.tags@, tag@) ==> final(self).updated_at == later_of(
                now,
                old(self).created_at,
            ),
    {
        match position_of(&self.metadata.tags, tag) {
            Some(pos) => {
                self.metadata.tags.remove(pos);
                self.touch_at(now);
                proof {
                    lemma_removed_is_gone(old(self).metadata.tags@, pos as int, tag@);
                }
            },
            None => {},
        }
    }

    /// Adds a file that the memory does not name yet, and then marks the
    /// memory as changed; a file that it names changes nothing.
    pub fn add_related_file(&mut self, file_path: String)
        ensures
            has_text(old(self).metadata.related_files@, file_path@) ==> *final(self) == *old(self),
            !has_text(old(self).metadata.related_files@, file_path@) ==> {
                &&& final(self).metadata.related_files@ == old(self).metadata.related_files@.push(
                    file_path,
                )
                &&& final(self).updated_at.millis >= final(self).created_at.millis
            },
            final(self).id == old(self).id,
            final(self).title == old(self).title,
            final(self).content == old(self).content,
            final(self).memory_type == old(self).memory_type,
            final(self).created_at == old(self).created_at,
            final(self).metadata.tags == old(self).metadata.tags,
            final(self).metadata.importance == old(self).metadata.importance,
            final(self).metadata.confidence == old(self).metadata.confidence,
            final(self).metadata.decay == old(self).metadata.decay,
            final(self).metadata.git_commit == old(self).metadata.git_commit,
            final(self).metadata.created_by == old(self).metadata.created_by,
            final(self).metadata.custom_fields == old(self).metadata.custom_fields,
            final(self).relevance_score == old(self).relevance_score,
            distinct_texts(old(self).metadata.related_files@) ==> distinct_texts(
                final(self).metadata.related_files@,
            ),
            old(self).well_formed() ==> final(self).well_formed(),
    {
        self.add_related_file_at(file_path, Timestamp::now());
    }

    /// Adds a file that the memory does not name yet, and then marks the
    /// memory as changed at `now`; a file that it names changes nothing.
    pub fn add_related_file_at(&mut self, file_path: String, now: Timestamp)
        ensures
            has_text(old(self).metadata.related_files@, file_path@) ==> *final(self) == *old(self),
            !has_text(old(self).metadata.related_files@, file_path@) ==> {
                &&& final(self).metadata.related_files@ == old(self).metadata.related_files@.push(
                    file_path,
                )
                &&& final(self).updated_at.millis >= final(self).created_at.millis
            },
            final(self).id == old(self).id,
            final(self).title == old(self).title,
            final(self).content == old(self).content,
            final(self).memory_type == old(self).memory_type,
            final(self).created_at == old(self).created_at,
            final(self).metadata.tags == old(self).metadata.tags,
            final(self).metadata.importance == old(self).metadata.importance,
            final(self).metadata.confidence == old(self).metadata.confidence,
            final(self).metadata.decay == old(self).metadata.decay,
            final(self).metadata.git_commit == old(self).metadata.git_commit,
            final(self).metadata.created_by == old(self).metadata.created_by,
            final(self).metadata.custom_fields == old(self).metadata.custom_fields,
            final(self).relevance_score == old(self).relevance_score,
            distinct_texts(old(self).metadata.related_files@) ==> distinct_texts(
                final(self).metadata.related_files@,
            ),
            old(self).well_formed() ==> final(self).well_formed(),
            !has_text(old(self).metadata.related_files@, file_path@) ==> final(self).updated_at
                == later_of(now, old(self).created_at),
    {
        if position_of(&self.metadata.related_files, file_path.as_str()).is_none() {
            self.metadata.related_files.push(file_path);
            self.touch_at(now);
        }
    }

    /// Removes the first file that reads as `file_path`, and then marks the
    /// memory as changed; a file that it does not name changes nothing.
    pub fn remove_related_file(&mut self, file_path: &str)
        ensures
            !has_text(old(self).metadata.related_files@, file_path@) ==> *final(self) == *old(self),
            has_text(old(self).metadata.related_files@, file_path@) ==> {
                &&& exists|pos: int|
                    {
                        &&& 0 <= pos < old(self).metadata.related_files@.len()
                        &&& (#[trigger] old(self).metadata.related_files@[pos])@ == file_path@
                        &&& forall|j: int|
                            0 <= j < pos ==> (#[trigger] old(self).metadata.related_files@[j])@
                                != file_path@
                        &&& final(self).metadata.related_files@
                            == old(self).metadata.related_files@.remove(pos)
                    }
                &&& final(self).updated_at.millis >= final(self).created_at.millis
            },
            final(self).id == old(self).id,
            final(self).title == old(self).title,
            final(self).content == old(self).content,
            final(self).memory_type == old(self).memory_type,
            final(self).created_at == old(self).created_at,
            final(self).metadata.tags == old(self).metadata.tags,
            final(self).metadata.importance == old(self).metadata.importance,
            final(self).metadata.confidence == old(self).metadata.confidence,
            final(self).metadata.decay == old(self).metadata.decay,
            final(self).metadata.git_commit == old(self).metadata.git_commit,
            final(self).metadata.created_by == old(self).metadata.created_by,
            final(self).metadata.custom_fields == old(self).metadata.custom_fields,
            final(self).relevance_score == old(self).relevance_score,
            distinct_texts(old(self).metadata.related_files@) ==> !has_text(
                final(self).metadata.related_files@,
                file_path@,
            ),
            old(self).well_formed() ==> final(self).well_formed(),
    {
        self.remove_related_file_at(file_path, Timestamp::now());
    }

    /// Removes the first file that reads as `file_path`, and then marks the
    /// memory as changed at `now`; a file that it does not name changes nothing.
    pub fn remove_related_file_at(&mut self, file_path: &str, now: Timestamp)
        ensures
            !has_text(old(self).metadata.related_files@, file_path@) ==> *final(self) == *old(self),
            has_text(old(self).metadata.related_files@, file_path@) ==> {
                &&& exists|pos: int|
                    {
                        &&& 0 <= pos < old(self).metadata.related_files@.len()
                        &&& (#[trigger] old(self).metadata.related_files@[pos])@ == file_path@
                        &&& forall|j: int|
                            0 <= j < pos ==> (#[trigger] old(self).metadata.related_files@[j])@
                                != file_path@
                        &&& final(self).metadata.related_files@
                            == old(self).metadata.related_files@.remove(pos)
                    }
                &&& final(self).updated_at.millis >= final(self).created_at.millis
            },
            final(self).id == old(self).id,
            final(self).title == old(self).title,
            final(self).content == old(self).content,
            final(self).memory_type == old(self).memory_type,
            final(self).created_at == old(self).created_at,
            final(self).metadata.tags == old(self).metadata.tags,
            final(self).metadata.importance == old(self).metadata.importance,
            final(self).metadata.confidence == old(self).metadata.confidence,
            final(self).metadata.decay == old(self).metadata.decay,
            final(self).metadata.git_commit == old(self).metadata.git_commit,
            final(self).metadata.created_by == old(self).metadata.created_by,
            final(self).metadata.custom_fields == old(self).metadata.custom_fields,
            final(self).relevance_score == old(self).relevance_score,
            distinct_texts(old(self).metadata.related_files@) ==> !has_text(
                final(self).metadata.related_files@,
                file_path@,
            ),
            old(self).well_formed() ==> final(self).well_formed(),
            has_text(old(self).metadata.related_files@, file_path@) ==> final(self).updated_at
                == later_of(now, old(self).created_at),
    {
        match position_of(&self.metadata.related_files, file_path) {
            Some(pos) => {
                self.metadata.related_files.remove(pos);
                self.touch_at(now);
                proof {
                    lemma_removed_is_gone(old(self).metadata.related_files@, pos as int, file_path@);
                }
            },
            None => {},
        }
    }
}

/// From a list without repeats, removing the one element that reads as `s`
/// leaves none that does.
pub proof fn lemma_removed_is_gone(v: Seq<String>, pos: int, s: Seq<char>)
    requires
        0 <= pos < v.len(),
        v[pos]@ == s,
    ensures
        distinct_texts(v) ==> !has_text(v.remove(pos), s),
        distinct_texts(v) ==> distinct_texts(v.remove(pos)),
{
    if distinct_texts(v) {
        let w = v.remove(pos);
        assert forall|i: int| 0 <= i < w.len() implies (#[trigger] w[i])@ != s by {
            if i < pos {
                assert(w[i] == v[i]);
            } else {
                assert(w[i] == v[i + 1]);
            }
        }
        assert forall|i: int, j: int| 0 <= i < j < w.len() implies (#[trigger] w[i])@ != (
        #[trigger] w[j])@ by {
            let a = if i < pos {
                i
            } else {
                i + 1
            };
            let b = if j < pos {
                j
            } else {
                j + 1
            };
            assert(w[i] == v[a] && w[j] == v[b]);
        }
    }
}

/// A copy of a list of kinds.
pub fn clone_types(v: &Vec<MemoryType>) -> (r: Vec<MemoryType>)
    ensures
        r@ == v@,
{
    let mut r: Vec<MemoryType> = Vec::new();
    let mut i: usize = 0;
    while i < v.len()
        invariant
            i <= v.len(),
            r@ == v@.take(i as int),
        decreases v.len() - i,
    {
        r.push(v[i]);
        i += 1;
        assert(r@ =~= v@.take(i as int));
    }
    assert(v@.take(v.len() as int) =~= v@);
    r
}

/// By what a search orders its results.
#[derive(Clone, Copy, Debug, PartialEq, Eq, Structural)]
pub enum MemorySortBy {
    CreatedAt,
    Importance,
}

/// In which direction a search orders its results.
#[derive(Clone, Copy, Debug, PartialEq, Eq, Structural)]
pub enum SortOrder {
    Ascending,
    Descending,
}

/// What a search asks for. Every filter that is absent lets every memory
/// pass.
#[derive(Debug)]
pub struct MemoryQuery {
    /// The text to search for by meaning.
    pub query_text: Option<String>,
    /// The memory is of one of these kinds.
    pub memory_types: Option<Vec<MemoryType>>,
    /// The memory has at least one of these tags.
    pub tags: Option<Vec<String>>,
    /// The memory names at least one of these files.
    pub related_files: Option<Vec<String>>,
    /// The memory was made at this Git commit.
    pub git_commit: Option<String>,
    /// The stored importance is at least this.
    pub min_importance: Option<Score>,
    /// The confidence is at least this.
    pub min_confidence: Option<Score>,
    /// The memory was made at this instant or later.
    pub created_after: Option<Timestamp>,
    /// The memory was made at this instant or earlier.
    pub created_before: Option<Timestamp>,
    /// The largest number of results.
    pub limit: Option<usize>,
    /// The lowest relevance that a result may have.
    pub min_relevance: Option<Score>,
    /// By what the results are ordered; by relevance where absent.
    pub sort_by: Option<MemorySortBy>,
    /// The direction of the order; descending where absent.
    pub sort_order: Option<SortOrder>,
}

impl MemoryQuery {
    /// Whether the query asks for nothing: no text and no filter.
    pub open spec fn is_blank(&self) -> bool {
        &&& self.query_text is None
        &&& self.memory_types is None
        &&& self.tags is None
        &&& self.related_files is None
        &&& self.git_commit is None
        &&& self.min_importance is None
        &&& self.min_confidence is None
        &&& self.created_after is None
        &&& self.created_before is None
        &&& self.limit is None
        &&& self.min_relevance is None
        &&& self.sort_by is None
        &&& self.sort_order is None
    }

    /// Whether `other` asks for the same as `self`, the query text and the
    /// limit apart.
    pub open spec fn same_filters(&self, other: &MemoryQuery) -> bool {
        &&& match (self.memory_types, other.memory_types) {
            (Some(a), Some(b)) => a@ == b@,
            (None, None) => true,
            _ => false,
        }
        &&& match (self.tags, other.tags) {
            (Some(a), Some(b)) => a@ == b@,
            (None, None) => true,
            _ => false,
        }
        &&& match (self.related_files, other.related_files) {
            (Some(a), Some(b)) => a@ == b@,
            (None, None) => true,
            _ => false,
        }
        &&& self.git_commit == other.git_commit
        &&& self.min_importance == other.min_importance
        &&& self.min_confidence == other.min_confidence
        &&& self.created_after == other.created_after
        &&& self.created_before == other.created_before
        &&& self.min_relevance == other.min_relevance
        &&& self.sort_by == other.sort_by
        &&& self.sort_order == other.sort_order
    }
}

impl Default for MemoryQuery {
    /// The query that asks for nothing.
    fn default() -> (r: MemoryQuery)
        ensures
            r.is_blank(),
    {
        MemoryQuery {
            query_text: None,
            memory_types: None,
            tags: None,
            related_files: None,
            git_commit: None,
            min_importance: None,
            min_confidence: None,
            created_after: None,
            created_before: None,
            limit: None,
            min_relevance: None,
            sort_by: None,
            sort_order: None,
        }
    }
}

impl Clone for MemoryQuery {
    fn clone(&self) -> (r: MemoryQuery)
        ensures
            self.same_filters(&r),
            r.query_text == self.query_text,
            r.limit == self.limit,
    {
        MemoryQuery {
            query_text: clone_opt_string(&self.query_text),
            memory_types: match &self.memory_types {
                Some(v) => Some(clone_types(v)),
                None => None,
            },
            tags: match &self.tags {
                Some(v) => Some(clone_strings(v)),
                None => None,
            },
            related_files: match &self.related_files {
                Some(v) => Some(clone_strings(v)),
                None => None,
            },
            git_commit: clone_opt_string(&self.git_commit),
            min_importance: self.min_importance,
            min_confidence: self.min_confidence,
            created_after: self.created_after,
            created_before: self.created_before,
            limit: self.limit,
            min_relevance: self.min_relevance,
            sort_by: self.sort_by,
            sort_order: self.sort_order,
        }
    }
}

/// A search that weighs four signals: meaning, keywords, recency and
/// importance.
#[derive(Debug)]
pub struct HybridSearchQuery {
    /// The text to search for by meaning.
    pub vector_query: Option<String>,
    /// The keywords to match.
    pub keywords: Option<Vec<String>>,
    /// The weight of the similarity of meaning, in `[0, 1]`.
    pub vector_weight: Score,
    /// The weight of the keyword score, in `[0, 1]`.
    pub keyword_weight: Score,
    /// The weight of recency, in `[0, 1]`.
    pub recency_weight: Score,
    /// The weight of importance, in `[0, 1]`.
    pub importance_weight: Score,
    /// The filters that every result passes.
    pub filters: MemoryQuery,
}

/// The sum of four weights.
pub open spec fn weight_sum(v: int, k: int, r: int, i: int) -> int {
    v + k + r + i
}

/// One weight as its share of a positive sum, in millionths.
pub open spec fn normalized_weight(w: int, sum: int) -> int {
    saturate(trunc_div(w * SCALE, sum))
}

/// Whether a weight lies in `[0, 1]`.
pub open spec fn weight_in_range(w: Score) -> bool {
    0 <= w.micros <= SCALE
}

/// What is said of a weight named `name` that is out of range.
pub open spec fn weight_message(name: Seq<char>, w: Score) -> Seq<char> {
    name + " must be in [0.0, 1.0], got "@ + decimal_text(w.micros as int)
}

impl HybridSearchQuery {
    /// The sum of the four weights.
    pub open spec fn total_weight(&self) -> int {
        weight_sum(
            self.vector_weight.micros as int,
            self.keyword_weight.micros as int,
            self.recency_weight.micros as int,
            self.importance_weight.micros as int,
        )
    }

    /// Why the query is refused, if it is: the first weight that is out of
    /// range, in the order vector, keyword, recency, importance; or, with
    /// all weights in range, that neither a text nor keywords are given.
    pub open spec fn refusal(&self) -> Option<Seq<char>> {
        if !weight_in_range(self.vector_weight) {
            Some(weight_message("vector_weight"@, self.vector_weight))
        } else if !weight_in_range(self.keyword_weight) {
            Some(weight_message("keyword_weight"@, self.keyword_weight))
        } else if !weight_in_range(self.recency_weight) {
            Some(weight_message("recency_weight"@, self.recency_weight))
        } else if !weight_in_range(self.importance_weight) {
            Some(weight_message("importance_weight"@, self.importance_weight))
        } else if self.vector_query is None && self.keywords is None {
            Some("At least one of vector_query or keywords must be provided"@)
        } else {
            None
        }
    }

    /// Divides each weight by the sum of the four, where that sum is
    /// positive, so that they add up to one; otherwise changes nothing.
    pub fn normalize_weights(&mut self)
        ensures
            old(self).total_weight() <= 0 ==> *final(self) == *old(self),
            old(self).total_weight() > 0 ==> {
                &&& final(self).vector_weight.micros == normalized_weight(
                    old(self).vector_weight.micros as int,
                    old(self).total_weight(),
                )
                &&& final(self).keyword_weight.micros == normalized_weight(
                    old(self).keyword_weight.micros as int,
                    old(self).total_weight(),
                )
                &&& final(self).recency_weight.micros == normalized_weight(
                    old(self).recency_weight.micros as int,
                    old(self).total_weight(),
                )
                &&& final(self).importance_weight.micros == normalized_weight(
                    old(self).importance_weight.micros as int,
                    old(self).total_weight(),
                )
            },
            final(self).vector_query == old(self).vector_query,
            final(self).keywords == old(self).keywords,
            final(self).filters == old(self).filters,
    {
        let sum: i128 = self.vector_weight.micros as i128 + self.keyword_weight.micros as i128
            + self.recency_weight.micros as i128 + self.importance_weight.micros as i128;
        if sum > 0 {
            self.vector_weight = share_of(self.vector_weight, sum);
            self.keyword_weight = share_of(self.keyword_weight, sum);
            self.recency_weight = share_of(self.recency_weight, sum);
            self.importance_weight = share_of(self.importance_weight, sum);
        }
    }

    /// Accepts the query where every weight lies in `[0, 1]` and a text or
    /// keywords are given; otherwise says what is wrong.
    pub fn validate(&self) -> (r: Result<(), String>)
        ensures
            match r {
                Ok(_) => self.refusal() is None,
                Err(e) => self.refusal() == Some(e@),
            },
    {
        if !in_range(self.vector_weight) {
            return Err(out_of_range("vector_weight", self.vector_weight));
        }
        if !in_range(self.keyword_weight) {
            return Err(out_of_range("keyword_weight", self.keyword_weight));
        }
        if !in_range(self.recency_weight) {
            return Err(out_of_range("recency_weight", self.recency_weight));
        }
        if !in_range(self.importance_weight) {
            return Err(out_of_range("importance_weight", self.importance_weight));
        }
        if self.vector_query.is_none() && self.keywords.is_none() {
            return Err("At least one of vector_query or keywords must be provided".to_owned());
        }
        Ok(())
    }
}

/// One weight as its share of a positive `sum`.
fn share_of(w: Score, sum: i128) -> (r: Score)
    requires
        0 < sum <= 0x2_0000_0000_0000_0000,
    ensures
        r.micros == normalized_weight(w.micros as int, sum as int),
{
    let p: i128 = (w.micros as i128) * 1_000_000i128;
    Score { micros: narrow(p / sum) }
}

/// Whether a weight lies in `[0, 1]`.
fn in_range(w: Score) -> (r: bool)
    ensures
        r == weight_in_range(w),
{
    0 <= w.micros && w.micros <= SCALE
}

/// What is said of a weight named `name` that is out of range.
fn out_of_range(name: &str, w: Score) -> (r: String)
    ensures
        r@ == weight_message(name@, w),
{
    let mut out: Vec<char> = Vec::new();
    push_text(&mut out, name);
    push_text(&mut out, " must be in [0.0, 1.0], got ");
    let number = w.to_decimal_string();
    push_text(&mut out, number.as_str());
    string_of(&out)
}

impl Default for HybridSearchQuery {
    /// No text, no keywords, no filters, and the weights `0.6`, `0.2`,
    /// `0.1` and `0.1`, which add up to one.
    fn default() -> (r: HybridSearchQuery)
        ensures
            r.vector_query is None,
            r.keywords is None,
            r.vector_weight.micros == 600_000,
            r.keyword_weight.micros == 200_000,
            r.recency_weight.micros == 100_000,
            r.importance_weight.micros == 100_000,
            r.total_weight() == SCALE,
            r.filters.is_blank(),
    {
        HybridSearchQuery {
            vector_query: None,
            keywords: None,
            vector_weight: Score { micros: 600_000 },
            keyword_weight: Score { micros: 200_000 },
            recency_weight: Score { micros: 100_000 },
            importance_weight: Score { micros: 100_000 },
            filters: MemoryQuery::default(),
        }
    }
}

/// A hybrid query is refused exactly where one of its weights lies outside
/// `[0, 1]` or it gives neither a text nor keywords.
pub proof fn lemma_refusal(q: &HybridSearchQuery)
    ensures
        q.refusal() is Some <==> {
            ||| !weight_in_range(q.vector_weight)
            ||| !weight_in_range(q.keyword_weight)
            ||| !weight_in_range(q.recency_weight)
            ||| !weight_in_range(q.importance_weight)
            ||| (q.vector_query is None && q.keywords is None)
        },
{
}

/// A share of a positive sum, for a weight that is not negative and not
/// larger than the sum, is the weight scaled to the sum and rounded down:
/// its ratio to the sum is kept to within one millionth.
pub proof fn lemma_share_keeps_ratio(w: int, sum: int)
    requires
        0 <= w <= sum,
        0 < sum,
    ensures
        0 <= normalized_weight(w, sum) <= SCALE,
        normalized_weight(w, sum) * sum <= w * SCALE < normalized_weight(w, sum) * sum + sum,
{
    let p = w * SCALE;
    let q = p / sum;
    vstd::arithmetic::div_mod::lemma_fundamental_div_mod(p, sum);
    vstd::arithmetic::div_mod::lemma_mod_bound(p, sum);
    vstd::arithmetic::div_mod::lemma_div_pos_is_pos(p, sum);
    assert(sum * q == q * sum) by (nonlinear_arith);
    assert(q <= SCALE) by {
        assert(p <= SCALE * sum) by (nonlinear_arith)
            requires
                w <= sum,
                p == w * SCALE,
        ;
        vstd::arithmetic::div_mod::lemma_div_is_ordered(p, SCALE * sum, sum);
        vstd::arithmetic::div_mod::lemma_div_by_multiple(SCALE as int, sum);
    }
}

/// Four weights that are not negative, with a positive sum, add up to one
/// after normalization, to within four millionths.
pub proof fn lemma_normalized_weights_sum(v: int, k: int, r: int, i: int)
    requires
        v >= 0,
        k >= 0,
        r >= 0,
        i >= 0,
        weight_sum(v, k, r, i) > 0,
    ensures
        SCALE - 4 < weight_sum(
            normalized_weight(v, weight_sum(v, k, r, i)),
            normalized_weight(k, weight_sum(v, k, r, i)),
            normalized_weight(r, weight_sum(v, k, r, i)),
            normalized_weight(i, weight_sum(v, k, r, i)),
        ) <= SCALE,
{
    let sum = weight_sum(v, k, r, i);
    lemma_share_keeps_ratio(v, sum);
    lemma_share_keeps_ratio(k, sum);
    lemma_share_keeps_ratio(r, sum);
    lemma_share_keeps_ratio(i, sum);
    let nv = normalized_weight(v, sum);
    let nk = normalized_weight(k, sum);
    let nr = normalized_weight(r, sum);
    let ni = normalized_weight(i, sum);
    let total = nv + nk + nr + ni;
    assert(total * sum == nv * sum + nk * sum + nr * sum + ni * sum) by (nonlinear_arith)
        requires
            total == nv + nk + nr + ni,
    ;
    assert((v + k + r + i) * SCALE == v * SCALE + k * SCALE + r * SCALE + i * SCALE)
        by (nonlinear_arith);
    assert(total * sum <= SCALE * sum);
    assert(SCALE * sum < total * sum + 4 * sum);
    assert(total <= SCALE) by (nonlinear_arith)
        requires
            total * sum <= SCALE * sum,
            sum > 0,
    ;
    assert(SCALE < total + 4) by (nonlinear_arith)
        requires
            SCALE * sum < total * sum + 4 * sum,
            sum > 0,
    ;
}

/// A keyword and where it was found.
#[derive(Debug)]
pub struct KeywordMatch {
    /// The keyword.
    pub keyword: String,
    /// How often it stands in the memory.
    pub count: usize,
    /// The fields in which it stands: title, content, tags.
    pub locations: Vec<String>,
}

/// What one signal gave to a score.
#[derive(Clone, Copy, Debug, PartialEq, Eq, Structural)]
pub enum SearchSignal {
    /// The similarity of meaning.
    Vector(Score),
    /// The keyword score.
    Keyword(Score),
    /// The recency score.
    Recency(Score),
    /// The importance.
    Importance(Score),
}

/// A memory that a search found.
#[derive(Debug)]
pub struct MemorySearchResult {
    /// The memory.
    pub memory: Memory,
    /// The score under which it was found.
    pub relevance_score: Score,
    /// Why it was chosen.
    pub selection_reason: String,
}

/// A [`MemorySearchResult`] as plain values.
pub struct SearchResultView {
    pub memory: MemoryView,
    pub relevance_score: Score,
    pub selection_reason: Seq<char>,
}

impl View for MemorySearchResult {
    type V = SearchResultView;

    open spec fn view(&self) -> SearchResultView {
        SearchResultView {
            memory: self.memory@,
            relevance_score: self.relevance_score,
            selection_reason: self.selection_reason@,
        }
    }
}

impl Clone for MemorySearchResult {
    fn clone(&self) -> (r: MemorySearchResult)
        ensures
            r@ == self@,
    {
        MemorySearchResult {
            memory: self.memory.clone(),
            relevance_score: self.relevance_score,
            selection_reason: self.selection_reason.clone(),
        }
    }
}

/// The kinds of edge between two memories.
#[derive(Debug)]
pub enum RelationshipType {
    /// One memory relates to another.
    RelatedTo,
    /// One memory depends on another.
    DependsOn,
    /// One memory supersedes another.
    Supersedes,
    /// The memories are similar or duplicates.
    Similar,
    /// The memories conflict.
    Conflicts,
    /// One memory implements another.
    Implements,
    /// One memory extends another.
    Extends,
    /// The edge was made because the memories are close in meaning.
    AutoLinked,
    /// Any other kind, under its own name.
    Custom(String),
}

/// A [`RelationshipType`] as a plain value.
pub enum RelationshipKind {
    RelatedTo,
    DependsOn,
    Supersedes,
    Similar,
    Conflicts,
    Implements,
    Extends,
    AutoLinked,
    Custom(Seq<char>),
}

impl View for RelationshipType {
    type V = RelationshipKind;

    open spec fn view(&self) -> RelationshipKind {
        match self {
            RelationshipType::RelatedTo => RelationshipKind::RelatedTo,
            RelationshipType::DependsOn => RelationshipKind::DependsOn,
            RelationshipType::Supersedes => RelationshipKind::Supersedes,
            RelationshipType::Similar => RelationshipKind::Similar,
            RelationshipType::Conflicts => RelationshipKind::Conflicts,
            RelationshipType::Implements => RelationshipKind::Implements,
            RelationshipType::Extends => RelationshipKind::Extends,
            RelationshipType::AutoLinked => RelationshipKind::AutoLinked,
            RelationshipType::Custom(s) => RelationshipKind::Custom(s@),
        }
    }
}

impl RelationshipKind {
    /// The name under which the kind is stored and shown.
    pub open spec fn label(self) -> Seq<char> {
        match self {
            RelationshipKind::RelatedTo => "related_to"@,
            RelationshipKind::DependsOn => "depends_on"@,
            RelationshipKind::Supersedes => "supersedes"@,
            RelationshipKind::Similar => "similar"@,
            RelationshipKind::Conflicts => "conflicts"@,
            RelationshipKind::Implements => "implements"@,
            RelationshipKind::Extends => "extends"@,
            RelationshipKind::AutoLinked => "auto_linked"@,
            RelationshipKind::Custom(s) => s,
        }
    }

    /// The kind that a stored name stands for: one of the eight fixed kinds
    /// under its label, a custom kind under any other name.
    pub open spec fn of_label(l: Seq<char>) -> RelationshipKind {
        if l == "related_to"@ {
            RelationshipKind::RelatedTo
        } else if l == "depends_on"@ {
            RelationshipKind::DependsOn
        } else if l == "supersedes"@ {
            RelationshipKind::Supersedes
        } else if l == "similar"@ {
            RelationshipKind::Similar
        } else if l == "conflicts"@ {
            RelationshipKind::Conflicts
        } else if l == "implements"@ {
            RelationshipKind::Implements
        } else if l == "extends"@ {
            RelationshipKind::Extends
        } else if l == "auto_linked"@ {
            RelationshipKind::AutoLinked
        } else {
            RelationshipKind::Custom(l)
        }
    }

    /// Whether the kind is a custom kind under the name of a fixed one.
    pub open spec fn is_shadowed(self) -> bool {
        match self {
            RelationshipKind::Custom(s) => RelationshipKind::of_label(s)
                != RelationshipKind::Custom(s),
            _ => false,
        }
    }
}

impl RelationshipType {
    /// The label of the kind; a custom kind shows its own name.
    pub fn to_string(&self) -> (s: String)
        ensures
            s@ == self@.label(),
    {
        match self {
            RelationshipType::RelatedTo => "related_to".to_owned(),
            RelationshipType::DependsOn => "depends_on".to_owned(),
            RelationshipType::Supersedes => "supersedes".to_owned(),
            RelationshipType::Similar => "similar".to_owned(),
            RelationshipType::Conflicts => "conflicts".to_owned(),
            RelationshipType::Implements => "implements".to_owned(),
            RelationshipType::Extends => "extends".to_owned(),
            RelationshipType::AutoLinked => "auto_linked".to_owned(),
            RelationshipType::Custom(s) => s.clone(),
        }
    }

    /// The kind that a stored name stands for.
    pub fn from_label(l: &str) -> (t: RelationshipType)
        ensures
            t@ == RelationshipKind::of_label(l@),
    {
        if same_text(l, "related_to") {
            RelationshipType::RelatedTo
        } else if same_text(l, "depends_on") {
            RelationshipType::DependsOn
        } else if same_text(l, "supersedes") {
            RelationshipType::Supersedes
        } else if same_text(l, "similar") {
            RelationshipType::Similar
        } else if same_text(l, "conflicts") {
            RelationshipType::Conflicts
        } else if same_text(l, "implements") {
            RelationshipType::Implements
        } else if same_text(l, "extends") {
            RelationshipType::Extends
        } else if same_text(l, "auto_linked") {
            RelationshipType::AutoLinked
        } else {
            RelationshipType::Custom(l.to_owned())
        }
    }
}

impl Clone for RelationshipType {
    fn clone(&self) -> (r: RelationshipType)
        ensures
            r@ == self@,
    {
        match self {
            RelationshipType::RelatedTo => RelationshipType::RelatedTo,
            RelationshipType::DependsOn => RelationshipType::DependsOn,
            RelationshipType::Supersedes => RelationshipType::Supersedes,
            RelationshipType::Similar => RelationshipType::Similar,
            RelationshipType::Conflicts => RelationshipType::Conflicts,
            RelationshipType::Implements => RelationshipType::Implements,
            RelationshipType::Extends => RelationshipType::Extends,
            RelationshipType::AutoLinked => RelationshipType::AutoLinked,
            RelationshipType::Custom(s) => RelationshipType::Custom(s.clone()),
        }
    }
}

/// Every kind of edge is found again under its label, but for a custom
/// kind that took the name of a fixed one.
pub proof fn lemma_relationship_label_round_trip(k: RelationshipKind)
    requires
        !k.is_shadowed(),
    ensures
        RelationshipKind::of_label(k.label()) == k,
{
    reveal_strlit("related_to");
    reveal_strlit("depends_on");
    reveal_strlit("supersedes");
    reveal_strlit("similar");
    reveal_strlit("conflicts");
    reveal_strlit("implements");
    reveal_strlit("extends");
    reveal_strlit("auto_linked");
    let l = k.label();
    match k {
        RelationshipKind::RelatedTo => {},
        RelationshipKind::DependsOn => {
            assert(l[0] == 'd');
        },
        RelationshipKind::Supersedes => {
            assert(l[0] == 's' && l[1] == 'u');
        },
        RelationshipKind::Similar => {
            assert(l[0] == 's' && l[1] == 'i');
        },
        RelationshipKind::Conflicts => {
            assert(l[0] == 'c');
        },
        RelationshipKind::Implements => {
            assert(l[0] == 'i');
        },
        RelationshipKind::Extends => {
            assert(l[0] == 'e');
        },
        RelationshipKind::AutoLinked => {
            assert(l[0] == 'a');
        },
        RelationshipKind::Custom(s) => {},
    }
}

/// An edge from one memory to another.
#[derive(Debug)]
pub struct MemoryRelationship {
    /// The identifier of the edge.
    pub id: String,
    /// The memory the edge starts at; it need not exist.
    pub source_id: String,
    /// The memory the edge ends at; it need not exist.
    pub target_id: String,
    /// The kind of edge.
    pub relationship_type: RelationshipType,
    /// The strength of the edge, in `[0, 1]`.
    pub strength: Score,
    /// What the edge means.
    pub description: String,
    /// When the edge was made.
    pub created_at: Timestamp,
}

/// A [`MemoryRelationship`] as plain values.
pub struct RelationshipView {
    pub id: Seq<char>,
    pub source_id: Seq<char>,
    pub target_id: Seq<char>,
    pub relationship_type: RelationshipKind,
    pub strength: Score,
    pub description: Seq<char>,
    pub created_at: Timestamp,
}

impl View for MemoryRelationship {
    type V = RelationshipView;

    open spec fn view(&self) -> RelationshipView {
        RelationshipView {
            id: self.id@,
            source_id: self.source_id@,
            target_id: self.target_id@,
            relationship_type: self.relationship_type@,
            strength: self.strength,
            description: self.description@,
            created_at: self.created_at,
        }
    }
}

impl Clone for MemoryRelationship {
    fn clone(&self) -> (r: MemoryRelationship)
        ensures
            r@ == self@,
    {
        MemoryRelationship {
            id: self.id.clone(),
            source_id: self.source_id.clone(),
            target_id: self.target_id.clone(),
            relationship_type: self.relationship_type.clone(),
            strength: self.strength,
            description: self.description.clone(),
            created_at: self.created_at,
        }
    }
}

/// A memory, its neighbours one edge away, and the edges between them.
#[derive(Debug)]
pub struct MemoryGraph {
    /// The identifier of the memory at the centre.
    pub root: String,
    /// The memories of the graph, each identifier once.
    pub memories: Vec<Memory>,
    /// The edges of the graph.
    pub relationships: Vec<MemoryRelationship>,
}

/// The settings of the memory system.
#[derive(Clone, Copy, Debug, PartialEq, Eq, Structural)]
pub struct MemoryConfig {
    /// The number of memories to keep, as advice to cleanup.
    pub max_memories: Option<usize>,
    /// The age in days from which cleanup removes memories.
    pub auto_cleanup_days: Option<u32>,
    /// The importance below which cleanup removes old memories.
    pub cleanup_min_importance: Score,
    /// Whether relationships are detected by themselves.
    pub auto_relationships: bool,
    /// The similarity from which a relationship is detected.
    pub relationship_threshold: Score,
    /// The largest number of results of a search.
    pub max_search_results: usize,
    /// The importance of a memory that names none.
    pub default_importance: Score,
    /// Whether importance decays with time.
    pub decay_enabled: bool,
    /// The half-life of importance, in days.
    pub decay_half_life_days: u32,
    /// The factor by which a read reinforces importance.
    pub access_boost_factor: Score,
    /// The floor of the decayed importance.
    pub min_importance_threshold: Score,
    /// Whether a new memory is linked to those close in meaning.
    pub auto_linking_enabled: bool,
    /// The similarity from which a memory is linked.
    pub auto_link_threshold: Score,
    /// The largest number of links made for one memory.
    pub max_auto_links_per_memory: usize,
    /// Whether each link is also made in the other direction.
    pub bidirectional_links: bool,
}

impl Default for MemoryConfig {
    fn default() -> (r: MemoryConfig)
        ensures
            r == (MemoryConfig {
                max_memories: Some(10000usize),
                auto_cleanup_days: Some(365u32),
                cleanup_min_importance: Score { micros: 100_000 },
                auto_relationships: true,
                relationship_threshold: Score { micros: 700_000 },
                max_search_results: 50,
                default_importance: Score { micros: 500_000 },
                decay_enabled: true,
                decay_half_life_days: 90,
                access_boost_factor: Score { micros: 1_200_000 },
                min_importance_threshold: Score { micros: 50_000 },
                auto_linking_enabled: true,
                auto_link_threshold: Score { micros: 780_000 },
                max_auto_links_per_memory: 5,
                bidirectional_links: true,
            }),
    {
        MemoryConfig {
            max_memories: Some(10000),
            auto_cleanup_days: Some(365),
            cleanup_min_importance: Score { micros: 100_000 },
            auto_relationships: true,
            relationship_threshold: Score { micros: 700_000 },
            max_search_results: 50,
            default_importance: Score { micros: 500_000 },
            decay_enabled: true,
            decay_half_life_days: 90,
            access_boost_factor: Score { micros: 1_200_000 },
            min_importance_threshold: Score { micros: 50_000 },
            auto_linking_enabled: true,
            auto_link_threshold: Score { micros: 780_000 },
            max_auto_links_per_memory: 5,
            bidirectional_links: true,
        }
    }
}

} // verus!
