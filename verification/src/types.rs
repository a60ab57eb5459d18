//! The records the operations work on.
//!
//! Scores and decay rates are floating point and stay with the store that
//! keeps them; everything else an operation reads or writes is here.

use crate::text::texts;
use crate::time::Timestamp;
use vstd::prelude::*;

verus! {

/// How much a memory matters.
#[derive(Clone, Copy, Debug, PartialEq, Eq, Structural)]
pub enum Importance {
    Low,
    Medium,
    High,
    Critical,
}

/// Rank of an importance, from 0 for low to 3 for critical.
pub open spec fn importance_rank(i: Importance) -> int {
    match i {
        Importance::Low => 0,
        Importance::Medium => 1,
        Importance::High => 2,
        Importance::Critical => 3,
    }
}

impl Importance {
    fn rank(&self) -> (r: u8)
        ensures
            r == importance_rank(*self),
    {
        match self {
            Importance::Low => 0,
            Importance::Medium => 1,
            Importance::High => 2,
            Importance::Critical => 3,
        }
    }

    /// The greater of two importances.
    pub fn greater(self, other: Importance) -> (r: Importance)
        ensures
            r == higher_importance(self, other),
    {
        if self.rank() < other.rank() {
            other
        } else {
            self
        }
    }
}

/// The greater of two importances.
pub open spec fn higher_importance(a: Importance, b: Importance) -> Importance {
    if importance_rank(a) < importance_rank(b) {
        b
    } else {
        a
    }
}

/// How readily a memory is recalled.
#[derive(Clone, Copy, Debug, PartialEq, Eq, Structural)]
pub enum MemoryTier {
    Hot,
    Warm,
    Cold,
}

/// The hotter of two tiers.
pub open spec fn hotter(a: MemoryTier, b: MemoryTier) -> MemoryTier {
    if a is Hot || b is Hot {
        MemoryTier::Hot
    } else if a is Warm || b is Warm {
        MemoryTier::Warm
    } else {
        MemoryTier::Cold
    }
}

/// The hotter of two tiers.
pub fn stronger_tier(a: MemoryTier, b: MemoryTier) -> (r: MemoryTier)
    ensures
        r == hotter(a, b),
{
    match (a, b) {
        (MemoryTier::Hot, _) => MemoryTier::Hot,
        (_, MemoryTier::Hot) => MemoryTier::Hot,
        (MemoryTier::Warm, _) => MemoryTier::Warm,
        (_, MemoryTier::Warm) => MemoryTier::Warm,
        (MemoryTier::Cold, MemoryTier::Cold) => MemoryTier::Cold,
    }
}

/// Lifecycle state of a memory.
#[derive(Clone, Copy, Debug, PartialEq, Eq, Structural)]
pub enum MemoryStatus {
    Active,
    Updated,
    /// Any state in which the memory is no longer served.
    Retired,
}

/// How two memories relate.
#[derive(Clone, Copy, Debug, PartialEq, Eq, Structural)]
pub enum DedupRelation {
    Duplicate,
    Update,
    Related,
    Distinct,
}

/// A stored memory.
#[derive(Clone, Debug)]
pub struct Memory {
    pub id: String,
    pub topic: String,
    pub summary: String,
    pub content: String,
    pub keywords: Vec<String>,
    pub importance: Importance,
    pub access_count: u32,
    pub superseded_by: Option<String>,
    pub canonical_id: Option<String>,
    pub related_ids: Vec<String>,
    pub status: MemoryStatus,
    pub tier: MemoryTier,
    pub cluster_id: Option<u32>,
    pub created_at: Timestamp,
    pub updated_at: Timestamp,
    pub last_accessed: Timestamp,
}

/// The view of an optional string.
pub open spec fn opt_text(s: Option<String>) -> Option<Seq<char>> {
    match s {
        Some(t) => Some(t@),
        None => None,
    }
}

/// A copy of a vector of strings.
pub(crate) fn clone_strings(v: &Vec<String>) -> (r: Vec<String>)
    ensures
        texts(r@) == texts(v@),
        r@.len() == v@.len(),
{
    let mut r: Vec<String> = Vec::new();
    let mut i: usize = 0;
    while i < v.len()
        invariant
            i <= v.len(),
            r@ == v@.take(i as int),
        decreases v.len() - i,
    {
        r.push(v[i].clone());
        i = i + 1;
        assert(v@.take(i as int) =~= v@.take(i - 1).push(v@[i - 1]));
    }
    assert(v@.take(i as int) =~= v@);
    r
}

/// A copy of an optional string.
pub(crate) fn clone_opt(s: &Option<String>) -> (r: Option<String>)
    ensures
        r == *s,
{
    match s {
        Some(t) => Some(t.clone()),
        None => None,
    }
}

/// A concept of a memoir.
#[derive(Clone, Debug)]
pub struct Concept {
    pub id: String,
    pub memoir_id: String,
    pub name: String,
    pub definition: String,
    pub labels: Vec<String>,
    pub source_memory_ids: Vec<String>,
    pub revision: u32,
    pub last_episode_id: Option<String>,
    pub created_at: Timestamp,
    pub updated_at: Timestamp,
    pub living_summary: Option<String>,
    pub living_summary_updated_at: Option<Timestamp>,
    pub living_summary_source_revision: Option<u32>,
    pub living_summary_id: Option<String>,
}

/// An earlier state of a concept.
#[derive(Clone, Debug)]
pub struct ConceptRevision {
    pub revision: u32,
    pub definition: String,
    pub episode_id: Option<String>,
    pub created_at: Timestamp,
}

/// A memory that a canonical one was made from, as it was then.
#[derive(Clone, Debug)]
pub struct MemoryEvidence {
    pub id: String,
    pub canonical_id: String,
    pub memory_id: Option<String>,
    pub source_topic: String,
    pub summary: String,
    pub content: String,
    pub keywords: Vec<String>,
    pub source: String,
    pub created_at: Timestamp,
    pub imported_at: Timestamp,
}

/// A named graph of concepts.
#[derive(Clone, Debug)]
pub struct Memoir {
    pub id: String,
    pub name: String,
    pub description: String,
    pub created_at: Timestamp,
    pub updated_at: Timestamp,
}

/// An edge between two concepts.
#[derive(Clone, Debug)]
pub struct ConceptLink {
    pub id: String,
    pub source_id: String,
    pub target_id: String,
    pub relation: String,
    pub created_at: Timestamp,
    pub valid_from: Option<Timestamp>,
    pub valid_until: Option<Timestamp>,
}

/// The word for a level of importance.
pub open spec fn importance_word(i: Importance) -> Seq<char> {
    match i {
        Importance::Low => "low"@,
        Importance::Medium => "medium"@,
        Importance::High => "high"@,
        Importance::Critical => "critical"@,
    }
}

impl Importance {
    /// The word for a level of importance.
    pub fn as_str(self) -> (r: &'static str)
        ensures
            r@ == importance_word(self),
    {
        match self {
            Importance::Low => "low",
            Importance::Medium => "medium",
            Importance::High => "high",
            Importance::Critical => "critical",
        }
    }
}

} // verus!
