//! Upkeep of the store: canonical memories and their evidence, garbage
//! collection, and trying out a merge.

use crate::text::{decimal, push_decimal};
use crate::types::{Memory, MemoryEvidence, opt_text};
use vstd::prelude::*;
use vstd::string::*;

verus! {

/// Canonical memories listed unless another number is asked for.
pub fn default_canonicals_limit() -> (r: usize)
    ensures
        r == 20,
{
    20
}

/// How many canonical memories are listed.
#[derive(Clone, Copy, Debug, PartialEq, Eq, Structural)]
pub struct CanonicalsParams {
    pub limit: usize,
}

impl Default for CanonicalsParams {
    fn default() -> (r: CanonicalsParams)
        ensures
            r.limit == 20,
    {
        CanonicalsParams { limit: default_canonicals_limit() }
    }
}

/// A canonical memory as it is listed.
#[derive(Clone, Debug)]
pub struct CanonicalItem {
    pub id: String,
    pub summary: String,
    pub support_count: u32,
    pub merge_count: u32,
    /// As shown, with two digits behind the point.
    pub source_diversity: String,
    /// As shown, with two digits behind the point.
    pub dedup_confidence: String,
}

/// The canonical memories that are listed.
#[derive(Clone, Debug)]
pub struct CanonicalsOutput {
    pub canonicals: Vec<CanonicalItem>,
}

/// A canonical memory in words.
pub open spec fn canonical_line(m: CanonicalItem) -> Seq<char> {
    "- "@ + m.id@ + " ["@ + m.summary@ + "] support="@ + decimal(m.support_count as nat)
        + " merges="@ + decimal(m.merge_count as nat) + " diversity="@ + m.source_diversity@
        + " dedup_conf="@ + m.dedup_confidence@ + "\n"@
}

/// Canonical memories in words, one after another.
pub open spec fn canonical_lines(v: Seq<CanonicalItem>) -> Seq<char>
    decreases v.len(),
{
    if v.len() == 0 {
        Seq::empty()
    } else {
        canonical_lines(v.drop_last()) + canonical_line(v.last())
    }
}

/// The list in words.
pub open spec fn canonicals_text(v: Seq<CanonicalItem>) -> Seq<char> {
    if v.len() == 0 {
        "No canonical memories found"@
    } else {
        canonical_lines(v)
    }
}

fn push_canonical(s: &mut String, m: &CanonicalItem)
    ensures
        final(s)@ == old(s)@ + canonical_line(*m),
{
    let ghost start = s@;
    s.append("- ");
    s.append(m.id.as_str());
    s.append(" [");
    s.append(m.summary.as_str());
    s.append("] support=");
    push_decimal(s, m.support_count as u64);
    s.append(" merges=");
    push_decimal(s, m.merge_count as u64);
    s.append(" diversity=");
    s.append(m.source_diversity.as_str());
    s.append(" dedup_conf=");
    s.append(m.dedup_confidence.as_str());
    s.append("\n");
    assert(s@ =~= start + canonical_line(*m));
}

impl CanonicalsOutput {
    /// The list in words.
    pub fn to_markdown(&self) -> (r: String)
        ensures
            r@ == canonicals_text(self.canonicals@),
    {
        if self.canonicals.len() == 0 {
            return "No canonical memories found".to_owned();
        }
        let mut s: String = String::new();
        let mut i: usize = 0;
        assert(s@ =~= canonical_lines(self.canonicals@.take(0)));
        while i < self.canonicals.len()
            invariant
                i <= self.canonicals@.len(),
                s@ == canonical_lines(self.canonicals@.take(i as int)),
            decreases self.canonicals@.len() - i,
        {
            assert(self.canonicals@.take(i + 1).drop_last() =~= self.canonicals@.take(i as int));
            push_canonical(&mut s, &self.canonicals[i]);
            i = i + 1;
        }
        assert(self.canonicals@.take(i as int) =~= self.canonicals@);
        s
    }

    /// The list in words.
    pub fn to_cli_text(&self) -> (r: String)
        ensures
            r@ == canonicals_text(self.canonicals@),
    {
        self.to_markdown()
    }
}

/// Rows of evidence listed unless another number is asked for.
pub fn default_evidence_limit() -> (r: usize)
    ensures
        r == 20,
{
    20
}

/// Whose evidence is listed, and how much of it.
#[derive(Clone, Debug)]
pub struct EvidenceParams {
    pub canonical_id: String,
    pub limit: usize,
}

impl Default for EvidenceParams {
    fn default() -> (r: EvidenceParams)
        ensures
            r.canonical_id@.len() == 0,
            r.limit == 20,
    {
        EvidenceParams { canonical_id: String::new(), limit: default_evidence_limit() }
    }
}

/// The evidence that is listed.
#[derive(Clone, Debug)]
pub struct EvidenceOutput {
    pub canonical_id: String,
    pub evidence: Vec<MemoryEvidence>,
}

/// A row of evidence in words.
pub open spec fn evidence_line(e: MemoryEvidence) -> Seq<char> {
    "- "@ + e.id@ + " ["@ + e.source_topic@ + "] "@ + e.summary@ + "\n"@ + e.content@ + "\n"@
}

/// Rows of evidence in words, one after another.
pub open spec fn evidence_lines(v: Seq<MemoryEvidence>) -> Seq<char>
    decreases v.len(),
{
    if v.len() == 0 {
        Seq::empty()
    } else {
        evidence_lines(v.drop_last()) + evidence_line(v.last())
    }
}

/// The evidence in words.
pub open spec fn evidence_text(o: EvidenceOutput) -> Seq<char> {
    if o.evidence@.len() == 0 {
        "No evidence found for canonical '"@ + o.canonical_id@ + "'"@
    } else {
        evidence_lines(o.evidence@)
    }
}

fn push_evidence(s: &mut String, e: &MemoryEvidence)
    ensures
        final(s)@ == old(s)@ + evidence_line(*e),
{
    let ghost start = s@;
    s.append("- ");
    s.append(e.id.as_str());
    s.append(" [");
    s.append(e.source_topic.as_str());
    s.append("] ");
    s.append(e.summary.as_str());
    s.append("\n");
    s.append(e.content.as_str());
    s.append("\n");
    assert(s@ =~= start + evidence_line(*e));
}

impl EvidenceOutput {
    /// The evidence in words.
    pub fn to_markdown(&self) -> (r: String)
        ensures
            r@ == evidence_text(*self),
    {
        if self.evidence.len() == 0 {
            let mut s: String = "No evidence found for canonical '".to_owned();
            s.append(self.canonical_id.as_str());
            s.append("'");
            return s;
        }
        let mut s: String = String::new();
        let mut i: usize = 0;
        assert(s@ =~= evidence_lines(self.evidence@.take(0)));
        while i < self.evidence.len()
            invariant
                i <= self.evidence@.len(),
                s@ == evidence_lines(self.evidence@.take(i as int)),
            decreases self.evidence@.len() - i,
        {
            assert(self.evidence@.take(i + 1).drop_last() =~= self.evidence@.take(i as int));
            push_evidence(&mut s, &self.evidence[i]);
            i = i + 1;
        }
        assert(self.evidence@.take(i as int) =~= self.evidence@);
        s
    }

    /// The evidence in words.
    pub fn to_cli_text(&self) -> (r: String)
        ensures
            r@ == evidence_text(*self),
    {
        self.to_markdown()
    }
}

/// What garbage collection did, or would do.
#[derive(Clone, Debug)]
pub struct GcOutput {
    pub decayed: u64,
    pub pruned: u64,
    pub concepts: u64,
    pub dry_run: bool,
    /// The strength below which memories go, as shown.
    pub threshold: String,
}

/// A text, with the concepts that go where there are any.
pub open spec fn with_concepts(before: Seq<char>, concepts: u64) -> Seq<char> {
    if concepts > 0 {
        before + ", "@ + decimal(concepts as nat) + " low-quality concepts"@
    } else {
        before
    }
}

/// What garbage collection did, for programs.
pub open spec fn gc_text(o: GcOutput) -> Seq<char> {
    with_concepts(
        if o.dry_run {
            "GC dry run: "@ + decimal(o.pruned as nat)
                + " weak STM memories would be pruned (threshold: "@ + o.threshold@ + ")"@
        } else {
            "GC complete: decayed "@ + decimal(o.decayed as nat) + " memories, pruned "@ + decimal(
                o.pruned as nat,
            ) + " weak STM memories (threshold: "@ + o.threshold@ + ")"@
        },
        o.concepts,
    )
}

/// What garbage collection did, for people.
pub open spec fn gc_cli_text(o: GcOutput) -> Seq<char> {
    with_concepts(
        if o.dry_run {
            "Would decay "@ + decimal(o.decayed as nat) + " and prune "@ + decimal(o.pruned as nat)
                + " weak STM memories (threshold: "@ + o.threshold@ + ")"@
        } else {
            "Decayed "@ + decimal(o.decayed as nat) + " memories, pruned "@ + decimal(
                o.pruned as nat,
            ) + " weak STM memories (threshold: "@ + o.threshold@ + ")"@
        },
        o.concepts,
    )
}

fn push_concepts(s: &mut String, concepts: u64)
    ensures
        final(s)@ == with_concepts(old(s)@, concepts),
{
    if concepts > 0 {
        s.append(", ");
        push_decimal(s, concepts);
        s.append(" low-quality concepts");
    }
}

impl GcOutput {
    /// What garbage collection did, for programs.
    pub fn to_markdown(&self) -> (r: String)
        ensures
            r@ == gc_text(*self),
    {
        let mut s: String = if self.dry_run {
            "GC dry run: ".to_owned()
        } else {
            "GC complete: decayed ".to_owned()
        };
        if self.dry_run {
            push_decimal(&mut s, self.pruned);
            s.append(" weak STM memories would be pruned (threshold: ");
        } else {
            push_decimal(&mut s, self.decayed);
            s.append(" memories, pruned ");
            push_decimal(&mut s, self.pruned);
            s.append(" weak STM memories (threshold: ");
        }
        s.append(self.threshold.as_str());
        s.append(")");
        push_concepts(&mut s, self.concepts);
        s
    }

    /// What garbage collection did, for people.
    pub fn to_cli_text(&self) -> (r: String)
        ensures
            r@ == gc_cli_text(*self),
    {
        let mut s: String = if self.dry_run {
            "Would decay ".to_owned()
        } else {
            "Decayed ".to_owned()
        };
        push_decimal(&mut s, self.decayed);
        if self.dry_run {
            s.append(" and prune ");
        } else {
            s.append(" memories, pruned ");
        }
        push_decimal(&mut s, self.pruned);
        s.append(" weak STM memories (threshold: ");
        s.append(self.threshold.as_str());
        s.append(")");
        push_concepts(&mut s, self.concepts);
        s
    }
}

/// Two memories whose merge is tried out.
#[derive(Clone, Debug)]
pub struct IntelligentMergeTryParams {
    pub existing: String,
    pub incoming: String,
}

impl Default for IntelligentMergeTryParams {
    fn default() -> (r: IntelligentMergeTryParams)
        ensures
            r.existing@.len() == 0,
            r.incoming@.len() == 0,
    {
        IntelligentMergeTryParams { existing: String::new(), incoming: String::new() }
    }
}

/// What the classifier says of two memories.
#[derive(Clone, Debug)]
pub struct IntelligentMergeTryOutput {
    pub existing_summary: String,
    pub incoming_summary: String,
    /// `None` where there is no model, or it failed.
    pub verdict: Option<String>,
    pub reasoning: Option<String>,
    pub synthesis: Option<String>,
}

/// A text, and a labelled line behind it where there is something to say.
pub open spec fn with_line(before: Seq<char>, label: Seq<char>, s: Option<String>) -> Seq<char> {
    match s {
        Some(t) => before + label + t@ + "\n"@,
        None => before,
    }
}

/// What the classifier says, as a list.
pub open spec fn merge_try_text(o: IntelligentMergeTryOutput) -> Seq<char> {
    let head = "**existing**: "@ + o.existing_summary@ + "\n**incoming**: "@ + o.incoming_summary@
        + "\n"@;
    match o.verdict {
        Some(v) => with_line(
            with_line(
                with_line(head, "\n**verdict**: "@, o.verdict),
                "**reason**: "@,
                o.reasoning,
            ),
            "**synthesis**: "@,
            o.synthesis,
        ),
        None => head
            + "\nclassifier returned None (no LLM configured, or API error — check logs with REIN_LOG=debug)\n"@,
    }
}

/// What the classifier says, for the command line.
pub open spec fn merge_try_cli_text(o: IntelligentMergeTryOutput) -> Seq<char> {
    let head = "→ existing: "@ + o.existing_summary@ + "\n→ incoming: "@ + o.incoming_summary@
        + "\n\n"@;
    match o.verdict {
        Some(v) => with_line(
            with_line(with_line(head, "verdict  : "@, o.verdict), "reason   : "@, o.reasoning),
            "synthesis: "@,
            o.synthesis,
        ),
        None => head
            + "classifier returned None (no LLM configured, or API error — check logs with REIN_LOG=debug)\n"@,
    }
}

fn push_line(s: &mut String, label: &str, t: &Option<String>)
    ensures
        final(s)@ == with_line(old(s)@, label@, *t),
{
    match t {
        Some(x) => {
            s.append(label);
            s.append(x.as_str());
            s.append("\n");
        },
        None => {},
    }
}

impl IntelligentMergeTryOutput {
    /// What the classifier says, as a list.
    pub fn to_markdown(&self) -> (r: String)
        ensures
            r@ == merge_try_text(*self),
    {
        let mut s: String = "**existing**: ".to_owned();
        s.append(self.existing_summary.as_str());
        s.append("\n**incoming**: ");
        s.append(self.incoming_summary.as_str());
        s.append("\n");
        if self.verdict.is_some() {
            push_line(&mut s, "\n**verdict**: ", &self.verdict);
            push_line(&mut s, "**reason**: ", &self.reasoning);
            push_line(&mut s, "**synthesis**: ", &self.synthesis);
        } else {
            s.append(
                "\nclassifier returned None (no LLM configured, or API error — check logs with REIN_LOG=debug)\n",
            );
        }
        s
    }

    /// What the classifier says, for the command line.
    pub fn to_cli_text(&self) -> (r: String)
        ensures
            r@ == merge_try_cli_text(*self),
    {
        let mut s: String = "→ existing: ".to_owned();
        s.append(self.existing_summary.as_str());
        s.append("\n→ incoming: ");
        s.append(self.incoming_summary.as_str());
        s.append("\n\n");
        if self.verdict.is_some() {
            push_line(&mut s, "verdict  : ", &self.verdict);
            push_line(&mut s, "reason   : ", &self.reasoning);
            push_line(&mut s, "synthesis: ", &self.synthesis);
        } else {
            s.append(
                "classifier returned None (no LLM configured, or API error — check logs with REIN_LOG=debug)\n",
            );
        }
        s
    }
}

/// How an incoming memory relates to an existing one.
#[derive(Clone, Copy, Debug, PartialEq, Eq, Structural)]
pub enum MergeVerdict {
    Ignore,
    Update,
    Merge,
    CreateNew,
}

/// The name of a verdict.
pub open spec fn verdict_name(v: MergeVerdict) -> Seq<char> {
    match v {
        MergeVerdict::Ignore => "Ignore"@,
        MergeVerdict::Update => "Update"@,
        MergeVerdict::Merge => "Merge"@,
        MergeVerdict::CreateNew => "CreateNew"@,
    }
}

impl MergeVerdict {
    /// The name of a verdict.
    pub fn as_str(self) -> (r: &'static str)
        ensures
            r@ == verdict_name(self),
    {
        match self {
            MergeVerdict::Ignore => "Ignore",
            MergeVerdict::Update => "Update",
            MergeVerdict::Merge => "Merge",
            MergeVerdict::CreateNew => "CreateNew",
        }
    }
}

/// What a model said of two memories.
#[derive(Debug)]
pub struct InsertionVerdict {
    pub verdict: MergeVerdict,
    pub reasoning: Option<String>,
    pub synthesized: Option<String>,
}

/// Whether `r` shows what an insertion of one memory beside another would come to.
pub open spec fn is_merge_try(
    r: IntelligentMergeTryOutput,
    existing: Memory,
    incoming: Memory,
    result: Option<InsertionVerdict>,
) -> bool {
    &&& r.existing_summary@ == existing.summary@
    &&& r.incoming_summary@ == incoming.summary@
    &&& match result {
        Some(v) => opt_text(r.verdict) == Some(verdict_name(v.verdict)) && r.reasoning
            == v.reasoning && r.synthesis == v.synthesized,
        None => r.verdict is None && r.reasoning is None && r.synthesis is None,
    }
}

/// What is shown of a classification, from the summaries of the two memories
/// and what the model said, if it said anything.
pub fn intelligent_merge_try(
    existing: &Memory,
    incoming: &Memory,
    result: Option<InsertionVerdict>,
) -> (r: IntelligentMergeTryOutput)
    ensures
        is_merge_try(r, *existing, *incoming, result),
{
    let (verdict, reasoning, synthesis): (Option<String>, Option<String>, Option<String>) =
        match result {
        Some(v) => (Some(v.verdict.as_str().to_owned()), v.reasoning, v.synthesized),
        None => (None, None, None),
    };
    IntelligentMergeTryOutput {
        existing_summary: existing.summary.clone(),
        incoming_summary: incoming.summary.clone(),
        verdict,
        reasoning,
        synthesis,
    }
}

} // verus!
