//! Statistics, health and configuration, as they are shown.
//!
//! Averages and rates are floating point; they come here as they are shown.

use crate::text::{bool_text, decimal, push_bool, push_decimal, texts};
use vstd::prelude::*;
use vstd::string::*;

verus! {

/// Where a request came in.
#[derive(Clone, Copy, Debug, PartialEq, Eq, Structural)]
pub enum SurfaceKind {
    Cli,
    Mcp,
    Rest,
}

/// Counts over the whole store.
#[derive(Clone, Debug)]
pub struct StatsOutput {
    pub total_memories: usize,
    pub ltm_count: usize,
    pub stm_count: usize,
    pub topic_count: usize,
    /// As shown, with three digits behind the point.
    pub avg_strength: String,
    pub memoir_count: usize,
    pub concept_count: usize,
    pub link_count: usize,
    pub hot_count: usize,
    pub warm_count: usize,
    pub cold_count: usize,
}

/// A count in decimal.
pub open spec fn count_text(n: usize) -> Seq<char> {
    decimal(n as nat)
}

fn push_count(s: &mut String, n: usize)
    ensures
        final(s)@ == old(s)@ + count_text(n),
{
    push_decimal(s, n as u64);
}

/// The counts in words.
pub open spec fn stats_text(o: StatsOutput) -> Seq<char> {
    "**Memory stats**\n- total: "@ + count_text(o.total_memories) + "\n- LTM: "@ + count_text(
        o.ltm_count,
    ) + " / STM: "@ + count_text(o.stm_count) + "\n- topics: "@ + count_text(o.topic_count)
        + "\n- avg strength: "@ + o.avg_strength@ + "\n- tiers: hot="@ + count_text(o.hot_count)
        + " warm="@ + count_text(o.warm_count) + " cold="@ + count_text(o.cold_count)
        + "\n- memoirs: "@ + count_text(o.memoir_count) + " concepts: "@ + count_text(
        o.concept_count,
    ) + " links: "@ + count_text(o.link_count)
}

impl StatsOutput {
    /// The counts in words.
    pub fn to_markdown(&self) -> (r: String)
        ensures
            r@ == stats_text(*self),
    {
        let mut s: String = "**Memory stats**\n- total: ".to_owned();
        push_count(&mut s, self.total_memories);
        s.append("\n- LTM: ");
        push_count(&mut s, self.ltm_count);
        s.append(" / STM: ");
        push_count(&mut s, self.stm_count);
        s.append("\n- topics: ");
        push_count(&mut s, self.topic_count);
        s.append("\n- avg strength: ");
        s.append(self.avg_strength.as_str());
        s.append("\n- tiers: hot=");
        push_count(&mut s, self.hot_count);
        s.append(" warm=");
        push_count(&mut s, self.warm_count);
        s.append(" cold=");
        push_count(&mut s, self.cold_count);
        s.append("\n- memoirs: ");
        push_count(&mut s, self.memoir_count);
        s.append(" concepts: ");
        push_count(&mut s, self.concept_count);
        s.append(" links: ");
        push_count(&mut s, self.link_count);
        s
    }
}

/// Whose health is asked for.
#[derive(Clone, Debug)]
pub struct HealthParams {
    pub topic: Option<String>,
}

impl Default for HealthParams {
    fn default() -> (r: HealthParams)
        ensures
            r.topic is None,
    {
        HealthParams { topic: None }
    }
}

/// The health of one topic.
#[derive(Clone, Debug)]
pub struct HealthReportItem {
    pub topic: String,
    pub count: usize,
    /// As shown, with three digits behind the point.
    pub avg_strength: String,
    pub stale_count: usize,
    pub needs_consolidation: bool,
}

/// What waits in a queue.
#[derive(Clone, Copy, Debug, PartialEq, Eq, Structural)]
pub struct QueueCounts {
    pub pending: usize,
    pub inflight: usize,
    pub dead_letters: usize,
}

/// What waits in the queues.
#[derive(Clone, Copy, Debug, PartialEq, Eq, Structural)]
pub struct QueuesSnapshot {
    pub memory: QueueCounts,
    pub cleanup: QueueCounts,
    pub dedup: QueueCounts,
    pub merge_refinement: QueueCounts,
}

/// Whether the system is well.
#[derive(Clone, Debug)]
pub struct SystemStatus {
    pub ok: bool,
    pub issues: Vec<String>,
}

/// The health of the topics and of the system.
#[derive(Clone, Debug)]
pub struct HealthOutput {
    pub reports: Vec<HealthReportItem>,
    pub queues: QueuesSnapshot,
    pub grayzone_pending: usize,
    pub status: SystemStatus,
}

/// The health of one topic in words.
pub open spec fn topic_line(r: HealthReportItem) -> Seq<char> {
    "- "@ + r.topic@ + ": count="@ + count_text(r.count) + " avg_strength="@ + r.avg_strength@
        + " stale="@ + count_text(r.stale_count) + " consolidate="@ + bool_text(
        r.needs_consolidation,
    ) + "\n"@
}

/// The health of the topics in words, one after another.
pub open spec fn topic_lines(v: Seq<HealthReportItem>) -> Seq<char>
    decreases v.len(),
{
    if v.len() == 0 {
        Seq::empty()
    } else {
        topic_lines(v.drop_last()) + topic_line(v.last())
    }
}

/// The issues in words, one after another.
pub open spec fn issue_lines(v: Seq<Seq<char>>) -> Seq<char>
    decreases v.len(),
{
    if v.len() == 0 {
        Seq::empty()
    } else {
        issue_lines(v.drop_last()) + ("\n- "@ + v.last())
    }
}

/// What waits in a queue, in words.
pub open spec fn queue_text(q: QueueCounts) -> Seq<char> {
    "p="@ + count_text(q.pending) + " i="@ + count_text(q.inflight) + " d="@ + count_text(
        q.dead_letters,
    )
}

/// The health in words.
pub open spec fn health_text(o: HealthOutput) -> Seq<char> {
    let topics = if o.reports@.len() == 0 {
        "(no topic reports)\n"@
    } else {
        "**Topic health**\n"@ + topic_lines(o.reports@)
    };
    let system = topics + "\n**System**: "@ + (if o.status.ok {
        "OK"@
    } else {
        "DEGRADED"@
    });
    let issues = if o.status.issues@.len() == 0 {
        system
    } else {
        system + "\nIssues:"@ + issue_lines(texts(o.status.issues@))
    };
    issues + "\n**Queues**: memory "@ + queue_text(o.queues.memory) + " | cleanup "@ + queue_text(
        o.queues.cleanup,
    ) + " | dedup "@ + queue_text(o.queues.dedup) + " | merge_refine "@ + queue_text(
        o.queues.merge_refinement,
    ) + "\n**Grayzone pending**: "@ + count_text(o.grayzone_pending)
}

fn push_topic(s: &mut String, r: &HealthReportItem)
    ensures
        final(s)@ == old(s)@ + topic_line(*r),
{
    let ghost start = s@;
    s.append("- ");
    s.append(r.topic.as_str());
    s.append(": count=");
    push_count(s, r.count);
    s.append(" avg_strength=");
    s.append(r.avg_strength.as_str());
    s.append(" stale=");
    push_count(s, r.stale_count);
    s.append(" consolidate=");
    push_bool(s, r.needs_consolidation);
    s.append("\n");
    assert(s@ =~= start + topic_line(*r));
}

fn push_queue(s: &mut String, q: &QueueCounts)
    ensures
        final(s)@ == old(s)@ + queue_text(*q),
{
    let ghost start = s@;
    s.append("p=");
    push_count(s, q.pending);
    s.append(" i=");
    push_count(s, q.inflight);
    s.append(" d=");
    push_count(s, q.dead_letters);
    assert(s@ =~= start + queue_text(*q));
}

impl HealthOutput {
    /// The health in words.
    pub fn to_markdown(&self) -> (r: String)
        ensures
            r@ == health_text(*self),
    {
        let mut s: String = String::new();
        if self.reports.len() == 0 {
            s.append("(no topic reports)\n");
            assert(s@ =~= "(no topic reports)\n"@);
        } else {
            s.append("**Topic health**\n");
            assert(s@ =~= "**Topic health**\n"@);
            let ghost head = s@;
            let mut i: usize = 0;
            assert(head + topic_lines(self.reports@.take(0)) =~= head);
            while i < self.reports.len()
                invariant
                    i <= self.reports@.len(),
                    s@ == head + topic_lines(self.reports@.take(i as int)),
                decreases self.reports@.len() - i,
            {
                assert(self.reports@.take(i + 1).drop_last() =~= self.reports@.take(i as int));
                push_topic(&mut s, &self.reports[i]);
                assert(s@ =~= head + topic_lines(self.reports@.take(i + 1)));
                i = i + 1;
            }
            assert(self.reports@.take(i as int) =~= self.reports@);
        }
        s.append("\n**System**: ");
        if self.status.ok {
            s.append("OK");
        } else {
            s.append("DEGRADED");
        }
        if self.status.issues.len() > 0 {
            s.append("\nIssues:");
            let ghost head = s@;
            let ghost all = texts(self.status.issues@);
            let mut i: usize = 0;
            assert(head + issue_lines(all.take(0)) =~= head);
            while i < self.status.issues.len()
                invariant
                    i <= self.status.issues@.len(),
                    all == texts(self.status.issues@),
                    s@ == head + issue_lines(all.take(i as int)),
                decreases self.status.issues@.len() - i,
            {
                assert(all.take(i + 1).drop_last() =~= all.take(i as int));
                assert(all.take(i + 1).last() == self.status.issues@[i as int]@);
                s.append("\n- ");
                s.append(self.status.issues[i].as_str());
                assert(s@ =~= head + issue_lines(all.take(i + 1)));
                i = i + 1;
            }
            assert(all.take(i as int) =~= all);
        }
        s.append("\n**Queues**: memory ");
        push_queue(&mut s, &self.queues.memory);
        s.append(" | cleanup ");
        push_queue(&mut s, &self.queues.cleanup);
        s.append(" | dedup ");
        push_queue(&mut s, &self.queues.dedup);
        s.append(" | merge_refine ");
        push_queue(&mut s, &self.queues.merge_refinement);
        s.append("\n**Grayzone pending**: ");
        push_count(&mut s, self.grayzone_pending);
        s
    }
}

/// How to diagnose.
#[derive(Clone, Copy, Debug, PartialEq, Eq, Structural)]
pub struct DoctorParams {
    pub json: bool,
    pub network: bool,
    pub fix: bool,
}

impl Default for DoctorParams {
    fn default() -> (r: DoctorParams)
        ensures
            !r.json && !r.network && !r.fix,
    {
        DoctorParams { json: false, network: false, fix: false }
    }
}

/// A diagnosis, as it is shown to people and to programs.
#[derive(Clone, Debug)]
pub struct DoctorReport {
    pub human: String,
    pub json: String,
    pub exit_code: i32,
}

/// A diagnosis and how it is shown on the command line.
#[derive(Clone, Debug)]
pub struct DoctorOutput {
    pub report: DoctorReport,
    pub json_cli: bool,
}

impl DoctorOutput {
    /// The diagnosis for people.
    pub fn to_markdown(&self) -> (r: String)
        ensures
            r@ == self.report.human@,
    {
        self.report.human.clone()
    }

    /// The diagnosis as it was asked for on the command line.
    pub fn to_cli_text(&self) -> (r: String)
        ensures
            r@ == (if self.json_cli {
                self.report.json@
            } else {
                self.report.human@
            }),
    {
        if self.json_cli {
            self.report.json.clone()
        } else {
            self.report.human.clone()
        }
    }
}

/// Whether `r` is what a check-up hands out: its report, and an exit code on the
/// command line only.
pub open spec fn is_check_up(
    r: (DoctorOutput, Option<i32>),
    report: DoctorReport,
    json: bool,
    surface: SurfaceKind,
) -> bool {
    &&& r.0.report == report
    &&& r.0.json_cli == json
    &&& r.1 == (if surface is Cli {
        Some(report.exit_code)
    } else {
        None
    })
}

/// The answer to a diagnosis, and the exit code, which only the command line
/// has.
pub fn doctor(report: DoctorReport, params: &DoctorParams, surface: SurfaceKind) -> (r: (
    DoctorOutput,
    Option<i32>,
))
    ensures
        is_check_up(r, report, params.json, surface),
{
    let code: Option<i32> = match surface {
        SurfaceKind::Cli => Some(report.exit_code),
        _ => None,
    };
    (DoctorOutput { report, json_cli: params.json }, code)
}

/// How to diagnose with repairs.
#[derive(Clone, Copy, Debug, PartialEq, Eq, Structural)]
pub struct DoctorFixParams {
    pub network: bool,
    /// Apply repairs; this is what the request is for, unless it says no.
    pub fix: bool,
}

/// Repairs are applied unless the request says no.
pub fn default_doctor_fix_flag() -> (r: bool)
    ensures
        r,
{
    true
}

impl Default for DoctorFixParams {
    fn default() -> (r: DoctorFixParams)
        ensures
            !r.network,
            r.fix,
    {
        DoctorFixParams { network: false, fix: default_doctor_fix_flag() }
    }
}

/// The configuration, without secrets.
#[derive(Clone, Debug)]
pub struct ConfigSnapshot {
    pub database_path: String,
    pub embedding_provider: String,
    pub embedding_dimensions: usize,
    pub extract_provider: String,
    pub extract_model: String,
    pub compact_mode: bool,
    pub sse_enabled: bool,
    /// As shown.
    pub decay_base_lambda: String,
    /// As shown.
    pub dedup_similarity: String,
}

/// The configuration in words, each line behind `bullet`.
pub open spec fn config_text(head: Seq<char>, bullet: Seq<char>, c: ConfigSnapshot) -> Seq<char> {
    head + "Database path: "@ + c.database_path@ + "\n"@ + bullet + "Embedding provider: "@
        + c.embedding_provider@ + "\n"@ + bullet + "Embedding dimensions: "@ + count_text(
        c.embedding_dimensions,
    ) + "\n"@ + bullet + "Extract provider: "@ + c.extract_provider@ + "\n"@ + bullet
        + "Extract model: "@ + c.extract_model@ + "\n"@ + bullet + "Compact mode: "@ + bool_text(
        c.compact_mode,
    ) + "\n"@ + bullet + "SSE enabled: "@ + bool_text(c.sse_enabled) + "\n"@ + bullet
        + "Decay base_lambda: "@ + c.decay_base_lambda@ + "\n"@ + bullet + "Dedup similarity: "@
        + c.dedup_similarity@
}

impl ConfigSnapshot {
    fn render(&self, head: &str, bullet: &str) -> (r: String)
        ensures
            r@ == config_text(head@, bullet@, *self),
    {
        let mut s: String = head.to_owned();
        s.append("Database path: ");
        s.append(self.database_path.as_str());
        s.append("\n");
        s.append(bullet);
        s.append("Embedding provider: ");
        s.append(self.embedding_provider.as_str());
        s.append("\n");
        s.append(bullet);
        s.append("Embedding dimensions: ");
        push_count(&mut s, self.embedding_dimensions);
        s.append("\n");
        s.append(bullet);
        s.append("Extract provider: ");
        s.append(self.extract_provider.as_str());
        s.append("\n");
        s.append(bullet);
        s.append("Extract model: ");
        s.append(self.extract_model.as_str());
        s.append("\n");
        s.append(bullet);
        s.append("Compact mode: ");
        push_bool(&mut s, self.compact_mode);
        s.append("\n");
        s.append(bullet);
        s.append("SSE enabled: ");
        push_bool(&mut s, self.sse_enabled);
        s.append("\n");
        s.append(bullet);
        s.append("Decay base_lambda: ");
        s.append(self.decay_base_lambda.as_str());
        s.append("\n");
        s.append(bullet);
        s.append("Dedup similarity: ");
        s.append(self.dedup_similarity.as_str());
        s
    }

    /// The configuration as a list.
    pub fn to_markdown(&self) -> (r: String)
        ensures
            r@ == config_text("**Configuration**\n- "@, "- "@, *self),
    {
        self.render("**Configuration**\n- ", "- ")
    }

    /// The configuration line by line.
    pub fn to_cli_text(&self) -> (r: String)
        ensures
            r@ == config_text(""@, ""@, *self),
    {
        self.render("", "")
    }
}

} // verus!
