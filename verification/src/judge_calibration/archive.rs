//! The archive of judged texts that the nightly judge works through.

use crate::hash::{big_endian, hex, hex16, leading_u64, sha256, sha256_of};
use crate::text::{chars_of, decimal, prefix, push_decimal, starts_with, string_of};
use crate::time::{Timestamp, date_midnight, date_read, format_compact_date, formatted, secs_view};
use vstd::prelude::*;
use vstd::string::*;

verus! {

/// Which surface an archived text comes from.
#[derive(Clone, Copy, Debug, PartialEq, Eq, Structural)]
pub enum CronArchiveSurface {
    Synthesis,
    ConceptSummary,
}

/// Where an archived text belongs among the feedback statistics.
#[derive(Clone, Debug)]
pub struct JudgeMetadata {
    pub query_type: Option<String>,
    pub cluster_id: Option<i64>,
    pub source_count: Option<u32>,
    pub judge_latency_ms: Option<u64>,
}

/// A text kept for the nightly judge, as the runtime judge saw it.
#[derive(Clone, Debug)]
pub struct CronArchiveEntry {
    pub surface: CronArchiveSurface,
    /// Id of the synthesis or of the concept summary.
    pub id: String,
    /// Id of the concept; empty for a synthesis.
    pub concept_id: String,
    /// Digest of prompt and candidate as the runtime judge saw them.
    pub stamp_hash: String,
    pub query: String,
    pub sources: Vec<String>,
    pub candidate: String,
    pub metadata: Option<JudgeMetadata>,
    /// When the text was made, in seconds since the epoch.
    pub minted_at: i64,
}

/// The events a nightly verdict is written as.
pub open spec fn offline_event(surface: CronArchiveSurface) -> Seq<char> {
    match surface {
        CronArchiveSurface::Synthesis => "synthesis_llm_judge_offline_cron"@,
        CronArchiveSurface::ConceptSummary => "concept_summary_llm_judge_offline_cron"@,
    }
}

/// The events a runtime verdict is written as.
pub open spec fn runtime_event(surface: CronArchiveSurface) -> Seq<char> {
    match surface {
        CronArchiveSurface::Synthesis => "synthesis_llm_judge"@,
        CronArchiveSurface::ConceptSummary => "concept_summary_llm_judge"@,
    }
}

/// The payload member that holds the id of the judged text.
pub open spec fn id_member(surface: CronArchiveSurface) -> Seq<char> {
    match surface {
        CronArchiveSurface::Synthesis => "synthesis_id"@,
        CronArchiveSurface::ConceptSummary => "concept_summary_id"@,
    }
}

impl CronArchiveSurface {
    /// The events a nightly verdict is written as.
    pub fn offline_event_type(&self) -> (r: &'static str)
        ensures
            r@ == offline_event(*self),
    {
        match self {
            CronArchiveSurface::Synthesis => "synthesis_llm_judge_offline_cron",
            CronArchiveSurface::ConceptSummary => "concept_summary_llm_judge_offline_cron",
        }
    }

    /// The events a runtime verdict is written as.
    pub fn runtime_event_type(&self) -> (r: &'static str)
        ensures
            r@ == runtime_event(*self),
    {
        match self {
            CronArchiveSurface::Synthesis => "synthesis_llm_judge",
            CronArchiveSurface::ConceptSummary => "concept_summary_llm_judge",
        }
    }

    /// The payload member that holds the id of the judged text.
    pub fn id_field(&self) -> (r: &'static str)
        ensures
            r@ == id_member(*self),
    {
        match self {
            CronArchiveSurface::Synthesis => "synthesis_id",
            CronArchiveSurface::ConceptSummary => "concept_summary_id",
        }
    }
}

/// The pattern that finds a payload whose member has this text.
pub open spec fn like_pattern(name: Seq<char>, value: Seq<char>) -> Seq<char> {
    "%\""@ + name + "\":\""@ + value + "\"%"@
}

/// The pattern that finds a payload whose member has this text.
pub fn payload_pattern(name: &str, value: &str) -> (r: String)
    ensures
        r@ == like_pattern(name@, value@),
{
    let mut s: String = "%\"".to_owned();
    s.append(name);
    s.append("\":\"");
    s.append(value);
    s.append("\"%");
    s
}

/// The point of an id on the sampling scale: the first eight bytes of the
/// SHA-256 digest of its text, as a number. An id is sampled where its point,
/// as a fraction of the greatest number, lies under the sampling rate.
pub open spec fn sample_point(id_bytes: Seq<u8>) -> int {
    big_endian(sha256(id_bytes), 8)
}

/// The point of an id on the sampling scale.
pub fn cron_sample_point(id: &str) -> (r: u64)
    ensures
        r == sample_point(id.spec_bytes()),
{
    leading_u64(&sha256_of(id.as_bytes()))
}

/// A directory and an entry in it.
pub open spec fn path_join(base: Seq<char>, leaf: Seq<char>) -> Seq<char> {
    if base.len() == 0 {
        leaf
    } else if base.last() == '/' {
        base + leaf
    } else {
        base + "/"@ + leaf
    }
}

/// A directory and an entry in it.
pub fn join_path(base: &str, leaf: &str) -> (r: String)
    ensures
        r@ == path_join(base@, leaf@),
{
    let n: usize = base.unicode_len();
    let mut s: String = base.to_owned();
    if n == 0 {
        return leaf.to_owned();
    }
    if base.get_char(n - 1) != '/' {
        s.append("/");
    }
    s.append(leaf);
    s
}

/// The queue directory of one database: databases that share a base directory
/// are kept apart by the hash of their path.
pub open spec fn queue_dir(base: Seq<char>, db_hash: u64) -> Seq<char> {
    path_join(path_join(base, "queue"@), hex(db_hash as int, 16))
}

/// The queue directory of one database.
pub fn db_scoped_queue_dir(base: &str, db_hash: u64) -> (r: String)
    ensures
        r@ == queue_dir(base@, db_hash),
{
    join_path(join_path(base, "queue").as_str(), hex16(db_hash).as_str())
}

/// The file of a queue.
pub fn queue_scoped_path(base: &str, db_hash: u64, prefix: &str) -> (r: String)
    ensures
        r@ == path_join(queue_dir(base@, db_hash), prefix@ + ".jsonl"@),
{
    let mut name: String = prefix.to_owned();
    name.append(".jsonl");
    join_path(db_scoped_queue_dir(base, db_hash).as_str(), name.as_str())
}

/// The name of the archive file of a day and a shard.
pub open spec fn archive_name(date: Seq<char>, shard: u32) -> Seq<char> {
    "synthesis_cron_archive_"@ + date + "_"@ + decimal(shard as nat) + ".jsonl"@
}

/// The name of the archive file of a day, given as text, and a shard.
pub fn archive_file_name(date: &str, shard: u32) -> (r: String)
    ensures
        r@ == archive_name(date@, shard),
{
    let mut name: String = "synthesis_cron_archive_".to_owned();
    name.append(date);
    name.append("_");
    push_decimal(&mut name, shard as u64);
    name.append(".jsonl");
    name
}

/// The archive file of a day and a shard.
pub fn cron_archive_path(base: &str, db_hash: u64, day: &Timestamp, shard: u32) -> (r: String)
    ensures
        r@ == path_join(
            queue_dir(base@, db_hash),
            archive_name(formatted(*day, "%Y%m%d"@), shard),
        ),
{
    let name: String = archive_file_name(format_compact_date(day).as_str(), shard);
    join_path(db_scoped_queue_dir(base, db_hash).as_str(), name.as_str())
}

/// The snapshot of learned priors of one database.
pub fn bootstrap_priors_snapshot_path(base: &str, db_hash: u64) -> (r: String)
    ensures
        r@ == path_join(queue_dir(base@, db_hash), "bootstrap_priors.json"@),
{
    join_path(db_scoped_queue_dir(base, db_hash).as_str(), "bootstrap_priors.json")
}

/// What stands between a prefix and a suffix, if a text has both.
pub open spec fn between(s: Seq<char>, before: Seq<char>, after: Seq<char>) -> Option<Seq<char>> {
    if before.is_prefix_of(s) && after.is_suffix_of(s.skip(before.len() as int)) {
        Some(s.skip(before.len() as int).take(s.len() - before.len() - after.len()))
    } else {
        None
    }
}

/// The eight characters of an archive file's name that hold its day.
pub open spec fn day_part(name: Seq<char>) -> Option<Seq<char>> {
    match between(name, "synthesis_cron_archive_"@, ".jsonl"@) {
        Some(rest) => if rest.len() >= 9 && rest[8] == '_' {
            Some(rest.take(8))
        } else {
            None
        },
        None => None,
    }
}

/// Midnight of the day of an archive file, from its name; `None` where the
/// name is not that of an archive file.
pub open spec fn archive_day(name: Seq<char>) -> Option<int> {
    match day_part(name) {
        Some(date) => date_midnight(date, "%Y%m%d"@),
        None => None,
    }
}

/// The eight characters of an archive file's name that hold its day.
pub fn name_day_part(name: &str) -> (r: Option<String>)
    ensures
        match day_part(name@) {
            Some(d) => r matches Some(s) && s@ == d,
            None => r is None,
        },
{
    let v: Vec<char> = chars_of(name);
    proof {
        reveal_strlit("synthesis_cron_archive_");
        reveal_strlit(".jsonl");
    }
    if !starts_with(&v, "synthesis_cron_archive_") {
        return None;
    }
    let end: Vec<char> = chars_of(".jsonl");
    let n: usize = v.len();
    if n - 23 < 6 {
        assert(v@.skip(23).len() < 6);
        return None;
    }
    let mut k: usize = 0;
    let ghost rest = v@.skip(23);
    let ghost tail = rest.subrange(rest.len() - 6, rest.len() as int);
    while k < 6
        invariant
            k <= 6,
            n == v@.len(),
            n >= 29,
            v@ == name@,
            end@ == ".jsonl"@,
            end@.len() == 6,
            "synthesis_cron_archive_"@.len() == 23,
            rest == v@.skip(23),
            tail == rest.subrange(rest.len() - 6, rest.len() as int),
            forall|q: int| 0 <= q < k ==> tail[q] == end@[q],
        decreases 6 - k,
    {
        assert(tail[k as int] == v@[n - 6 + k]);
        if v[n - 6 + k] != end[k] {
            assert(!end@.is_suffix_of(rest)) by {
                if end@.is_suffix_of(rest) {
                    assert(end@ == tail);
                }
            }
            return None;
        }
        k = k + 1;
    }
    assert(tail =~= end@);
    assert(end@.is_suffix_of(rest));
    let ghost middle = rest.take(n - 29);
    if n < 38 || v[31] != '_' {
        assert(n >= 38 ==> middle[8] == v@[31]);
        return None;
    }
    assert(middle[8] == v@[31]);
    let mut date: Vec<char> = Vec::new();
    let mut q: usize = 23;
    while q < 31
        invariant
            23 <= q <= 31,
            v@.len() >= 38,
            date@ == v@.subrange(23, q as int),
        decreases 31 - q,
    {
        date.push(v[q]);
        q = q + 1;
        assert(v@.subrange(23, q as int) =~= v@.subrange(23, q - 1).push(v@[q - 1]));
    }
    assert(date@ =~= middle.take(8));
    Some(string_of(&date))
}

/// Midnight of the day of an archive file, in seconds since the epoch.
pub fn archive_file_day(name: &str) -> (r: Option<i64>)
    ensures
        secs_view(r) == archive_day(name@),
{
    match name_day_part(name) {
        Some(date) => date_read(date.as_str(), "%Y%m%d"),
        None => None,
    }
}

/// Whether an archive of this day is read: today's and yesterday's are.
pub open spec fn is_read_day(day_midnight: int, today_midnight: int) -> bool {
    day_midnight == today_midnight || day_midnight == today_midnight - 86_400
}

/// Whether an archive file of this day is read: yesterday's and today's are,
/// so that the last 24 hours are covered across midnight.
pub fn reads_archive_day(day_midnight: i64, today_midnight: i64) -> (r: bool)
    ensures
        r == is_read_day(day_midnight as int, today_midnight as int),
{
    day_midnight == today_midnight || (today_midnight >= i64::MIN + 86_400 && day_midnight
        == today_midnight - 86_400)
}

/// Start of the window of a run: 24 hours before it.
pub open spec fn window_start(now: i64) -> int {
    now - 86_400
}

/// The entries of the last 24 hours, in order.
pub open spec fn recent_entries(entries: Seq<CronArchiveEntry>, now: i64) -> Seq<CronArchiveEntry>
    decreases entries.len(),
{
    if entries.len() == 0 {
        Seq::empty()
    } else {
        let rest = recent_entries(entries.drop_last(), now);
        if entries.last().minted_at >= window_start(now) {
            rest.push(entries.last())
        } else {
            rest
        }
    }
}

/// Keeps the entries of the last 24 hours, in order.
pub fn retain_recent(entries: Vec<CronArchiveEntry>, now: i64) -> (r: Vec<CronArchiveEntry>)
    requires
        now >= i64::MIN + 86_400,
    ensures
        r@ == recent_entries(entries@, now),
{
    let start: i64 = now - 86_400;
    let mut rest: Vec<CronArchiveEntry> = entries;
    let ghost all = rest@;
    let mut r: Vec<CronArchiveEntry> = Vec::new();
    let ghost mut done: int = 0;
    assert(all.skip(0) =~= all);
    assert(all.take(0) =~= Seq::<CronArchiveEntry>::empty());
    while rest.len() > 0
        invariant
            start == now - 86_400,
            0 <= done <= all.len(),
            rest@ == all.skip(done),
            r@ == recent_entries(all.take(done), now),
        decreases rest@.len(),
    {
        let e: CronArchiveEntry = rest.remove(0);
        proof {
            assert(e == all[done]);
            assert(rest@ =~= all.skip(done + 1));
            assert(all.take(done + 1).drop_last() =~= all.take(done));
            assert(all.take(done + 1).last() == e);
            done = done + 1;
        }
        if e.minted_at >= start {
            r.push(e);
        }
    }
    assert(all.take(done) =~= all);
    r
}

/// Every entry that is kept is at most 24 hours old.
pub proof fn law_recent_entries_are_recent(entries: Seq<CronArchiveEntry>, now: i64, k: int)
    requires
        0 <= k < recent_entries(entries, now).len(),
    ensures
        recent_entries(entries, now)[k].minted_at >= now - 86_400,
        entries.contains(recent_entries(entries, now)[k]),
    decreases entries.len(),
{
    if entries.len() > 0 {
        let before = recent_entries(entries.drop_last(), now);
        if k < before.len() {
            law_recent_entries_are_recent(entries.drop_last(), now, k);
            let i = choose|i: int|
                0 <= i < entries.drop_last().len() && entries.drop_last()[i] == before[k];
            assert(entries[i] == before[k]);
        } else {
            assert(entries[entries.len() - 1] == entries.last());
        }
    }
}

} // verus!
