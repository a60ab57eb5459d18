//! The background pass over cold memories that still lack a summary.
//!
//! A memory is worked on under a claim: a fresh token in its row. Every later
//! write to the row is made only if the token is still there, so a worker whose
//! claim was taken over can change nothing.
//!
//! The rows live in a database, and the statements that pick, claim and write
//! them are run there. [`claim_order`] and the methods of [`ColdRow`] say on a
//! row's value what those statements do, column for column, so that what holds
//! of claims can be stated and proved.

use crate::cold_archive_summary::contract::{ContractViolation, violation, violation_text};
use crate::cold_archive_summary::generator::{
    ARCHIVAL_SUMMARY_BATCH_BUDGET_SECS, ARCHIVAL_SUMMARY_CLAIM_TIMEOUT_SECS,
    ARCHIVAL_SUMMARY_VERSION, ColdArchiveConfig, ColdArchiveSummaryGenerator,
    ColdArchiveSummaryOutcome, NEEDS_ARCHIVAL_SUMMARY_EXHAUSTED, Preparation, max_content_chars,
    too_large_message,
};
use crate::cold_archive_summary::prompt::{COLD_ARCHIVE_SYSTEM_PROMPT, request_text};
use crate::text::{str_eq, trimmed};
use crate::time::{Timestamp, earlier, elapsed_secs, is_older_than, older_than};
use crate::types::{Memory, MemoryStatus, MemoryTier, opt_text};
use vstd::prelude::*;
use vstd::string::*;

verus! {

/// The columns of a memory that the pass reads and writes.
#[derive(Debug)]
pub struct ColdRow {
    pub id: String,
    pub tier: MemoryTier,
    pub status: MemoryStatus,
    pub superseded: bool,
    pub updated_at: Timestamp,
    /// 1 while a summary is wanted.
    pub needs_archival_summary: i64,
    pub in_progress_archival_summary_at: Option<Timestamp>,
    pub archival_claim_token: Option<String>,
    /// When the content last turned out too large, in seconds since the epoch.
    pub last_too_large_at: Option<i64>,
    pub archival_summary: Option<String>,
    pub archival_summary_at: Option<i64>,
    pub archival_summary_version: Option<u32>,
}

/// A row as a mathematical value.
pub struct RowView {
    pub id: Seq<char>,
    pub tier: MemoryTier,
    pub status: MemoryStatus,
    pub superseded: bool,
    pub updated_at: Timestamp,
    pub flag: i64,
    pub in_progress_at: Option<Timestamp>,
    pub token: Option<Seq<char>>,
    pub last_too_large_at: Option<i64>,
    pub summary: Option<Seq<char>>,
    pub summary_at: Option<i64>,
    pub summary_version: Option<u32>,
}

impl ColdRow {
    /// The row as a mathematical value.
    pub open spec fn view(&self) -> RowView {
        RowView {
            id: self.id@,
            tier: self.tier,
            status: self.status,
            superseded: self.superseded,
            updated_at: self.updated_at,
            flag: self.needs_archival_summary,
            in_progress_at: self.in_progress_archival_summary_at,
            token: opt_text(self.archival_claim_token),
            last_too_large_at: self.last_too_large_at,
            summary: opt_text(self.archival_summary),
            summary_at: self.archival_summary_at,
            summary_version: self.archival_summary_version,
        }
    }
}

/// Whether a memory is live: active or updated.
pub open spec fn is_live_status(s: MemoryStatus) -> bool {
    s is Active || s is Updated
}

fn live_status(s: MemoryStatus) -> (r: bool)
    ensures
        r == is_live_status(s),
{
    match s {
        MemoryStatus::Active => true,
        MemoryStatus::Updated => true,
        MemoryStatus::Retired => false,
    }
}

fn cold(t: MemoryTier) -> (r: bool)
    ensures
        r == (t is Cold),
{
    match t {
        MemoryTier::Cold => true,
        _ => false,
    }
}

/// Whether an instant lies more than the claim timeout before `now`.
pub open spec fn timed_out(at: Timestamp, now: Timestamp) -> bool {
    older_than(at, now, ARCHIVAL_SUMMARY_CLAIM_TIMEOUT_SECS as int)
}

/// Whether a row can be claimed: a summary is wanted, the memory is cold, live
/// and not superseded, and nobody is at work on it.
pub open spec fn eligible(r: RowView, now: Timestamp) -> bool {
    &&& r.flag == 1
    &&& r.tier is Cold
    &&& is_live_status(r.status)
    &&& !r.superseded
    &&& r.in_progress_at is None || timed_out(r.in_progress_at->0, now)
}

/// Whether a row can be claimed.
pub fn is_eligible(row: &ColdRow, now: &Timestamp) -> (r: bool)
    ensures
        r == eligible(row@, *now),
{
    let free: bool = match &row.in_progress_archival_summary_at {
        None => true,
        Some(at) => is_older_than(at, now, ARCHIVAL_SUMMARY_CLAIM_TIMEOUT_SECS as u32),
    };
    row.needs_archival_summary == 1 && cold(row.tier) && live_status(row.status) && !row.superseded
        && free
}

/// Whether `a` is worked on before `b`: rows that never turned out too large
/// come first, then those for which that is longest ago, and among equals the
/// one that was updated first.
pub open spec fn sooner(a: RowView, b: RowView) -> bool {
    match (a.last_too_large_at, b.last_too_large_at) {
        (None, Some(_)) => true,
        (Some(_), None) => false,
        (None, None) => earlier(a.updated_at, b.updated_at),
        (Some(x), Some(y)) => x < y || (x == y && earlier(a.updated_at, b.updated_at)),
    }
}

fn comes_sooner(a: &ColdRow, b: &ColdRow) -> (r: bool)
    ensures
        r == sooner(a@, b@),
{
    match (a.last_too_large_at, b.last_too_large_at) {
        (None, Some(_)) => true,
        (Some(_), None) => false,
        (None, None) => a.updated_at.is_before(&b.updated_at),
        (Some(x), Some(y)) => x < y || (x == y && a.updated_at.is_before(&b.updated_at)),
    }
}

/// Whether the positions are in working order: none stands after one that it
/// comes sooner than.
pub open spec fn in_order(rows: Seq<ColdRow>, order: Seq<usize>) -> bool {
    forall|i: int, j: int|
        0 <= i < j < order.len() ==> !sooner(
            rows[#[trigger] order[j] as int]@,
            rows[#[trigger] order[i] as int]@,
        )
}

/// Whether `order` is a batch: positions of claimable rows, each once and in
/// working order, no more than the limit, and none left out that comes sooner
/// or that there was room for.
pub open spec fn is_batch(
    rows: Seq<ColdRow>,
    order: Seq<usize>,
    now: Timestamp,
    limit: int,
) -> bool {
    &&& order.len() <= limit
    &&& order.no_duplicates()
    &&& forall|i: int|
        0 <= i < order.len() ==> (#[trigger] order[i]) < rows.len() && eligible(
            rows[order[i] as int]@,
            now,
        )
    &&& in_order(rows, order)
    &&& forall|k: int|
        #![trigger rows[k]]
        0 <= k < rows.len() && eligible(rows[k]@, now) && !order.contains(k as usize) ==> {
            &&& order.len() == limit
            &&& forall|i: int|
                0 <= i < order.len() ==> !sooner(rows[k]@, rows[#[trigger] order[i] as int]@)
        }
}

spec fn is_sorted_eligible(rows: Seq<ColdRow>, order: Seq<usize>, now: Timestamp, upto: int) -> bool {
    &&& order.no_duplicates()
    &&& forall|i: int|
        0 <= i < order.len() ==> (#[trigger] order[i]) < upto && eligible(
            rows[order[i] as int]@,
            now,
        )
    &&& in_order(rows, order)
    &&& forall|k: int|
        #![trigger rows[k]]
        0 <= k < upto && eligible(rows[k]@, now) ==> order.contains(k as usize)
}

fn insert_in_order(rows: &Vec<ColdRow>, order: &mut Vec<usize>, p: usize, Ghost(now): Ghost<Timestamp>)
    requires
        p < rows@.len(),
        eligible(rows@[p as int]@, now),
        is_sorted_eligible(rows@, old(order)@, now, p as int),
    ensures
        is_sorted_eligible(rows@, final(order)@, now, p + 1),
{
    let mut k: usize = order.len();
    while k > 0 && comes_sooner(&rows[p], &rows[order[k - 1]])
        invariant
            k <= order@.len(),
            *order == *old(order),
            p < rows@.len(),
            is_sorted_eligible(rows@, order@, now, p as int),
            forall|i: int|
                k <= i < order@.len() ==> sooner(
                    rows@[p as int]@,
                    rows@[#[trigger] order@[i] as int]@,
                ),
        decreases k,
    {
        k = k - 1;
    }
    let ghost before = order@;
    order.insert(k, p);
    proof {
        assert(order@.len() == before.len() + 1);
        assert forall|i: int, j: int| 0 <= i < j < order@.len() implies order@[i] != order@[j] by {
            let a = if i < k {
                i
            } else {
                i - 1
            };
            let b = if j < k {
                j
            } else {
                j - 1
            };
            if i != k {
                assert(order@[i] == before[a]);
            }
            if j != k {
                assert(order@[j] == before[b]);
            }
        }
        assert(order@.no_duplicates());
        assert forall|i: int| 0 <= i < order@.len() implies (#[trigger] order@[i]) < p + 1
            && eligible(rows@[order@[i] as int]@, now) by {
            if i < k {
                assert(order@[i] == before[i]);
            } else if i > k {
                assert(order@[i] == before[i - 1]);
            }
        }
        assert forall|i: int, j: int| 0 <= i < j < order@.len() implies !sooner(
            rows@[#[trigger] order@[j] as int]@,
            rows@[#[trigger] order@[i] as int]@,
        ) by {
            if j < k {
                assert(order@[i] == before[i] && order@[j] == before[j]);
            } else if i >= k + 1 {
                assert(order@[i] == before[i - 1] && order@[j] == before[j - 1]);
            } else if i < k && j > k {
                assert(order@[i] == before[i] && order@[j] == before[j - 1]);
            } else if j == k {
                // `p` stands behind every row it does not come sooner than.
                assert(order@[i] == before[i]);
                assert(order@[j] == p);
                let last = rows@[before[k - 1] as int]@;
                assert(!sooner(rows@[p as int]@, last));
                if i < k - 1 {
                    assert(!sooner(
                        rows@[before[k - 1] as int]@,
                        rows@[before[i] as int]@,
                    ));
                }
            } else {
                // i == k
                assert(order@[i] == p);
                assert(order@[j] == before[j - 1]);
                assert(sooner(rows@[p as int]@, rows@[before[j - 1] as int]@));
            }
        }
        assert forall|q: int| #![trigger rows@[q]]
            0 <= q < p + 1 && eligible(rows@[q]@, now) implies order@.contains(q as usize) by {
            if q == p {
                assert(order@[k as int] == p);
            } else {
                assert(before.contains(q as usize));
                let i = choose|i: int| 0 <= i < before.len() && before[i] == q as usize;
                if i < k {
                    assert(order@[i] == q as usize);
                } else {
                    assert(order@[i + 1] == q as usize);
                }
            }
        }
    }
}

/// The rows to claim in this pass, in the order in which they are worked on:
/// what the query for a batch selects from `memories`.
pub fn claim_order(rows: &Vec<ColdRow>, now: &Timestamp, batch_size: usize) -> (r: Vec<usize>)
    ensures
        is_batch(rows@, r@, *now, batch_size as int),
{
    let mut order: Vec<usize> = Vec::new();
    let mut p: usize = 0;
    while p < rows.len()
        invariant
            p <= rows@.len(),
            is_sorted_eligible(rows@, order@, *now, p as int),
        decreases rows@.len() - p,
    {
        if is_eligible(&rows[p], now) {
            insert_in_order(rows, &mut order, p, Ghost(*now));
        }
        p = p + 1;
    }
    let ghost all = order@;
    if order.len() > batch_size {
        order.truncate(batch_size);
        proof {
            assert(order@ =~= all.take(batch_size as int));
            assert forall|k: int| #![trigger rows@[k]]
                0 <= k < rows@.len() && eligible(rows@[k]@, *now) && !order@.contains(
                k as usize,
            ) implies order@.len() == batch_size && (forall|i: int|
                0 <= i < order@.len() ==> !sooner(
                    rows@[k]@,
                    rows@[#[trigger] order@[i] as int]@,
                )) by {
                assert(all.contains(k as usize));
                let q = choose|q: int| 0 <= q < all.len() && all[q] == k as usize;
                assert(q >= batch_size) by {
                    if q < batch_size {
                        assert(order@[q] == k as usize);
                    }
                }
                assert forall|i: int| 0 <= i < order@.len() implies !sooner(
                    rows@[k]@,
                    rows@[#[trigger] order@[i] as int]@,
                ) by {
                    assert(all[i] == order@[i]);
                    assert(!sooner(rows@[all[q] as int]@, rows@[all[i] as int]@));
                }
            }
            assert(in_order(rows@, order@)) by {
                assert forall|i: int, j: int| 0 <= i < j < order@.len() implies !sooner(
                    rows@[#[trigger] order@[j] as int]@,
                    rows@[#[trigger] order@[i] as int]@,
                ) by {
                    assert(all[i] == order@[i] && all[j] == order@[j]);
                }
            }
            assert(order@.no_duplicates()) by {
                assert forall|i: int, j: int| 0 <= i < j < order@.len() implies order@[i]
                    != order@[j] by {
                    assert(all[i] == order@[i] && all[j] == order@[j]);
                }
            }
        }
    }
    order
}

/// The row once it is claimed under this token.
pub open spec fn claimed(r: RowView, token: Seq<char>, now: Timestamp) -> RowView {
    RowView { in_progress_at: Some(now), token: Some(token), ..r }
}

/// The row without a claim.
pub open spec fn unclaimed(r: RowView) -> RowView {
    RowView { in_progress_at: None, token: None, ..r }
}

/// The row after someone who holds, or once held, the claim writes to it: the
/// write takes place only under the token that is in the row.
pub open spec fn written_by(r: RowView, token: Seq<char>, written: RowView) -> RowView {
    if r.token == Some(token) {
        written
    } else {
        r
    }
}

/// The row put back because it turned out too large.
pub open spec fn set_aside(r: RowView, now: i64) -> RowView {
    RowView { last_too_large_at: Some(now), ..unclaimed(r) }
}

/// The row that needs no summary.
pub open spec fn flag_cleared(r: RowView) -> RowView {
    RowView { flag: 0, last_too_large_at: None, ..unclaimed(r) }
}

/// The row whose summaries were refused too often.
pub open spec fn given_up(r: RowView) -> RowView {
    RowView { flag: NEEDS_ARCHIVAL_SUMMARY_EXHAUSTED, ..unclaimed(r) }
}

/// The row with its summary.
pub open spec fn summarized(r: RowView, summary: Seq<char>, now: i64) -> RowView {
    RowView {
        summary: Some(summary),
        summary_at: Some(now),
        summary_version: Some(ARCHIVAL_SUMMARY_VERSION),
        flag: 0,
        last_too_large_at: None,
        ..unclaimed(r)
    }
}

/// Whether a summary may be stored: the claim still holds, the row is as it was
/// when its content was read, and it still wants a summary.
pub open spec fn may_commit(r: RowView, token: Seq<char>, snapshot: Timestamp) -> bool {
    &&& r.token == Some(token)
    &&& r.updated_at == snapshot
    &&& is_live_status(r.status)
    &&& !r.superseded
    &&& r.tier is Cold
    &&& r.flag == 1
}

/// Whether a summary asked for by hand may be stored.
pub open spec fn may_store_by_hand(r: RowView) -> bool {
    is_live_status(r.status) && r.tier is Cold
}

impl ColdRow {
    fn holds(&self, token: &str) -> (r: bool)
        ensures
            r == (self@.token == Some(token@)),
    {
        match &self.archival_claim_token {
            Some(t) => str_eq(t.as_str(), token),
            None => false,
        }
    }

    /// Claims the row under a fresh token, if it can be claimed.
    pub fn claim(&mut self, token: String, now: Timestamp) -> (won: bool)
        ensures
            won == eligible(old(self)@, now),
            final(self)@ == (if won {
                claimed(old(self)@, token@, now)
            } else {
                old(self)@
            }),
    {
        if is_eligible(self, &now) {
            self.in_progress_archival_summary_at = Some(now);
            self.archival_claim_token = Some(token);
            true
        } else {
            false
        }
    }

    /// Gives up the claim; the row can be claimed again.
    pub fn release_claim(&mut self, token: &str)
        ensures
            final(self)@ == written_by(old(self)@, token@, unclaimed(old(self)@)),
    {
        if self.holds(token) {
            self.in_progress_archival_summary_at = None;
            self.archival_claim_token = None;
        }
    }

    /// Gives up the claim on a row that turned out too large, so that it waits
    /// behind the others.
    pub fn release_claim_too_large(&mut self, token: &str, now: i64)
        ensures
            final(self)@ == written_by(old(self)@, token@, set_aside(old(self)@, now)),
    {
        if self.holds(token) {
            self.in_progress_archival_summary_at = None;
            self.archival_claim_token = None;
            self.last_too_large_at = Some(now);
        }
    }

    /// Gives up the claim on a row that needs no summary.
    pub fn clear_flag_only(&mut self, token: &str)
        ensures
            final(self)@ == written_by(old(self)@, token@, flag_cleared(old(self)@)),
    {
        if self.holds(token) {
            self.needs_archival_summary = 0;
            self.in_progress_archival_summary_at = None;
            self.archival_claim_token = None;
            self.last_too_large_at = None;
        }
    }

    /// Gives up a row whose summaries were refused too often.
    pub fn mark_exhausted(&mut self, token: &str)
        ensures
            final(self)@ == written_by(old(self)@, token@, given_up(old(self)@)),
    {
        if self.holds(token) {
            self.needs_archival_summary = NEEDS_ARCHIVAL_SUMMARY_EXHAUSTED;
            self.in_progress_archival_summary_at = None;
            self.archival_claim_token = None;
        }
    }

    fn store_summary(&mut self, summary: String, now: i64)
        ensures
            final(self)@ == summarized(old(self)@, summary@, now),
    {
        self.archival_summary = Some(summary);
        self.archival_summary_at = Some(now);
        self.archival_summary_version = Some(ARCHIVAL_SUMMARY_VERSION);
        self.needs_archival_summary = 0;
        self.in_progress_archival_summary_at = None;
        self.archival_claim_token = None;
        self.last_too_large_at = None;
    }

    /// Stores a summary, if the claim still holds and the row has not changed
    /// since `snapshot`.
    pub fn commit_summary(&mut self, token: &str, snapshot: Timestamp, summary: String, now: i64) -> (
    stored: bool)
        ensures
            stored == may_commit(old(self)@, token@, snapshot),
            final(self)@ == (if stored {
                summarized(old(self)@, summary@, now)
            } else {
                old(self)@
            }),
    {
        if self.holds(token) && self.updated_at == snapshot && live_status(self.status)
            && !self.superseded && cold(self.tier) && self.needs_archival_summary == 1 {
            self.store_summary(summary, now);
            true
        } else {
            false
        }
    }

    /// Stores a summary asked for by hand, if the memory is still cold and live.
    /// Whoever has a claim on the row loses it.
    pub fn commit_manual(&mut self, summary: String, now: i64) -> (stored: bool)
        ensures
            stored == may_store_by_hand(old(self)@),
            final(self)@ == (if stored {
                summarized(old(self)@, summary@, now)
            } else {
                old(self)@
            }),
    {
        if live_status(self.status) && cold(self.tier) {
            self.store_summary(summary, now);
            true
        } else {
            false
        }
    }
}

/// A row under a fresh claim is not claimed by anybody else.
pub proof fn law_claim_excludes_others(r: RowView, token: Seq<char>, taken: Timestamp, now: Timestamp)
    requires
        eligible(r, taken),
        !timed_out(taken, now),
    ensures
        !eligible(claimed(r, token, taken), now),
{
}

/// Whether `after` holds the rows once those of a batch were claimed, each under
/// its own token, and no other row was touched.
pub open spec fn batch_claimed(
    rows: Seq<ColdRow>,
    after: Seq<ColdRow>,
    order: Seq<usize>,
    tokens: Seq<Seq<char>>,
    now: Timestamp,
) -> bool {
    &&& after.len() == rows.len()
    &&& tokens.len() == order.len()
    &&& forall|i: int|
        0 <= i < order.len() ==> after[(#[trigger] order[i]) as int]@ == claimed(
            rows[order[i] as int]@,
            tokens[i],
            now,
        )
    &&& forall|k: int|
        0 <= k < rows.len() && !order.contains(k as usize) ==> (#[trigger] after[k])@ == rows[k]@
}

/// Two batches that are claimed within the claim timeout share no row, and a row
/// of the first keeps its token through the second: `rows` are claimed at
/// `taken` as the batch `first`, and what came of them at `now` as `second`.
pub proof fn law_batches_share_no_row(
    rows: Seq<ColdRow>,
    between: Seq<ColdRow>,
    after: Seq<ColdRow>,
    first: Seq<usize>,
    second: Seq<usize>,
    first_tokens: Seq<Seq<char>>,
    second_tokens: Seq<Seq<char>>,
    taken: Timestamp,
    now: Timestamp,
    first_size: usize,
    second_size: usize,
)
    requires
        is_batch(rows, first, taken, first_size as int),
        batch_claimed(rows, between, first, first_tokens, taken),
        !timed_out(taken, now),
        is_batch(between, second, now, second_size as int),
        batch_claimed(between, after, second, second_tokens, now),
    ensures
        forall|i: int, j: int|
            0 <= i < first.len() && 0 <= j < second.len() ==> (#[trigger] first[i]) != (
            #[trigger] second[j]),
        forall|i: int|
            0 <= i < first.len() ==> after[(#[trigger] first[i]) as int]@.token == Some(
                first_tokens[i],
            ),
        forall|j: int|
            0 <= j < second.len() ==> after[(#[trigger] second[j]) as int]@.token == Some(
                second_tokens[j],
            ),
        forall|i: int|
            0 <= i < first.len() ==> {
                let row = rows[(#[trigger] first[i]) as int]@;
                row.flag == 1 && row.tier is Cold && is_live_status(row.status) && !row.superseded
            },
        forall|j: int|
            0 <= j < second.len() ==> {
                let row = rows[(#[trigger] second[j]) as int]@;
                row.flag == 1 && row.tier is Cold && is_live_status(row.status) && !row.superseded
            },
{
    assert forall|i: int, j: int| 0 <= i < first.len() && 0 <= j < second.len() implies (
    #[trigger] first[i]) != (#[trigger] second[j]) by {
        if first[i] == second[j] {
            let row = rows[first[i] as int]@;
            law_claim_excludes_others(row, first_tokens[i], taken, now);
            assert(eligible(between[second[j] as int]@, now));
        }
    }
    assert forall|i: int| 0 <= i < first.len() implies after[(#[trigger] first[i]) as int]@.token
        == Some(first_tokens[i]) by {
        assert(!second.contains(first[i]));
        assert(after[first[i] as int]@ == between[first[i] as int]@);
    }
    assert forall|j: int| 0 <= j < second.len() implies {
        let row = rows[(#[trigger] second[j]) as int]@;
        row.flag == 1 && row.tier is Cold && is_live_status(row.status) && !row.superseded
    } by {
        assert(eligible(between[second[j] as int]@, now));
        assert(!first.contains(second[j]));
        assert(between[second[j] as int]@ == rows[second[j] as int]@);
    }
}

/// A worker whose claim was taken over can neither store its summary nor
/// release, clear or give up the row.
pub proof fn law_lost_claim_changes_nothing(
    r: RowView,
    mine: Seq<char>,
    theirs: Seq<char>,
    now: Timestamp,
    snapshot: Timestamp,
    written: RowView,
)
    requires
        mine != theirs,
    ensures
        written_by(claimed(r, theirs, now), mine, written) == claimed(r, theirs, now),
        !may_commit(claimed(r, theirs, now), mine, snapshot),
{
}

/// A memory that was edited while its summary was made does not get it.
pub proof fn law_edited_memory_keeps_its_flag(r: RowView, token: Seq<char>, snapshot: Timestamp)
    requires
        r.updated_at != snapshot,
    ensures
        !may_commit(r, token, snapshot),
{
}

/// A row that was given up, or has its summary, is not claimed again.
pub proof fn law_settled_row_is_not_claimed(
    r: RowView,
    token: Seq<char>,
    summary: Seq<char>,
    at: i64,
    now: Timestamp,
)
    requires
        r.token == Some(token),
    ensures
        !eligible(summarized(r, summary, at), now),
        !eligible(
            written_by(
                r,
                token,
                (RowView { flag: NEEDS_ARCHIVAL_SUMMARY_EXHAUSTED, ..unclaimed(r) }),
            ),
            now,
        ),
{
}

/// A row that turned out too large waits behind every row that did not.
pub proof fn law_too_large_rows_wait(a: RowView, b: RowView)
    requires
        a.last_too_large_at is None,
        b.last_too_large_at is Some,
    ensures
        sooner(a, b),
        !sooner(b, a),
{
}

/// How one attempt at a row ended.
#[derive(Clone, Copy, Debug, PartialEq, Eq, Structural)]
pub enum AttemptOutcome {
    Success,
    SkippedShort,
    ClaimLost,
    ContractViolation,
    TooLarge,
    /// The model could not be reached or gave no usable answer.
    LlmFailed,
    /// Anything else.
    Failed,
}

/// How a row ended.
#[derive(Clone, Copy, Debug, PartialEq, Eq, Structural)]
pub enum ProcessVerdict {
    Success,
    SkippedShort,
    Exhausted,
    ClaimLost,
    LlmError,
    DbError,
    TooLarge,
}

/// What follows an attempt.
#[derive(Clone, Copy, Debug, PartialEq, Eq, Structural)]
pub enum FuseAction {
    /// Try once more.
    Retry,
    /// The row is done.
    Finish(ProcessVerdict),
    /// The row is done once its claim is released.
    ReleaseThenFinish(ProcessVerdict),
    /// The fuse has blown: the row is given up.
    MarkExhausted,
}

/// What follows an attempt, when `strikes` summaries were refused before it.
pub open spec fn after_attempt(strikes: int, max_strikes: u32, outcome: AttemptOutcome) -> FuseAction {
    match outcome {
        AttemptOutcome::Success => FuseAction::Finish(ProcessVerdict::Success),
        AttemptOutcome::SkippedShort => FuseAction::Finish(ProcessVerdict::SkippedShort),
        AttemptOutcome::ClaimLost => FuseAction::Finish(ProcessVerdict::ClaimLost),
        AttemptOutcome::TooLarge => FuseAction::Finish(ProcessVerdict::TooLarge),
        AttemptOutcome::ContractViolation => if strikes + 1 < max_strikes {
            FuseAction::Retry
        } else {
            FuseAction::MarkExhausted
        },
        AttemptOutcome::LlmFailed => FuseAction::ReleaseThenFinish(ProcessVerdict::LlmError),
        AttemptOutcome::Failed => FuseAction::ReleaseThenFinish(ProcessVerdict::DbError),
    }
}

/// Refusals after which a row is given up: as many as configured, at least one.
pub open spec fn fuse_limit(max_strikes: u32) -> int {
    if max_strikes < 1 {
        1
    } else {
        max_strikes as int
    }
}

/// Refusals after an attempt, when there were `strikes` before it.
pub open spec fn strikes_after(strikes: int, outcome: AttemptOutcome) -> int {
    strikes + if outcome is ContractViolation {
        1int
    } else {
        0int
    }
}

/// How a row ends whose fuse has blown.
pub open spec fn blown_end(marked: bool) -> ProcessVerdict {
    if marked {
        ProcessVerdict::Exhausted
    } else {
        ProcessVerdict::DbError
    }
}

/// Counts the refused summaries of one row.
#[derive(Clone, Copy, Debug, PartialEq, Eq, Structural)]
pub struct StrikeFuse {
    pub max_strikes: u32,
    pub strikes: u64,
}

impl StrikeFuse {
    /// A fuse that blows after this many refusals, at least one.
    pub fn new(max_strikes: u32) -> (r: StrikeFuse)
        ensures
            r.strikes == 0,
            r.max_strikes == fuse_limit(max_strikes),
    {
        StrikeFuse {
            max_strikes: if max_strikes < 1 {
                1
            } else {
                max_strikes
            },
            strikes: 0,
        }
    }

    /// Takes in how an attempt ended. Only a refused summary counts.
    pub fn record(&mut self, outcome: AttemptOutcome) -> (r: FuseAction)
        requires
            old(self).strikes < old(self).max_strikes,
        ensures
            r == after_attempt(old(self).strikes as int, old(self).max_strikes, outcome),
            final(self).max_strikes == old(self).max_strikes,
            final(self).strikes == strikes_after(old(self).strikes as int, outcome),
            r is Retry ==> final(self).strikes < final(self).max_strikes,
            r is MarkExhausted ==> final(self).strikes == final(self).max_strikes,
    {
        match outcome {
            AttemptOutcome::Success => FuseAction::Finish(ProcessVerdict::Success),
            AttemptOutcome::SkippedShort => FuseAction::Finish(ProcessVerdict::SkippedShort),
            AttemptOutcome::ClaimLost => FuseAction::Finish(ProcessVerdict::ClaimLost),
            AttemptOutcome::TooLarge => FuseAction::Finish(ProcessVerdict::TooLarge),
            AttemptOutcome::ContractViolation => {
                self.strikes = self.strikes + 1;
                if self.strikes < self.max_strikes as u64 {
                    FuseAction::Retry
                } else {
                    FuseAction::MarkExhausted
                }
            },
            AttemptOutcome::LlmFailed => FuseAction::ReleaseThenFinish(ProcessVerdict::LlmError),
            AttemptOutcome::Failed => FuseAction::ReleaseThenFinish(ProcessVerdict::DbError),
        }
    }

    /// How a row ended whose fuse has blown: given up, if that could be
    /// written.
    pub fn exhausted(&self, marked: bool) -> (r: ProcessVerdict)
        ensures
            r == blown_end(marked),
    {
        if marked {
            ProcessVerdict::Exhausted
        } else {
            ProcessVerdict::DbError
        }
    }
}

/// What an attempt does next.
#[derive(Debug)]
pub enum AttemptStep {
    /// Ask the model.
    Ask { system: String, user: String },
    /// Clear the flag: the memory needs no summary. The attempt fails where that
    /// cannot be written.
    ClearFlag,
    /// Clear the flag as far as that can be written: the memory is no longer cold.
    NoLongerCold,
    /// Release the claim, with a note that the content is too large.
    ReleaseTooLarge(String),
    /// Store the summary, if the claim still holds.
    Commit(ColdArchiveSummaryOutcome),
    /// The summary was refused.
    Refused(String),
}

/// The content a summary is made of: the archived original where there is one,
/// since the row may have been stripped.
pub open spec fn source_text(content: Seq<char>, archived: Option<Seq<char>>) -> Seq<char> {
    match archived {
        Some(s) => s,
        None => content,
    }
}

fn source_of(content: &str, archived: &Option<String>) -> (r: String)
    ensures
        r@ == source_text(content@, opt_text(*archived)),
{
    match archived {
        Some(s) => s.clone(),
        None => content.to_owned(),
    }
}

/// Whether `r` is what an attempt does with the memory as it was read, under a target
/// length and a limit on the request.
pub open spec fn is_first_attempt_step(
    r: AttemptStep,
    memory: Memory,
    archived: Option<Seq<char>>,
    target: usize,
    limit: int,
) -> bool {
    let source = source_text(memory.content@, archived);
    let fits = source.len() <= max_content_chars(limit, memory.topic@, source);
    if !(memory.tier is Cold) {
        r is NoLongerCold
    } else if source.len() <= target {
        r is ClearFlag
    } else if fits {
        r matches AttemptStep::Ask { system, user } && system@
            == COLD_ARCHIVE_SYSTEM_PROMPT@ && user@ == request_text(memory.topic@, source, target)
    } else {
        r matches AttemptStep::ReleaseTooLarge(m) && m@ == too_large_message(
            memory.id@,
            source.len() as int,
            limit,
        )
    }
}

/// What an attempt does with the memory as it was read: one that is no longer
/// cold, or is short enough, loses its flag; one that is too large is put back;
/// for any other a summary is asked for.
pub fn begin_attempt(
    generator: &ColdArchiveSummaryGenerator,
    memory: &Memory,
    archived: &Option<String>,
) -> (r: AttemptStep)
    ensures
        is_first_attempt_step(
            r,
            *memory,
            opt_text(*archived),
            generator.settings().target_chars,
            generator.input_limit(),
        ),
{
    if !cold(memory.tier) {
        return AttemptStep::NoLongerCold;
    }
    let source: String = source_of(memory.content.as_str(), archived);
    match generator.prepare(memory.id.as_str(), memory.topic.as_str(), source.as_str()) {
        Preparation::AlreadyShort => AttemptStep::ClearFlag,
        Preparation::TooLarge(m) => AttemptStep::ReleaseTooLarge(m),
        Preparation::Ask { system, user } => AttemptStep::Ask { system, user },
    }
}

/// Whether `r` is what an attempt does with the model's answer.
pub open spec fn is_last_attempt_step(
    r: AttemptStep,
    memory: Memory,
    archived: Option<Seq<char>>,
    answer: Seq<char>,
    target: usize,
    now: i64,
) -> bool {
    let source = source_text(memory.content@, archived);
    let broken = violation(source, trimmed(answer), target);
    if trimmed(answer).len() == 0 {
        r is ClearFlag
    } else if broken is Some {
        r matches AttemptStep::Refused(m) && m@ == violation_text(broken->0)
    } else {
        r matches AttemptStep::Commit(o) && o.memory_id@ == memory.id@ && o.summary@
            == trimmed(answer) && o.version == ARCHIVAL_SUMMARY_VERSION && o.generated_at
            == now
    }
}

/// What an attempt does with the answer: a blank one clears the flag, one that
/// breaks the contract is refused, and any other is stored.
pub fn continue_attempt(
    generator: &ColdArchiveSummaryGenerator,
    memory: &Memory,
    archived: &Option<String>,
    answer: &str,
    now: i64,
) -> (r: AttemptStep)
    ensures
        is_last_attempt_step(
            r,
            *memory,
            opt_text(*archived),
            answer@,
            generator.settings().target_chars,
            now,
        ),
{
    let source: String = source_of(memory.content.as_str(), archived);
    match generator.finish(memory.id.as_str(), source.as_str(), answer, now) {
        Ok(None) => AttemptStep::ClearFlag,
        Ok(Some(o)) => AttemptStep::Commit(o),
        Err(v) => AttemptStep::Refused(v.message()),
    }
}

/// What a pass did.
#[derive(Clone, Copy, Debug, PartialEq, Eq, Structural)]
pub struct ColdArchiveSummaryReport {
    pub considered: u64,
    pub generated: u64,
    pub skipped_short: u64,
    pub strikes: u64,
    pub errors: u64,
    pub claim_lost: u64,
    pub exhausted: u64,
    pub too_large: u64,
    pub skipped_disabled: bool,
    pub skipped_no_llm: bool,
}

/// A report on nothing.
pub open spec fn empty_pass() -> ColdArchiveSummaryReport {
    ColdArchiveSummaryReport {
        considered: 0,
        generated: 0,
        skipped_short: 0,
        strikes: 0,
        errors: 0,
        claim_lost: 0,
        exhausted: 0,
        too_large: 0,
        skipped_disabled: false,
        skipped_no_llm: false,
    }
}

impl Default for ColdArchiveSummaryReport {
    fn default() -> (r: ColdArchiveSummaryReport)
        ensures
            r == empty_pass(),
    {
        ColdArchiveSummaryReport {
            considered: 0,
            generated: 0,
            skipped_short: 0,
            strikes: 0,
            errors: 0,
            claim_lost: 0,
            exhausted: 0,
            too_large: 0,
            skipped_disabled: false,
            skipped_no_llm: false,
        }
    }
}

/// Whether the counts of a report add up: every row is counted under exactly
/// one heading, and lost claims are among the errors.
pub open spec fn adds_up(r: ColdArchiveSummaryReport) -> bool {
    &&& r.considered == r.generated + r.skipped_short + r.exhausted + r.errors + r.too_large
    &&& r.claim_lost <= r.errors
}

/// The report with one more row.
pub open spec fn with_row(r: ColdArchiveSummaryReport, verdict: ProcessVerdict, strikes: u64) ->
    ColdArchiveSummaryReport {
    let counted = ColdArchiveSummaryReport {
        considered: (r.considered + 1) as u64,
        strikes: (r.strikes + strikes) as u64,
        ..r
    };
    match verdict {
        ProcessVerdict::Success => ColdArchiveSummaryReport {
            generated: (r.generated + 1) as u64,
            ..counted
        },
        ProcessVerdict::SkippedShort => ColdArchiveSummaryReport {
            skipped_short: (r.skipped_short + 1) as u64,
            ..counted
        },
        ProcessVerdict::Exhausted => ColdArchiveSummaryReport {
            exhausted: (r.exhausted + 1) as u64,
            ..counted
        },
        ProcessVerdict::ClaimLost => ColdArchiveSummaryReport {
            claim_lost: (r.claim_lost + 1) as u64,
            errors: (r.errors + 1) as u64,
            ..counted
        },
        ProcessVerdict::LlmError => ColdArchiveSummaryReport {
            errors: (r.errors + 1) as u64,
            ..counted
        },
        ProcessVerdict::DbError => ColdArchiveSummaryReport {
            errors: (r.errors + 1) as u64,
            ..counted
        },
        ProcessVerdict::TooLarge => ColdArchiveSummaryReport {
            too_large: (r.too_large + 1) as u64,
            ..counted
        },
    }
}

impl ColdArchiveSummaryReport {
    /// Counts one row.
    pub fn tally(&mut self, verdict: ProcessVerdict, strikes: u64)
        requires
            adds_up(*old(self)),
            old(self).considered < u64::MAX,
            old(self).strikes + strikes <= u64::MAX,
        ensures
            *final(self) == with_row(*old(self), verdict, strikes),
            adds_up(*final(self)),
    {
        self.considered = self.considered + 1;
        self.strikes = self.strikes + strikes;
        match verdict {
            ProcessVerdict::Success => {
                self.generated = self.generated + 1;
            },
            ProcessVerdict::SkippedShort => {
                self.skipped_short = self.skipped_short + 1;
            },
            ProcessVerdict::Exhausted => {
                self.exhausted = self.exhausted + 1;
            },
            ProcessVerdict::ClaimLost => {
                self.claim_lost = self.claim_lost + 1;
                self.errors = self.errors + 1;
            },
            ProcessVerdict::LlmError => {
                self.errors = self.errors + 1;
            },
            ProcessVerdict::DbError => {
                self.errors = self.errors + 1;
            },
            ProcessVerdict::TooLarge => {
                self.too_large = self.too_large + 1;
            },
        }
    }
}

/// A report that adds up still does with one more row.
pub proof fn law_report_adds_up(r: ColdArchiveSummaryReport, verdict: ProcessVerdict, strikes: u64)
    requires
        adds_up(r),
        r.considered < u64::MAX,
        r.strikes + strikes <= u64::MAX,
    ensures
        adds_up(with_row(r, verdict, strikes)),
        with_row(r, verdict, strikes).considered == r.considered + 1,
{
}

/// Whether a pass that has been running this long takes on another row.
pub open spec fn has_time_left(elapsed_secs: u64) -> bool {
    elapsed_secs < ARCHIVAL_SUMMARY_BATCH_BUDGET_SECS
}

/// Whether a pass that has been running this long takes on another row.
pub fn within_budget(elapsed_secs: u64) -> (r: bool)
    ensures
        r == has_time_left(elapsed_secs),
{
    elapsed_secs < ARCHIVAL_SUMMARY_BATCH_BUDGET_SECS
}

/// The report of a pass that starts, and whether there is anything to do.
pub open spec fn started_pass(enabled: bool, has_llm: bool) -> (ColdArchiveSummaryReport, bool) {
    (
        ColdArchiveSummaryReport {
            skipped_disabled: !enabled,
            skipped_no_llm: enabled && !has_llm,
            ..empty_pass()
        },
        enabled && has_llm,
    )
}

/// Starts a pass: the report to fill, and whether there is anything to do. A
/// pass that is switched off, or has no model to ask, touches no row.
pub fn run_cold_archive_summary(cold_config: &ColdArchiveConfig, has_llm: bool) -> (r: (
    ColdArchiveSummaryReport,
    bool,
))
    ensures
        adds_up(r.0),
        r == started_pass(cold_config.enabled, has_llm),
{
    let mut report: ColdArchiveSummaryReport = ColdArchiveSummaryReport::default();
    if !cold_config.enabled {
        report.skipped_disabled = true;
        return (report, false);
    }
    if !has_llm {
        report.skipped_no_llm = true;
        return (report, false);
    }
    (report, true)
}

/// Starts a pass with a model at hand.
pub fn run_cold_archive_summary_with_extractor(cold_config: &ColdArchiveConfig) -> (r: (
    ColdArchiveSummaryReport,
    bool,
))
    ensures
        adds_up(r.0),
        r == started_pass(cold_config.enabled, true),
{
    run_cold_archive_summary(cold_config, true)
}

} // verus!
