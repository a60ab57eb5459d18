//! What archival summaries are for: which are refused, what is asked of the model,
//! which rows are worked on in which order, and how a row ends.

use crate::cold_archive_summary::contract::{
    ContractViolation, binary_scale, cjk_count, has_trigram, hundredths, hundredths_text, is_cjk,
    nearest, trigram_hits, trigram_total, violation,
};
use crate::cold_archive_summary::escaping::{
    law_source_brings_no_markup, lemma_entity_chars, lemma_replaced_absent,
    lemma_substituted_noop,
};
use crate::cold_archive_summary::generator::{
    ArsConfig, ColdArchiveConfig, ColdArchiveSummaryOutcome, Preparation, is_finish,
    is_preparation, max_content_chars, settings_of, standard_settings,
};
use crate::cold_archive_summary::prompt::{
    attribute_escaped, prompt_content, prompt_topic, request_text,
};
use crate::cold_archive_summary::refresh::{
    ManualRefreshOutcome, RefreshStep, is_first_step, is_last_step, is_stored_report,
};
use crate::cold_archive_summary::worker::{
    AttemptOutcome, AttemptStep, ColdArchiveSummaryReport, ColdRow, FuseAction, ProcessVerdict,
    RowView, adds_up, after_attempt, blown_end, claimed, eligible, flag_cleared, fuse_limit,
    given_up, has_time_left, is_batch, is_first_attempt_step, is_last_attempt_step,
    is_live_status, may_commit, may_store_by_hand, set_aside, sooner, source_text, started_pass,
    strikes_after, summarized, unclaimed, with_row, written_by,
};
use crate::concept_summary::laws::{lemma_stands_in, stands_in};
use crate::laws::{law_decimal, law_occurrences, number_of};
use crate::text::{decimal, expand, replaced, substitution, trimmed};
use crate::time::{Timestamp, older_than};
use crate::types::{Memory, MemoryStatus, MemoryTier};
use vstd::prelude::*;
use vstd::string::*;

verus! {

/// Whether the three characters of the summary from `i` on stand next to each
/// other somewhere in the source.
pub open spec fn occurs_in_source(source: Seq<char>, summary: Seq<char>, i: int) -> bool {
    exists|k: int|
        0 <= k && k + 2 < source.len() && #[trigger] source[k] == summary[i] && source[k + 1]
            == summary[i + 1] && source[k + 2] == summary[i + 2]
}

/// The positions of the summary at which three characters begin.
pub open spec fn trigram_positions(summary: Seq<char>) -> Seq<int> {
    Seq::new(
        (if summary.len() >= 3 {
            summary.len() - 2
        } else {
            0
        }) as nat,
        |i: int| i,
    )
}

/// The share of its trigrams that a summary is held to counts, of all positions at
/// which three characters begin, those whose characters occur in the source.
pub proof fn law_trigram_hits(source: Seq<char>, summary: Seq<char>)
    ensures
        trigram_total(summary) == trigram_positions(summary).len(),
        trigram_hits(source, summary, trigram_total(summary)) == trigram_positions(summary).filter(
            |i: int| occurs_in_source(source, summary, i),
        ).len(),
{
    lemma_hits(source, summary, trigram_total(summary));
    assert(trigram_positions(summary) =~= Seq::new(trigram_total(summary) as nat, |i: int| i));
}

proof fn lemma_hits(source: Seq<char>, summary: Seq<char>, count: int)
    requires
        0 <= count,
    ensures
        trigram_hits(source, summary, count) == Seq::new(count as nat, |i: int| i).filter(
            |i: int| occurs_in_source(source, summary, i),
        ).len(),
    decreases count,
{
    reveal(Seq::filter);
    let all = Seq::new(count as nat, |i: int| i);
    if count > 0 {
        lemma_hits(source, summary, count - 1);
        assert(all.drop_last() =~= Seq::new((count - 1) as nat, |i: int| i));
        assert(all.last() == count - 1);
        assert(has_trigram(source, summary[count - 1], summary[count], summary[count + 1])
            == occurs_in_source(source, summary, count - 1));
    }
}

/// A summary of three characters or more, none of whose trigrams occurs in the
/// source, is refused.
pub proof fn law_made_up_summary_is_refused(source: Seq<char>, summary: Seq<char>, target: usize)
    requires
        summary.len() >= 3,
        forall|i: int| 0 <= i && i + 2 < summary.len() ==> !occurs_in_source(source, summary, i),
    ensures
        violation(source, summary, target) is Some,
        trigram_hits(source, summary, trigram_total(summary)) == 0,
{
    law_trigram_hits(source, summary);
    let p = |i: int| occurs_in_source(source, summary, i);
    let all = trigram_positions(summary);
    if all.filter(p).len() > 0 {
        let x = all.filter(p)[0];
        assert(all.filter(p).contains(x));
        all.lemma_filter_contains_rev(p, x);
        all.lemma_filter_pred(p, 0);
        assert(p(x));
        let q = choose|q: int| 0 <= q < all.len() && all[q] == x;
        assert(0 <= x && x + 2 < summary.len());
    }
}

/// CJK ideographs are the characters from U+4E00 to U+9FFF, and each counts once.
pub proof fn law_cjk_count(s: Seq<char>)
    ensures
        cjk_count(s) == s.filter(|c: char| 0x4E00 <= c as u32 <= 0x9FFF).len(),
    decreases s.len(),
{
    reveal(Seq::filter);
    let p = |c: char| 0x4E00 <= c as u32 <= 0x9FFF;
    if s.len() > 0 {
        law_cjk_count(s.drop_last());
        let rest = s.drop_last().filter(p);
        assert(p(s.last()) == is_cjk(s.last()));
        assert(s.filter(p) == if p(s.last()) {
            rest.push(s.last())
        } else {
            rest
        });
    }
}

/// A summary is accepted exactly where it has at most one and a half times the
/// target characters, its share of CJK ideographs is within a tenth of the
/// source's, and at least 65 in 100 of its trigrams occur in the source. Checked in
/// this order, the first that fails is reported, with what was counted.
pub proof fn law_when_a_summary_is_refused(source: Seq<char>, summary: Seq<char>, target: usize)
    requires
        source.len() <= usize::MAX,
        summary.len() <= usize::MAX,
    ensures
        ({
            let (n, m) = (source.len() as int, summary.len() as int);
            let (cn, cm) = (cjk_count(source) as int, cjk_count(summary) as int);
            let total = trigram_positions(summary).len() as int;
            let hits = trigram_positions(summary).filter(
                |i: int| occurs_in_source(source, summary, i),
            ).len() as int;
            let long = 2 * m > 3 * target;
            let drifted = if n > 0 && m > 0 {
                10 * (cn * m - cm * n) > n * m || 10 * (cm * n - cn * m) > n * m
            } else if n > 0 {
                10 * cn > n
            } else {
                10 * cm > m
            };
            let made_up = 100 * hits < 65 * total;
            match violation(source, summary, target) {
                None => !long && !drifted && !made_up,
                Some(ContractViolation::BoundedLength { chars, max_chars }) => long && chars == m
                    && 2 * max_chars <= 3 * target < 2 * (max_chars + 1),
                Some(
                    ContractViolation::ScriptPreservation {
                        source_cjk,
                        source_chars,
                        summary_cjk,
                        summary_chars,
                    },
                ) => !long && drifted && source_cjk == cn && source_chars == n && summary_cjk == cm
                    && summary_chars == m,
                Some(ContractViolation::TrigramCoverage { hits: h, total: t }) => !long && !drifted
                    && made_up && h == hits && t == total,
            }
        }),
{
    law_trigram_hits(source, summary);
    lemma_cjk_bound(source);
    lemma_cjk_bound(summary);
    lemma_hits_bound(source, summary, trigram_total(summary));
    let (n, m) = (source.len() as int, summary.len() as int);
    let (cn, cm) = (cjk_count(source) as int, cjk_count(summary) as int);
    let nn = if n == 0 { 1int } else { n };
    let mm = if m == 0 { 1int } else { m };
    if n == 0 {
        assert(cn == 0);
        assert(cn * mm == 0) by (nonlinear_arith)
            requires
                cn == 0,
        ;
        assert(cm * nn == cm && nn * mm == mm) by (nonlinear_arith)
            requires
                nn == 1,
        ;
    }
    if m == 0 {
        assert(cm == 0);
        assert(cm * nn == 0) by (nonlinear_arith)
            requires
                cm == 0,
        ;
        assert(cn * mm == cn && nn * mm == nn) by (nonlinear_arith)
            requires
                mm == 1,
        ;
    }
}

proof fn lemma_cjk_bound(s: Seq<char>)
    ensures
        cjk_count(s) <= s.len(),
    decreases s.len(),
{
    if s.len() > 0 {
        lemma_cjk_bound(s.drop_last());
    }
}

proof fn lemma_hits_bound(source: Seq<char>, summary: Seq<char>, count: int)
    requires
        0 <= count,
    ensures
        trigram_hits(source, summary, count) <= count,
    decreases count,
{
    if count > 0 {
        lemma_hits_bound(source, summary, count - 1);
    }
}

/// A content is asked about where it, the topic, three characters for each opening
/// bracket and 512 more fit into the limit, or it has at most 128 characters.
pub proof fn law_what_fits_into_a_request(
    max_chars: int,
    topic: Seq<char>,
    content: Seq<char>,
)
    ensures
        content.len() <= max_content_chars(max_chars, topic, content) <==> content.len() <= 128
            || content.len() + topic.len() + 3 * content.to_multiset().count('<') + 512
            <= max_chars,
{
    law_occurrences(content, '<');
}

/// A row can be claimed exactly where a summary is wanted, the memory is cold, live
/// and superseded by none, and no claim on it is younger than five minutes.
pub proof fn law_when_a_row_can_be_claimed(r: RowView, now: Timestamp)
    ensures
        eligible(r, now) <==> {
            &&& r.flag == 1
            &&& r.tier == MemoryTier::Cold
            &&& r.status == MemoryStatus::Active || r.status == MemoryStatus::Updated
            &&& !r.superseded
            &&& r.in_progress_at matches Some(at) ==> older_than(at, now, 300)
        },
{
}

/// The order of work: rows that never turned out too large before those that did,
/// of those the one for which that is longest ago, and among equals the one that
/// was updated first. No row comes before itself, and the order is transitive.
pub proof fn law_order_of_work(a: RowView, b: RowView, c: RowView)
    ensures
        a.last_too_large_at is None && b.last_too_large_at is Some ==> sooner(a, b) && !sooner(b, a),
        a.last_too_large_at matches Some(x) ==> (b.last_too_large_at matches Some(y) ==> (x < y
            ==> sooner(a, b) && !sooner(b, a))),
        a.last_too_large_at == b.last_too_large_at ==> sooner(a, b) == (a.updated_at.seconds()
            < b.updated_at.seconds() || (a.updated_at.seconds() == b.updated_at.seconds()
            && a.updated_at.nanoseconds() < b.updated_at.nanoseconds())),
        !sooner(a, a),
        sooner(a, b) && sooner(b, c) ==> sooner(a, c),
{
}

/// A batch holds claimable rows only, each once, no more than asked for, in the
/// order of work; a claimable row is left out only where the batch is full, and
/// then no row of the batch comes later than it should.
pub proof fn law_batch_is_the_first_of_the_queue(
    rows: Seq<ColdRow>,
    order: Seq<usize>,
    now: Timestamp,
    limit: int,
)
    requires
        is_batch(rows, order, now, limit),
    ensures
        order.len() <= limit,
        forall|i: int, j: int| 0 <= i < j < order.len() ==> order[i] != order[j],
        forall|i: int|
            0 <= i < order.len() ==> (#[trigger] order[i]) < rows.len() && eligible(
                rows[order[i] as int]@,
                now,
            ),
        forall|i: int, j: int|
            0 <= i < j < order.len() ==> !sooner(
                rows[(#[trigger] order[j]) as int]@,
                rows[(#[trigger] order[i]) as int]@,
            ),
        forall|k: int, i: int|
            0 <= k < rows.len() && 0 <= i < order.len() && eligible((#[trigger] rows[k])@, now)
                && !order.contains(k as usize) ==> order.len() == limit && !sooner(
                rows[k]@,
                rows[(#[trigger] order[i]) as int]@,
            ),
{
}

/// A claim puts the token and the time into the row and changes nothing else.
pub proof fn law_claim_writes_token_and_time(r: RowView, token: Seq<char>, now: Timestamp)
    ensures
        ({
            let c = claimed(r, token, now);
            &&& c.token == Some(token) && c.in_progress_at == Some(now)
            &&& c.id == r.id && c.tier == r.tier && c.status == r.status && c.superseded
                == r.superseded && c.updated_at == r.updated_at && c.flag == r.flag
                && c.last_too_large_at == r.last_too_large_at && c.summary == r.summary
                && c.summary_at == r.summary_at && c.summary_version == r.summary_version
        }),
{
}

/// Giving a claim up takes token and time out of the row and changes nothing else,
/// and takes place only under the token that is in the row.
pub proof fn law_only_the_owner_writes(r: RowView, token: Seq<char>, written: RowView)
    ensures
        r.token == Some(token) ==> written_by(r, token, written) == written,
        r.token != Some(token) ==> written_by(r, token, written) == r,
        unclaimed(r).token is None && unclaimed(r).in_progress_at is None,
        unclaimed(r).id == r.id && unclaimed(r).tier == r.tier && unclaimed(r).status == r.status
            && unclaimed(r).superseded == r.superseded && unclaimed(r).updated_at == r.updated_at
            && unclaimed(r).flag == r.flag && unclaimed(r).last_too_large_at == r.last_too_large_at
            && unclaimed(r).summary == r.summary && unclaimed(r).summary_at == r.summary_at
            && unclaimed(r).summary_version == r.summary_version,
{
}

/// A summary is stored only under the owner's token, on a row that is unchanged
/// since it was read, still cold, live, superseded by none, and still wants one.
/// The row then has the summary, its time and version, no flag and no claim.
pub proof fn law_when_a_summary_is_stored(
    r: RowView,
    token: Seq<char>,
    snapshot: Timestamp,
    summary: Seq<char>,
    now: i64,
)
    ensures
        may_commit(r, token, snapshot) <==> {
            &&& r.token == Some(token)
            &&& r.updated_at == snapshot
            &&& r.status == MemoryStatus::Active || r.status == MemoryStatus::Updated
            &&& !r.superseded
            &&& r.tier == MemoryTier::Cold
            &&& r.flag == 1
        },
        ({
            let s = summarized(r, summary, now);
            &&& s.summary == Some(summary) && s.summary_at == Some(now) && s.summary_version
                == Some(100u32)
            &&& s.flag == 0 && s.token is None && s.in_progress_at is None && s.last_too_large_at
                is None
            &&& s.id == r.id && s.tier == r.tier && s.status == r.status && s.superseded
                == r.superseded && s.updated_at == r.updated_at
        }),
{
}

/// A refused summary is tried again until as many were refused as the fuse holds,
/// and the row is then given up. A failure of the model or of anything else ends
/// the row at once and releases it; every other end is final as it is.
pub proof fn law_fuse(strikes: int, max_strikes: u32, outcome: AttemptOutcome)
    requires
        0 <= strikes < max_strikes,
    ensures
        ({
            let a = after_attempt(strikes, max_strikes, outcome);
            &&& a is Retry <==> outcome is ContractViolation && strikes + 1 < max_strikes
            &&& a is MarkExhausted <==> outcome is ContractViolation && strikes + 1 == max_strikes
            &&& a == FuseAction::ReleaseThenFinish(ProcessVerdict::LlmError) <==> outcome
                == AttemptOutcome::LlmFailed
            &&& a == FuseAction::ReleaseThenFinish(ProcessVerdict::DbError) <==> outcome
                == AttemptOutcome::Failed
            &&& a == FuseAction::Finish(ProcessVerdict::Success) <==> outcome
                == AttemptOutcome::Success
            &&& a == FuseAction::Finish(ProcessVerdict::SkippedShort) <==> outcome
                == AttemptOutcome::SkippedShort
            &&& a == FuseAction::Finish(ProcessVerdict::ClaimLost) <==> outcome
                == AttemptOutcome::ClaimLost
            &&& a == FuseAction::Finish(ProcessVerdict::TooLarge) <==> outcome
                == AttemptOutcome::TooLarge
        }),
{
}

/// A summary is made of the archived original where there is one.
pub proof fn law_original_comes_first(content: Seq<char>, archived: Option<Seq<char>>)
    ensures
        archived is Some ==> source_text(content, archived) == archived->0,
        archived is None ==> source_text(content, archived) == content,
{
}

/// Each row is counted once, under the heading of how it ended, with its strikes.
pub proof fn law_each_row_counts_once(
    r: ColdArchiveSummaryReport,
    verdict: ProcessVerdict,
    strikes: u64,
)
    requires
        adds_up(r),
        r.considered < u64::MAX,
        r.strikes + strikes <= u64::MAX,
    ensures
        ({
            let n = with_row(r, verdict, strikes);
            &&& n.considered == r.considered + 1 && n.strikes == r.strikes + strikes
            &&& n.generated == r.generated + (if verdict == ProcessVerdict::Success {
                1int
            } else {
                0int
            })
            &&& n.skipped_short == r.skipped_short + (if verdict == ProcessVerdict::SkippedShort {
                1int
            } else {
                0int
            })
            &&& n.exhausted == r.exhausted + (if verdict == ProcessVerdict::Exhausted {
                1int
            } else {
                0int
            })
            &&& n.too_large == r.too_large + (if verdict == ProcessVerdict::TooLarge {
                1int
            } else {
                0int
            })
            &&& n.claim_lost == r.claim_lost + (if verdict == ProcessVerdict::ClaimLost {
                1int
            } else {
                0int
            })
            &&& n.errors == r.errors + (if verdict == ProcessVerdict::ClaimLost || verdict
                == ProcessVerdict::LlmError || verdict == ProcessVerdict::DbError {
                1int
            } else {
                0int
            })
            &&& n.skipped_disabled == r.skipped_disabled && n.skipped_no_llm == r.skipped_no_llm
        }),
{
}

/// A refresh by hand asks the model only for a cold memory, with the feature on, a
/// model at hand, no current summary unless forced, and a content that is longer
/// than the target and fits whole; then it asks about exactly that content.
pub proof fn law_when_a_refresh_asks(
    r: RefreshStep,
    cold_config: ColdArchiveConfig,
    memory: Memory,
    version: Option<i64>,
    force: bool,
    limit: Option<int>,
)
    requires
        is_first_step(r, cold_config, memory, version, force, limit),
    ensures
        r is Ask <==> {
            &&& cold_config.enabled
            &&& memory.tier == MemoryTier::Cold
            &&& force || version != Some(100i64)
            &&& limit is Some
            &&& memory.content@.len() > cold_config.target_chars
            &&& memory.content@.len() <= max_content_chars(limit->0, memory.topic@, memory.content@)
        },
        r matches RefreshStep::Ask { user, .. } ==> user@ == request_text(
            memory.topic@,
            memory.content@,
            cold_config.target_chars,
        ),
        r is Fail ==> limit is Some && memory.content@.len() > max_content_chars(
            limit->0,
            memory.topic@,
            memory.content@,
        ),
        r matches RefreshStep::Done(o) ==> !o.generated && o.summary_chars == 0
            && o.skipped_reason is Some,
{
}

/// A number rounded to an integer is at most a half away from it, and where it lies
/// halfway between two, the even one is taken.
pub proof fn law_nearest(a: int, b: int)
    requires
        0 <= a,
        0 < b,
    ensures
        -b <= 2 * (nearest(a, b) * b - a) <= b,
        a % b == 0 ==> nearest(a, b) * b == a,
        2 * (nearest(a, b) * b - a) == b || 2 * (nearest(a, b) * b - a) == -b ==> nearest(a, b) % 2
            == 0,
{
    let q = a / b;
    let rest = a % b;
    assert(a == q * b + rest && 0 <= rest < b) by (nonlinear_arith)
        requires
            0 < b,
            q == a / b,
            rest == a % b,
    ;
    assert((q + 1) * b == q * b + b) by (nonlinear_arith);
}

/// A share is shown as the hundredth next to it: for counts under 2 to the power of
/// 45 it is never more than half a hundredth away.
pub proof fn law_share_is_shown_to_the_hundredth(n: int, d: int)
    requires
        0 <= n <= d,
        0 < d,
        n < 0x2000_0000_0000,
    ensures
        -d <= 2 * (hundredths(n, d) * d - 100 * n) <= d,
{
    if n > 0 {
        let least = 0x10_0000_0000_0000 * d;
        let s = binary_scale(n, least);
        lemma_scale(n, least);
        let m = nearest(n * s, d);
        assert(n * s >= 0) by (nonlinear_arith)
            requires
                n > 0,
                s > 0,
        ;
        law_nearest(n * s, d);
        assert(m >= 0) by (nonlinear_arith)
            requires
                -d <= 2 * (m * d - n * s),
                n * s >= 0,
                d > 0,
                n * s >= 0x10_0000_0000_0000 * d,
        ;
        let h = nearest(m * 100, s);
        law_nearest(m * 100, s);
        lemma_two_roundings(n, d, s, m, h);
    }
}

proof fn lemma_two_roundings(n: int, d: int, s: int, m: int, h: int)
    requires
        0 < n < 0x2000_0000_0000,
        0 < d,
        0 < s,
        n * s >= 0x10_0000_0000_0000 * d,
        -d <= 2 * (m * d - n * s) <= d,
        -s <= 2 * (h * s - m * 100) <= s,
    ensures
        -d <= 2 * (h * d - 100 * n) <= d,
{
    let gap = 2 * (h * d - 100 * n);
    // Both roundings, over the common denominator.
    assert(gap * s == 2 * (h * s - m * 100) * d + 100 * (2 * (m * d - n * s))) by (nonlinear_arith)
        requires
            gap == 2 * (h * d - 100 * n),
    ;
    assert(-s * d <= 2 * (h * s - m * 100) * d <= s * d) by (nonlinear_arith)
        requires
            -s <= 2 * (h * s - m * 100) <= s,
            0 < d,
    ;
    assert(-s * d - 100 * d <= gap * s <= s * d + 100 * d);
    // The first rounding is too small to show.
    assert(100 * d < s) by (nonlinear_arith)
        requires
            n * s >= 0x10_0000_0000_0000 * d,
            0 < n < 0x2000_0000_0000,
            0 < d,
            0 < s,
    ;
    assert(gap <= d) by (nonlinear_arith)
        requires
            gap * s <= s * d + 100 * d,
            100 * d < s,
            0 < s,
    ;
    assert(gap >= -d) by (nonlinear_arith)
        requires
            -s * d - 100 * d <= gap * s,
            100 * d < s,
            0 < s,
    ;
}

proof fn lemma_scale(n: int, least: int)
    requires
        0 < n,
    ensures
        binary_scale(n, least) > 0,
        n * binary_scale(n, least) >= least,
    decreases 2 * least - n,
{
    if n < least {
        lemma_scale(2 * n, least);
        let half = binary_scale(2 * n, least);
        assert(n * (2 * half) == (2 * n) * half) by (nonlinear_arith);
    }
}

/// A share in hundredths is written as a number with two digits behind the point.
pub proof fn law_hundredths_text(h: int)
    requires
        0 <= h,
    ensures
        ({
            let text = hundredths_text(h);
            let point = text.len() - 3;
            &&& point >= 1 && text[point] == '.'
            &&& number_of(text.take(point)) == h / 100
            &&& number_of(text.skip(point + 1)) == h % 100
        }),
{
    reveal_strlit(".");
    law_decimal((h / 100) as nat);
    law_decimal(((h / 10) % 10) as nat);
    law_decimal((h % 10) as nat);
    let whole = decimal((h / 100) as nat);
    let tens = decimal(((h / 10) % 10) as nat);
    let ones = decimal((h % 10) as nat);
    let text = hundredths_text(h);
    assert(tens.len() == 1 && ones.len() == 1);
    assert(text.take(text.len() - 3) =~= whole);
    let tail = text.skip(text.len() - 2);
    assert(tail =~= tens + ones);
    assert(tail.drop_last() =~= tens);
    assert(tens.drop_last() =~= Seq::<char>::empty());
    assert(ones.drop_last() =~= Seq::<char>::empty());
    assert(number_of(tens.drop_last()) == 0);
    assert(number_of(ones.drop_last()) == 0);
    assert(tail.last() == ones.last());
}

/// In a request the content stands whole, with nothing but its opening angle brackets
/// written as entities, and the topic whole, escaped for its attribute; the target is
/// named in full.
pub proof fn law_request_carries_the_source(topic: Seq<char>, content: Seq<char>, target: usize)
    ensures
        prompt_content(content) == expand(content, |c: char| if c == '<' { "&lt;"@ } else { seq![c] }),
        prompt_topic(topic) == attribute_escaped(topic),
        request_text(topic, content, target) == "<task target_chars=\""@ + decimal(target as nat)
            + "\">summarize the source memory</task>\n<source topic=\""@ + attribute_escaped(topic)
            + "\">\n"@ + expand(content, |c: char| if c == '<' { "&lt;"@ } else { seq![c] })
            + "\n</source>"@,
{
    let f = |c: char| if c == '<' { "&lt;"@ } else { seq![c] };
    law_source_brings_no_markup(topic, content);
    lemma_entity_chars();
    let escaped = replaced(content, '<', "&lt;"@);
    lemma_same_expansion(content, substitution('<', "&lt;"@), f);
    let needle = "</"@ + "source"@ + ">"@;
    assert(needle[0] == '<');
    lemma_replaced_absent(content, '<', "&lt;"@, '<');
    lemma_substituted_noop(escaped, needle, "<\u{200B}/"@ + "source"@ + ">"@);
    lemma_attribute_without_bracket(topic);
    lemma_substituted_noop(attribute_escaped(topic), needle, "<\u{200B}/"@ + "source"@ + ">"@);
}

proof fn lemma_same_expansion(
    s: Seq<char>,
    f: spec_fn(char) -> Seq<char>,
    g: spec_fn(char) -> Seq<char>,
)
    requires
        forall|c: char| #[trigger] f(c) == g(c),
    ensures
        expand(s, f) == expand(s, g),
    decreases s.len(),
{
    if s.len() > 0 {
        lemma_same_expansion(s.drop_last(), f, g);
        assert(f(s.last()) == g(s.last()));
    }
}

proof fn lemma_attribute_without_bracket(topic: Seq<char>)
    ensures
        !attribute_escaped(topic).contains('<'),
{
    lemma_entity_chars();
    let a = replaced(topic, '&', "&amp;"@);
    let b = replaced(a, '<', "&lt;"@);
    let c = replaced(b, '>', "&gt;"@);
    let d = replaced(c, '"', "&quot;"@);
    lemma_replaced_absent(a, '<', "&lt;"@, '<');
    lemma_replaced_absent(b, '>', "&gt;"@, '<');
    lemma_replaced_absent(c, '"', "&quot;"@, '<');
    lemma_replaced_absent(d, '\'', "&apos;"@, '<');
}

/// Whether a content fits whole into a request of this many characters, with its
/// topic and what escaping adds.
pub open spec fn fits_whole(limit: int, topic: Seq<char>, content: Seq<char>) -> bool {
    content.len() <= 128 || content.len() + topic.len() + 3 * content.to_multiset().count('<') + 512
        <= limit
}

/// A content is asked about exactly where it is longer than the target and fits
/// whole; a shorter one is left alone, whatever the limit is.
pub proof fn law_when_a_content_is_asked_about(
    r: Preparation,
    id: Seq<char>,
    topic: Seq<char>,
    content: Seq<char>,
    target: usize,
    limit: int,
)
    requires
        is_preparation(r, id, topic, content, target, limit),
    ensures
        r is AlreadyShort <==> content.len() <= target,
        r is TooLarge <==> content.len() > target && !fits_whole(limit, topic, content),
        r is Ask <==> content.len() > target && fits_whole(limit, topic, content),
        r matches Preparation::Ask { user, .. } ==> user@ == request_text(topic, content, target),
        r matches Preparation::TooLarge(m) ==> stands_in(m@, id) && stands_in(
            m@,
            decimal(content.len()),
        ),
{
    law_what_fits_into_a_request(limit, topic, content);
    match r {
        Preparation::TooLarge(m) => {
            let a = "Cap C too large: memory "@;
            let b = " has "@;
            let c = " chars > resolved cap "@;
            assert(m@ =~= a + id + (b + decimal(content.len()) + c + decimal(limit as nat)));
            lemma_stands_in(a, id, b + decimal(content.len()) + c + decimal(limit as nat));
            assert(m@ =~= (a + id + b) + decimal(content.len()) + (c + decimal(limit as nat)));
            lemma_stands_in(
                a + id + b,
                decimal(content.len()),
                c + decimal(limit as nat),
            );
        },
        _ => {},
    }
}

/// What is kept of an answer is the answer without the white space around it, under
/// the memory's own id, and only where no clause of the contract is broken.
pub proof fn law_which_answer_is_kept(
    r: Result<Option<ColdArchiveSummaryOutcome>, ContractViolation>,
    id: Seq<char>,
    content: Seq<char>,
    answer: Seq<char>,
    target: usize,
    now: i64,
)
    requires
        is_finish(r, id, content, answer, target, now),
    ensures
        r == Ok::<Option<ColdArchiveSummaryOutcome>, ContractViolation>(None) <==> trimmed(
            answer,
        ).len() == 0,
        r is Err <==> trimmed(answer).len() > 0 && violation(content, trimmed(answer), target)
            is Some,
        r matches Ok(Some(o)) ==> o.summary@ == trimmed(answer) && o.summary@.len() > 0
            && o.memory_id@ == id && o.version == 100 && o.generated_at == now,
{
}

/// An attempt asks the model only about a memory that is still cold, and about the
/// archived original where there is one. A memory that warmed up or is short loses
/// its flag, and only one that is cold, too long and too large is put back.
pub proof fn law_when_an_attempt_asks(
    r: AttemptStep,
    memory: Memory,
    archived: Option<Seq<char>>,
    target: usize,
    limit: int,
)
    requires
        is_first_attempt_step(r, memory, archived, target, limit),
    ensures
        ({
            let source = if archived is Some {
                archived->0
            } else {
                memory.content@
            };
            &&& r is NoLongerCold <==> memory.tier is Hot || memory.tier is Warm
            &&& r is ClearFlag <==> memory.tier is Cold && source.len() <= target
            &&& r is Ask <==> memory.tier is Cold && source.len() > target && fits_whole(
                limit,
                memory.topic@,
                source,
            )
            &&& r is ReleaseTooLarge <==> memory.tier is Cold && source.len() > target
                && !fits_whole(limit, memory.topic@, source)
            &&& r matches AttemptStep::Ask { user, .. } ==> user@ == request_text(
                memory.topic@,
                source,
                target,
            )
        }),
{
    law_what_fits_into_a_request(limit, memory.topic@, source_text(memory.content@, archived));
}

/// An attempt stores an answer exactly where it is not blank and keeps to the
/// contract, held against the same text that the model was asked about.
pub proof fn law_when_an_attempt_stores(
    r: AttemptStep,
    memory: Memory,
    archived: Option<Seq<char>>,
    answer: Seq<char>,
    target: usize,
    now: i64,
)
    requires
        is_last_attempt_step(r, memory, archived, answer, target, now),
    ensures
        ({
            let source = if archived is Some {
                archived->0
            } else {
                memory.content@
            };
            &&& r is ClearFlag <==> trimmed(answer).len() == 0
            &&& r is Commit <==> trimmed(answer).len() > 0 && violation(
                source,
                trimmed(answer),
                target,
            ) is None
            &&& r is Refused <==> trimmed(answer).len() > 0 && violation(
                source,
                trimmed(answer),
                target,
            ) is Some
            &&& r matches AttemptStep::Commit(o) ==> o.memory_id@ == memory.id@ && o.summary@
                == trimmed(answer) && o.version == 100 && o.generated_at == now
        }),
{
}

/// A refresh by hand stores an answer under the same terms, held against the
/// memory's content.
pub proof fn law_when_a_refresh_stores(
    r: RefreshStep,
    memory: Memory,
    answer: Seq<char>,
    target: usize,
    now: i64,
)
    requires
        is_last_step(r, memory, answer, target, now),
    ensures
        r is Store <==> trimmed(answer).len() > 0 && violation(
            memory.content@,
            trimmed(answer),
            target,
        ) is None,
        r is Fail <==> trimmed(answer).len() > 0 && violation(
            memory.content@,
            trimmed(answer),
            target,
        ) is Some,
        r matches RefreshStep::Store(o) ==> o.memory_id@ == memory.id@ && o.summary@ == trimmed(
            answer,
        ) && o.version == 100 && o.generated_at == now,
        r matches RefreshStep::Done(o) ==> trimmed(answer).len() == 0 && !o.generated,
{
}

/// A refresh says that it generated a summary exactly where the summary was stored,
/// with its length; otherwise it gives a reason.
pub proof fn law_refresh_tells_what_was_stored(
    r: ManualRefreshOutcome,
    summary: Seq<char>,
    stored: bool,
)
    requires
        is_stored_report(r, summary, stored),
    ensures
        r.generated <==> stored,
        r.skipped_reason is None <==> stored,
        r.summary_chars == (if stored { summary.len() } else { 0 }),
        stored ==> r.version == 100,
{
}

/// A row that was put back waits behind the others and can be claimed again; one
/// that needs no summary, or was given up, cannot. None of them is claimed
/// afterwards, and none has another summary, tier, status or edit time than before.
pub proof fn law_what_becomes_of_a_row(r: RowView, at: i64, now: Timestamp)
    ensures
        set_aside(r, at).last_too_large_at == Some(at),
        set_aside(r, at).flag == r.flag,
        !eligible(flag_cleared(r), now),
        flag_cleared(r).last_too_large_at is None,
        !eligible(given_up(r), now),
        given_up(r).last_too_large_at == r.last_too_large_at,
        given_up(r).flag != flag_cleared(r).flag,
        r.flag == 1 && r.tier is Cold && is_live_status(r.status) && !r.superseded ==> eligible(
            set_aside(r, at),
            now,
        ),
        forall|w: RowView|
            w == set_aside(r, at) || w == flag_cleared(r) || w == given_up(r) ==> {
                &&& #[trigger] unclaimed(w) == w
                &&& w.id == r.id && w.tier == r.tier && w.status == r.status && w.superseded
                    == r.superseded && w.updated_at == r.updated_at && w.summary == r.summary
                    && w.summary_at == r.summary_at && w.summary_version == r.summary_version
            },
{
}

/// By hand a summary is stored wherever the memory is live and cold, flagged or not; so
/// it may be stored by hand wherever a worker may store one.
pub proof fn law_when_a_summary_is_stored_by_hand(
    r: RowView,
    token: Seq<char>,
    snapshot: Timestamp,
)
    ensures
        may_store_by_hand(r) <==> r.tier == MemoryTier::Cold && (r.status == MemoryStatus::Active
            || r.status == MemoryStatus::Updated),
        may_commit(r, token, snapshot) ==> may_store_by_hand(r),
{
}

/// A fuse holds as many refusals as configured and at least one; only a refusal
/// counts, and by one; it blows when as many were counted as it holds.
pub proof fn law_fuse_counts_refusals(strikes: int, max_strikes: u32, outcome: AttemptOutcome)
    requires
        0 <= strikes < fuse_limit(max_strikes),
    ensures
        fuse_limit(max_strikes) >= 1 && fuse_limit(max_strikes) >= max_strikes,
        fuse_limit(max_strikes) > max_strikes ==> max_strikes == 0 && fuse_limit(max_strikes) == 1,
        strikes_after(strikes, outcome) > strikes <==> outcome == AttemptOutcome::ContractViolation,
        strikes <= strikes_after(strikes, outcome) <= strikes + 1,
        strikes_after(strikes, outcome) == fuse_limit(max_strikes) <==> after_attempt(
            strikes,
            fuse_limit(max_strikes) as u32,
            outcome,
        ) is MarkExhausted,
        blown_end(true) == ProcessVerdict::Exhausted,
        blown_end(false) == ProcessVerdict::DbError,
{
}

/// A pass takes on rows for three minutes, and none from then on.
pub proof fn law_pass_ends_in_time(a: u64, b: u64)
    requires
        a <= b,
    ensures
        has_time_left(b) ==> has_time_left(a),
        has_time_left(a) <==> a < 3 * 60,
{
}

/// A pass works exactly where it is switched on and has a model; otherwise it says
/// which of the two was missing, the switch first. Nothing is counted yet.
pub proof fn law_when_a_pass_works(enabled: bool, has_llm: bool)
    ensures
        ({
            let (report, works) = started_pass(enabled, has_llm);
            &&& works <==> enabled && has_llm
            &&& works <==> !report.skipped_disabled && !report.skipped_no_llm
            &&& report.skipped_disabled <==> !enabled
            &&& report.skipped_disabled ==> !report.skipped_no_llm
            &&& report.considered == 0 && report.generated == 0 && report.strikes == 0
                && report.errors == 0 && report.skipped_short == 0 && report.claim_lost == 0
                && report.exhausted == 0 && report.too_large == 0
        }),
{
}

/// The configuration decides everything but how often a summary may be refused, which
/// is three times; without one the feature is off.
pub proof fn law_settings(ars: ArsConfig)
    ensures
        settings_of(ars).enabled == ars.cold_archive_enabled,
        settings_of(ars).target_chars == ars.cold_archive_target_chars,
        settings_of(ars).batch_size == ars.cold_archive_batch_size,
        settings_of(ars).max_strikes == 3 && standard_settings().max_strikes == 3,
        !standard_settings().enabled && standard_settings().target_chars == 600
            && standard_settings().batch_size == 16,
{
}

} // verus!
