//! What calibration is for: which verdict pairs count and how long, when an alert is
//! raised, and how the nightly run judges a text once and accounts for it.

use crate::concept_summary::laws::{lemma_stands_in, stands_in};
use crate::hash::{big_endian, hex, hex_digit, sha256};
use crate::json::{FieldView, json_members, member};
use crate::judge_calibration::archive::{
    CronArchiveEntry, CronArchiveSurface, archive_day, archive_name, day_part, id_member,
    is_read_day, like_pattern, offline_event, path_join, queue_dir, recent_entries, runtime_event,
    sample_point,
};
use crate::judge_calibration::consumer::{
    AdaptiveState, CalibrationPass, CalibrationView, JudgeCalibrationState, JudgeSurface,
    KappaReadings, StoredEvent, VerdictPair, WindowView, alerts_overall, contribution, folded,
    fresh_state, highest_id, is_commit_of, is_consumed, is_recomputed, marked_read, recorded,
    settled_state, surface_of_event, touches,
};
use crate::judge_calibration::cron::{
    CronClaim, CronReport, EntryEvent, EntryPhase, EntryState, OfflineVerdict, OutcomeView,
    accounted, after_claim, after_release, claim_key, claim_on, claimable, claimed_once, counted,
    entry_expects, entry_invariant, entry_step, first_verdict, fresh_entry, is_claim_on,
    is_nightly_start, is_offline_verdict, judged_chars, total_chars,
};
use crate::judge_calibration::priors::{
    HintCounts, is_greatest, labelled_surface, priors_step, replayed_from, replayed_rows,
};
use crate::laws::law_decimal;
use crate::text::{decimal, join, texts};
use crate::time::{date_midnight, rfc3339_instant};
use vstd::prelude::*;
use vstd::string::*;

verus! {

/// A new pair stands at the end of its window. A full window gives up its oldest
/// pair and no other.
pub proof fn law_window_keeps_the_newest(w: WindowView, pair: VerdictPair, cap: int)
    requires
        1 <= cap,
        w.pairs.len() <= cap,
    ensures
        ({
            let v = recorded(w, pair, cap);
            &&& v.pairs.last() == pair
            &&& v.pairs.len() == (if w.pairs.len() < cap {
                w.pairs.len() + 1int
            } else {
                cap
            })
            &&& w.pairs.len() < cap ==> v.pairs.drop_last() == w.pairs
            &&& w.pairs.len() == cap ==> v.pairs.drop_last() == w.pairs.skip(1)
            &&& v.below == w.below && v.alerts == w.alerts
        }),
{
    let v = recorded(w, pair, cap);
    if w.pairs.len() < cap {
        assert(v.pairs.drop_last() =~= w.pairs);
    } else {
        assert(v.pairs.drop_last() =~= w.pairs.skip(1));
    }
}

/// An event counts exactly where it was not applied before, is a verdict of the
/// nightly judge on one of the two surfaces, and carries both verdicts; the pair is
/// the runtime judge's and the nightly judge's, at the time of the event.
pub proof fn law_which_events_count(e: StoredEvent, applied: i64, now: i64)
    ensures
        ({
            let synthesis = e.event_type@ == "synthesis_llm_judge_offline_cron"@;
            let concept = e.event_type@ == "concept_summary_llm_judge_offline_cron"@;
            match contribution(e, applied, now) {
                Some((surface, pair)) => {
                    &&& e.id > applied && e.hits is Some
                    &&& surface == JudgeSurface::Synthesis ==> synthesis
                    &&& surface == JudgeSurface::ConceptSummary ==> concept
                    &&& pair.0 == (e.hits->0).0 && pair.1 == (e.hits->0).1
                    &&& rfc3339_instant(e.ts@) matches Some(t) ==> pair.2 == t.0 as i64
                    &&& rfc3339_instant(e.ts@) is None ==> pair.2 == now
                },
                None => e.id <= applied || e.hits is None || (!synthesis && !concept),
            }
        }),
{
}

/// Each event that counts adds its pair to the overall window and to that of its
/// surface, and to no other, and is counted; any other event changes nothing.
pub proof fn law_each_event_adds_its_pair(
    s: CalibrationView,
    events: Seq<StoredEvent>,
    e: StoredEvent,
    applied: i64,
    now: i64,
    cap: int,
)
    ensures
        ({
            let before = folded(s, events, applied, now, cap);
            let after = folded(s, events.push(e), applied, now, cap);
            match contribution(e, applied, now) {
                None => after == before,
                Some((surface, pair)) => {
                    &&& after.overall == recorded(before.overall, pair, cap)
                    &&& surface == JudgeSurface::Synthesis ==> after.synthesis == recorded(
                        before.synthesis,
                        pair,
                        cap,
                    ) && after.concept == before.concept
                    &&& surface == JudgeSurface::ConceptSummary ==> after.concept == recorded(
                        before.concept,
                        pair,
                        cap,
                    ) && after.synthesis == before.synthesis
                    &&& before.total < u64::MAX ==> after.total == before.total + 1
                    &&& before.total == u64::MAX ==> after.total == u64::MAX
                    &&& after.watermark == before.watermark
                    &&& after.last_computed_at == before.last_computed_at
                },
            }
        }),
        folded(s, Seq::empty(), applied, now, cap) == s,
{
    assert(events.push(e).drop_last() =~= events);
}

/// A pass is marked as having read up to the highest id among its events, and the
/// mark never goes back.
pub proof fn law_mark_is_the_highest_id(s: CalibrationView, events: Seq<StoredEvent>, i: int)
    ensures
        events.len() == 0 ==> highest_id(events) is None && marked_read(s, events) == s,
        0 <= i < events.len() ==> highest_id(events) is Some && events[i].id
            <= highest_id(events)->0,
        highest_id(events) matches Some(id) ==> exists|k: int|
            0 <= k < events.len() && (#[trigger] events[k]).id == id,
        0 <= i < events.len() ==> events[i].id <= marked_read(s, events).watermark,
        s.watermark <= marked_read(s, events).watermark,
        marked_read(s, events).watermark > s.watermark ==> exists|k: int|
            0 <= k < events.len() && (#[trigger] events[k]).id == marked_read(
                s,
                events,
            ).watermark,
        marked_read(s, events).overall == s.overall && marked_read(s, events).synthesis
            == s.synthesis && marked_read(s, events).concept == s.concept && marked_read(
            s,
            events,
        ).total == s.total,
    decreases events.len(),
{
    if events.len() > 0 {
        let front = events.drop_last();
        law_mark_is_the_highest_id(s, front, i);
        if 0 <= i < front.len() {
            assert(front[i] == events[i]);
        }
        match highest_id(front) {
            Some(id) if id >= events.last().id => {
                let k = choose|k: int| 0 <= k < front.len() && (#[trigger] front[k]).id == id;
                assert(events[k].id == id);
            },
            _ => {
                assert(events[events.len() - 1].id == events.last().id);
            },
        }
    }
}

/// Whether a window raises an alert: it holds enough pairs, kappa is below the
/// threshold, and it was not below before or never raised one.
pub open spec fn raises_alert(w: WindowView, below: bool, min_pairs: int) -> bool {
    w.pairs.len() >= min_pairs && below && (!w.below || w.alerts == 0)
}

/// Every window that a pass touched takes in its own reading, and raises its count
/// of alerts by one where that calls for one; a window that was not touched stays as
/// it is. The overall window is touched by either surface.
pub proof fn law_when_an_alert_is_raised(
    s: CalibrationView,
    pass: CalibrationPass,
    readings: KappaReadings,
    now: i64,
    min_pairs: int,
)
    ensures
        ({
            let t = settled_state(s, pass, readings, now, min_pairs);
            let touched = pass.synthesis_touched || pass.concept_touched;
            &&& t.overall.pairs == s.overall.pairs && t.synthesis.pairs == s.synthesis.pairs
                && t.concept.pairs == s.concept.pairs
            &&& t.overall.below == (if touched { readings.overall_below } else { s.overall.below })
            &&& t.synthesis.below == (if pass.synthesis_touched {
                readings.synthesis_below
            } else {
                s.synthesis.below
            })
            &&& t.concept.below == (if pass.concept_touched {
                readings.concept_below
            } else {
                s.concept.below
            })
            &&& s.overall.alerts < u64::MAX ==> t.overall.alerts == s.overall.alerts + (if touched
                && raises_alert(s.overall, readings.overall_below, min_pairs) {
                1int
            } else {
                0int
            })
            &&& s.synthesis.alerts < u64::MAX ==> t.synthesis.alerts == s.synthesis.alerts + (
            if pass.synthesis_touched && raises_alert(
                s.synthesis,
                readings.synthesis_below,
                min_pairs,
            ) {
                1int
            } else {
                0int
            })
            &&& s.concept.alerts < u64::MAX ==> t.concept.alerts == s.concept.alerts + (
            if pass.concept_touched && raises_alert(s.concept, readings.concept_below, min_pairs) {
                1int
            } else {
                0int
            })
            &&& t.last_computed_at == (if touched { now } else { s.last_computed_at })
            &&& t.watermark == s.watermark && t.total == s.total
        }),
{
}

/// A fresh install has seen nothing, and its kappa counts as below.
pub proof fn law_fresh_state()
    ensures
        fresh_state().watermark == 0 && fresh_state().total == 0 && fresh_state().last_computed_at
            == 0,
        fresh_state().overall.pairs.len() == 0 && fresh_state().synthesis.pairs.len() == 0
            && fresh_state().concept.pairs.len() == 0,
        fresh_state().overall.below && fresh_state().synthesis.below && fresh_state().concept.below,
        fresh_state().overall.alerts == 0 && fresh_state().synthesis.alerts == 0
            && fresh_state().concept.alerts == 0,
{
}

/// The claim on a text is the row of the table with the same surface, id and stamp.
pub proof fn law_claim_is_read_by_its_key(
    claims: Seq<CronClaim>,
    surface: CronArchiveSurface,
    id: Seq<char>,
    stamp: Seq<char>,
    i: int,
)
    requires
        claimed_once(claims),
    ensures
        0 <= i < claims.len() && claims[i].surface == surface && claims[i].surface_id@ == id
            && claims[i].stamp_hash@ == stamp ==> claim_on(claims, (surface, id, stamp)) == Some(
            (claims[i].claim_token@, claims[i].claimed_at as int),
        ),
        claim_on(claims, (surface, id, stamp)) is Some ==> exists|k: int|
            0 <= k < claims.len() && (#[trigger] claims[k]).surface == surface
                && claims[k].surface_id@ == id && claims[k].stamp_hash@ == stamp,
{
    let key = (surface, id, stamp);
    if claim_on(claims, key) is Some {
        let k = choose|k: int| is_claim_on(claims, k, key);
        assert(claims[k].surface == surface);
    }
    if 0 <= i < claims.len() && claims[i].surface == surface && claims[i].surface_id@ == id
        && claims[i].stamp_hash@ == stamp {
        assert(is_claim_on(claims, i, key));
        let k = choose|k: int| is_claim_on(claims, k, key);
        if i < k {
            assert(claim_key(claims[i]) != claim_key(claims[k]));
        } else if k < i {
            assert(claim_key(claims[k]) != claim_key(claims[i]));
        }
    }
}

/// A claim can be taken where there is none, or it is more than five minutes old.
/// Then it is held under the new token from now on; else nothing changes. Only the
/// token it is held under gives it up.
pub proof fn law_claims(
    slot: Option<(Seq<char>, int)>,
    token: Seq<char>,
    now: int,
)
    ensures
        claimable(slot, now) <==> (slot matches Some(c) ==> now - c.1 > 300),
        claimable(slot, now) ==> after_claim(slot, token, now) == Some((token, now)),
        !claimable(slot, now) ==> after_claim(slot, token, now) == slot,
        slot is Some && (slot->0).0 == token ==> after_release(slot, token) is None,
        slot is Some && (slot->0).0 != token ==> after_release(slot, token) == slot,
        slot is None ==> after_release(slot, token) is None,
{
}

/// Whether a payload is about the text with this id.
pub open spec fn is_about(payload: Seq<char>, field: Seq<char>, id: Seq<char>) -> bool {
    json_members(payload) is Some && member(json_members(payload)->0, field) == Some(
        FieldView::Text(id),
    )
}

/// The runtime verdict on a text is that of the first payload about it: a hit only
/// where it says so, by the model that it names. Without such a payload there is no
/// verdict, and payloads about other texts do not matter.
pub proof fn law_runtime_verdict(payloads: Seq<Seq<char>>, field: Seq<char>, id: Seq<char>)
    ensures
        match first_verdict(payloads, field, id) {
            Some(v) => exists|k: int|
                0 <= k < payloads.len() && #[trigger] is_about(payloads[k], field, id) && (forall|
                    q: int,
                |
                    0 <= q < k ==> !#[trigger] is_about(payloads[q], field, id)) && v.0 == (member(
                    json_members(payloads[k])->0,
                    "hit"@,
                ) == Some(FieldView::Bool(true))) && (member(
                    json_members(payloads[k])->0,
                    "judge_model"@,
                ) matches Some(FieldView::Text(m)) ==> v.1 == m) && (member(
                    json_members(payloads[k])->0,
                    "judge_model"@,
                ) is None ==> v.1 == "unknown"@),
            None => forall|k: int|
                0 <= k < payloads.len() ==> !#[trigger] is_about(payloads[k], field, id),
        },
    decreases payloads.len(),
{
    if payloads.len() > 0 {
        let rest = payloads.skip(1);
        if is_about(payloads[0], field, id) {
            assert(first_verdict(payloads, field, id) is Some);
        } else {
            law_runtime_verdict(rest, field, id);
            match first_verdict(payloads, field, id) {
                Some(v) => {
                    let k = choose|k: int|
                        0 <= k < rest.len() && #[trigger] is_about(rest[k], field, id) && (forall|
                            q: int,
                        |
                            0 <= q < k ==> !#[trigger] is_about(rest[q], field, id)) && v.0 == (
                        member(json_members(rest[k])->0, "hit"@) == Some(FieldView::Bool(true)))
                            && (member(json_members(rest[k])->0, "judge_model"@) matches Some(
                            FieldView::Text(m),
                        ) ==> v.1 == m) && (member(json_members(rest[k])->0, "judge_model"@) is None
                            ==> v.1 == "unknown"@);
                    assert(payloads[k + 1] == rest[k]);
                    assert(is_about(payloads[k + 1], field, id));
                    assert forall|q: int| 0 <= q < k + 1 implies !#[trigger] is_about(
                        payloads[q],
                        field,
                        id,
                    ) by {
                        if q > 0 {
                            assert(payloads[q] == rest[q - 1]);
                            assert(!is_about(rest[q - 1], field, id));
                        }
                    }
                },
                None => {
                    assert forall|q: int| 0 <= q < payloads.len() implies !#[trigger] is_about(
                        payloads[q],
                        field,
                        id,
                    ) by {
                        if q > 0 {
                            assert(payloads[q] == rest[q - 1]);
                            assert(!is_about(rest[q - 1], field, id));
                        }
                    }
                },
            }
        }
    }
}

/// What the judge is sent has the characters of all sources and of the candidate.
pub proof fn law_judged_chars(sources: Seq<Seq<char>>, candidate: Seq<char>)
    ensures
        total_chars(sources) == join(sources, Seq::empty()).len(),
        judged_chars(sources, candidate) < usize::MAX ==> judged_chars(sources, candidate) == join(
            sources,
            Seq::empty(),
        ).len() + candidate.len(),
        judged_chars(sources, candidate) <= usize::MAX,
        judged_chars(sources, candidate) == usize::MAX ==> join(sources, Seq::empty()).len()
            + candidate.len() >= usize::MAX,
    decreases sources.len(),
{
    if sources.len() > 0 {
        law_judged_chars(sources.drop_last(), candidate);
        if sources.len() == 1 {
            assert(sources.drop_last() =~= Seq::empty());
            assert(sources.last() == sources[0]);
        }
    }
}

/// How an entry ends: it is emitted exactly where its verdict was written; it is a
/// duplicate where one was found written, or somebody else holds its claim or wrote
/// first; it is skipped without a runtime verdict; it falls to the budget where that
/// is spent; and it is dropped where a step fails, or it is too long to be judged.
pub proof fn law_how_an_entry_ends(s: EntryState, event: EntryEvent)
    requires
        entry_invariant(s),
        entry_expects(s.phase, event),
        s.outcome is None,
    ensures
        ({
            let o = entry_step(s, event).outcome;
            let too_long = event matches EntryEvent::Runtime(Some(_)) && s.chars > s.ceiling;
            &&& o == Some(OutcomeView::Emitted) <==> event is Written
            &&& o == Some(OutcomeView::SkippedDuplicate) <==> event == EntryEvent::AlreadyWritten(
                Some(true),
            ) || event is ClaimHeld || event is WrittenByPeer
            &&& o == Some(OutcomeView::SkippedNoRuntimeVerdict) <==> event
                == EntryEvent::Runtime(None)
            &&& o == Some(OutcomeView::DroppedCap) <==> event is BudgetSpent
            &&& (o matches Some(OutcomeView::Dropped(_))) <==> too_long || event is RuntimeFailed
                || event is ClaimFailed || event is ReserveFailed || event is JudgeFailed
                || event is SerializeFailed || event is WriteFailed
        }),
{
}

/// The steps of an entry that goes well, in order: it is looked up whether it was
/// judged, what the runtime judge said, then it is claimed, looked up once more, a
/// call is reserved, the judge is asked, the verdict is written, the claim released.
/// A look-up that failed is no reason to stop.
pub proof fn law_steps_of_an_entry(s: EntryState, event: EntryEvent)
    requires
        entry_invariant(s),
        entry_expects(s.phase, event),
        s.chars <= s.ceiling,
    ensures
        ({
            let t = entry_step(s, event);
            &&& event matches EntryEvent::AlreadyWritten(known) ==> (known != Some(true) ==> t.phase
                == (if s.phase == EntryPhase::Checking {
                EntryPhase::LookingUp
            } else {
                EntryPhase::Reserving
            }))
            &&& event == EntryEvent::AlreadyWritten(Some(true)) ==> t.phase == (if s.phase
                == EntryPhase::Checking {
                EntryPhase::Reaping
            } else {
                EntryPhase::Releasing
            })
            &&& event matches EntryEvent::Runtime(Some(v)) ==> t.phase == EntryPhase::Claiming
                && t.runtime == Some((v.0, v.1@))
            &&& event matches EntryEvent::Claimed(token) ==> t.phase == EntryPhase::Rechecking
                && t.claim == Some(token@)
            &&& event is Reserved ==> t.phase == EntryPhase::Judging
            &&& event matches EntryEvent::Judged { hit, reason, model } ==> t.phase
                == EntryPhase::Writing && t.nightly == Some((hit, reason@, model@))
            &&& event is Released || event is Reaped ==> t.phase == EntryPhase::Done && t.outcome
                == s.outcome
            &&& s.outcome is None && t.outcome is Some && !(event is AlreadyWritten) ==> t.phase
                == (if s.claim is Some { EntryPhase::Releasing } else { EntryPhase::Done })
            &&& !(event is Runtime) ==> t.runtime == s.runtime
            &&& !(event is Judged) ==> t.nightly == s.nightly
            &&& !(event is Claimed) && !(event is Released) ==> t.claim == s.claim
            &&& t.chars == s.chars && t.ceiling == s.ceiling
        }),
{
}

/// A text that is too long to be judged is dropped before it is claimed.
pub proof fn law_too_long_text_is_never_judged(s: EntryState, event: EntryEvent)
    requires
        entry_invariant(s),
        entry_expects(s.phase, event),
        s.chars > s.ceiling,
    ensures
        !(entry_step(s, event).phase is Claiming),
        !(entry_step(s, event).phase is Judging),
        entry_step(s, event).claim is None,
{
}

/// Each entry is counted once, under the heading of its outcome.
pub proof fn law_each_entry_counts_once(r: CronReport, o: OutcomeView)
    requires
        accounted(r) < usize::MAX,
    ensures
        ({
            let n = counted(r, o);
            &&& n.considered == r.considered
            &&& n.emitted == r.emitted + (if o is Emitted { 1int } else { 0int })
            &&& n.skipped_no_runtime_verdict == r.skipped_no_runtime_verdict + (
            if o is SkippedNoRuntimeVerdict {
                1int
            } else {
                0int
            })
            &&& n.skipped_duplicate == r.skipped_duplicate + (if o is SkippedDuplicate {
                1int
            } else {
                0int
            })
            &&& n.dropped == r.dropped + (if o is Dropped { 1int } else { 0int })
            &&& n.dropped_cap == r.dropped_cap + (if o is DroppedCap { 1int } else { 0int })
        }),
{
}

/// A run takes the entries of the last 24 hours, all of them and in order.
pub proof fn law_recent_entries(entries: Seq<CronArchiveEntry>, now: i64)
    ensures
        recent_entries(entries, now) == entries.filter(
            |e: CronArchiveEntry| now - e.minted_at <= 24 * 60 * 60,
        ),
    decreases entries.len(),
{
    reveal(Seq::filter);
    if entries.len() > 0 {
        law_recent_entries(entries.drop_last(), now);
    } else {
        assert(recent_entries(entries, now) =~= entries.filter(
            |e: CronArchiveEntry| now - e.minted_at <= 24 * 60 * 60,
        ));
    }
}

/// The day that an archive file's name was made with is read back from it.
pub proof fn law_archive_name_tells_its_day(date: Seq<char>, shard: u32)
    requires
        date.len() == 8,
    ensures
        day_part(archive_name(date, shard)) == Some(date),
        archive_day(archive_name(date, shard)) == date_midnight(date, "%Y%m%d"@),
{
    reveal_strlit("_");
    let before = "synthesis_cron_archive_"@;
    let after = ".jsonl"@;
    let name = archive_name(date, shard);
    let middle = date + "_"@ + decimal(shard as nat);
    law_decimal(shard as nat);
    assert(name =~= before + (middle + after));
    assert(before =~= name.subrange(0, before.len() as int));
    assert(before.is_prefix_of(name));
    let rest = name.skip(before.len() as int);
    assert(rest =~= middle + after);
    assert(after =~= rest.subrange(rest.len() - after.len(), rest.len() as int));
    assert(after.is_suffix_of(rest));
    let inner = rest.take(name.len() - before.len() - after.len());
    assert(inner =~= middle);
    assert(inner[8] == '_');
    assert(inner.take(8) =~= date);
}

/// A name is that of an archive file only where it has the prefix and the suffix,
/// and an underscore behind the eight characters of its day.
pub proof fn law_other_names_have_no_day(name: Seq<char>)
    ensures
        day_part(name) matches Some(date) ==> {
            &&& date.len() == 8
            &&& "synthesis_cron_archive_"@.is_prefix_of(name)
            &&& ".jsonl"@.is_suffix_of(name.skip("synthesis_cron_archive_"@.len() as int))
            &&& name.skip("synthesis_cron_archive_"@.len() as int).take(8) == date
            &&& name["synthesis_cron_archive_"@.len() + 8int] == '_'
        },
{
    if day_part(name) is Some {
        let rest = name.skip("synthesis_cron_archive_"@.len() as int);
        let n = name.len() - "synthesis_cron_archive_"@.len() - ".jsonl"@.len();
        assert(rest.take(n).take(8) =~= rest.take(8));
        assert(rest.take(n)[8] == name["synthesis_cron_archive_"@.len() + 8int]);
    }
}

/// A path is the directory, one slash and the entry, whether or not the directory
/// is written with a slash at its end.
pub proof fn law_path_join(base: Seq<char>, leaf: Seq<char>)
    ensures
        base.len() > 0 && base.last() != '/' ==> path_join(base, leaf) == base + "/"@ + leaf
            && path_join(base + "/"@, leaf) == path_join(base, leaf),
        base.len() > 0 && base.last() == '/' ==> path_join(base, leaf) == base + leaf,
        base.len() == 0 ==> path_join(base, leaf) == leaf,
{
    reveal_strlit("/");
    assert((base + "/"@).last() == '/');
}

/// The number that hexadecimal digits stand for.
pub open spec fn hex_number(s: Seq<char>) -> int
    decreases s.len(),
{
    if s.len() == 0 {
        0
    } else {
        hex_number(s.drop_last()) * 16 + (if s.last() <= '9' {
            s.last() as u32 - '0' as u32
        } else {
            s.last() as u32 - 'a' as u32 + 10
        })
    }
}

/// Sixteen hexadecimal digits stand for the hash they were made of, so databases
/// with different hashes have different directories.
pub proof fn law_hex(n: int, width: int)
    requires
        0 <= n,
        0 <= width,
    ensures
        hex(n, width).len() == width,
        hex_number(hex(n, width)) == n % vstd::arithmetic::power::pow(16, width as nat),
    decreases width,
{
    reveal(vstd::arithmetic::power::pow);
    if width > 0 {
        law_hex(n / 16, width - 1);
        let p = vstd::arithmetic::power::pow(16, (width - 1) as nat);
        vstd::arithmetic::power::lemma_pow_positive(16, (width - 1) as nat);
        let h = hex(n, width);
        assert(h.drop_last() =~= hex(n / 16, width - 1));
        let d = n % 16;
        assert(h.last() == hex_digit(d));
        if d < 10 {
            assert((48 + d) as char as u32 == 48 + d);
        } else {
            assert((87 + d) as char as u32 == 87 + d);
        }
        vstd::arithmetic::div_mod::lemma_mod_breakdown(n, 16, p);
    }
}

/// A sampling point is the first eight bytes of the digest, most significant first.
pub proof fn law_sample_point(id: Seq<u8>)
    ensures
        ({
            let d = sha256(id);
            sample_point(id) == ((((((d[0] * 256 + d[1]) * 256 + d[2]) * 256 + d[3]) * 256 + d[4])
                * 256 + d[5]) * 256 + d[6]) * 256 + d[7]
        }),
{
    reveal_with_fuel(big_endian, 9);
}

/// The two surfaces keep their verdicts apart: each has its own events of the
/// runtime judge, of the nightly judge, and its own member for the id.
pub proof fn law_surfaces_are_kept_apart()
    ensures
        runtime_event(CronArchiveSurface::Synthesis) == "synthesis_llm_judge"@,
        runtime_event(CronArchiveSurface::ConceptSummary) == "concept_summary_llm_judge"@,
        forall|s: CronArchiveSurface| #[trigger] offline_event(s) == runtime_event(s)
            + "_offline_cron"@,
        id_member(CronArchiveSurface::Synthesis) == "synthesis_id"@,
        id_member(CronArchiveSurface::ConceptSummary) == "concept_summary_id"@,
        forall|s: CronArchiveSurface| labelled_surface(#[trigger] runtime_event(s)) == Some(s),
        surface_of_event(offline_event(CronArchiveSurface::Synthesis)) == Some(
            JudgeSurface::Synthesis,
        ),
        surface_of_event(offline_event(CronArchiveSurface::ConceptSummary)) == Some(
            JudgeSurface::ConceptSummary,
        ),
{
    reveal_strlit("synthesis_llm_judge");
    reveal_strlit("concept_summary_llm_judge");
    reveal_strlit("synthesis_llm_judge_offline_cron");
    reveal_strlit("concept_summary_llm_judge_offline_cron");
    reveal_strlit("_offline_cron");
    assert("synthesis_llm_judge_offline_cron"@ =~= "synthesis_llm_judge"@ + "_offline_cron"@);
    assert("concept_summary_llm_judge_offline_cron"@ =~= "concept_summary_llm_judge"@
        + "_offline_cron"@);
    assert("synthesis_llm_judge"@.len() != "concept_summary_llm_judge"@.len());
    assert("synthesis_llm_judge_offline_cron"@.len()
        != "concept_summary_llm_judge_offline_cron"@.len());
    assert forall|s: CronArchiveSurface| #[trigger] offline_event(s) == runtime_event(s)
        + "_offline_cron"@ by {
        match s {
            CronArchiveSurface::Synthesis => {},
            CronArchiveSurface::ConceptSummary => {},
        }
    }
    assert forall|s: CronArchiveSurface| labelled_surface(#[trigger] runtime_event(s)) == Some(
        s,
    ) by {
        match s {
            CronArchiveSurface::Synthesis => {},
            CronArchiveSurface::ConceptSummary => {},
        }
    }
}

/// A pass touches a surface exactly where one of its events counts for it.
pub proof fn law_what_a_pass_touches(events: Seq<StoredEvent>, applied: i64, now: i64)
    ensures
        touches(events, applied, now, JudgeSurface::Synthesis) <==> exists|i: int|
            0 <= i < events.len() && (#[trigger] events[i]).id > applied && events[i].hits is Some
                && events[i].event_type@ == "synthesis_llm_judge_offline_cron"@,
        touches(events, applied, now, JudgeSurface::ConceptSummary) <==> exists|i: int|
            0 <= i < events.len() && (#[trigger] events[i]).id > applied && events[i].hits is Some
                && events[i].event_type@ == "concept_summary_llm_judge_offline_cron"@,
{
    reveal_strlit("synthesis_llm_judge_offline_cron");
    reveal_strlit("concept_summary_llm_judge_offline_cron");
    assert("synthesis_llm_judge_offline_cron"@.len()
        != "concept_summary_llm_judge_offline_cron"@.len());
    if exists|i: int|
        0 <= i < events.len() && (#[trigger] events[i]).id > applied && events[i].hits is Some
            && events[i].event_type@ == "synthesis_llm_judge_offline_cron"@ {
        let i = choose|i: int|
            0 <= i < events.len() && (#[trigger] events[i]).id > applied && events[i].hits is Some
                && events[i].event_type@ == "synthesis_llm_judge_offline_cron"@;
        assert(contribution(events[i], applied, now) is Some);
    }
    if exists|i: int|
        0 <= i < events.len() && (#[trigger] events[i]).id > applied && events[i].hits is Some
            && events[i].event_type@ == "concept_summary_llm_judge_offline_cron"@ {
        let i = choose|i: int|
            0 <= i < events.len() && (#[trigger] events[i]).id > applied && events[i].hits is Some
                && events[i].event_type@ == "concept_summary_llm_judge_offline_cron"@;
        assert(contribution(events[i], applied, now) is Some);
    }
    if touches(events, applied, now, JudgeSurface::Synthesis) {
        let i = choose|i: int|
            0 <= i < events.len() && (#[trigger] contribution(events[i], applied, now) matches Some(
                c,
            ) && c.0 == JudgeSurface::Synthesis);
        assert(events[i].id > applied);
    }
    if touches(events, applied, now, JudgeSurface::ConceptSummary) {
        let i = choose|i: int|
            0 <= i < events.len() && (#[trigger] contribution(events[i], applied, now) matches Some(
                c,
            ) && c.0 == JudgeSurface::ConceptSummary);
        assert(events[i].id > applied);
    }
}

/// The directory of a database lies under `queue` in the base directory and bears
/// its hash in sixteen digits.
pub proof fn law_queue_dir(base: Seq<char>, db_hash: u64)
    requires
        base.len() > 0,
        base.last() != '/',
    ensures
        ({
            let dir = queue_dir(base, db_hash);
            let n = base.len() + "/queue/"@.len();
            &&& dir.len() == n + 16
            &&& dir.take(n as int) == base + "/queue/"@
            &&& hex_number(dir.skip(n as int)) == db_hash
        }),
{
    reveal_strlit("/");
    reveal_strlit("queue");
    reveal_strlit("/queue/");
    let inner = path_join(base, "queue"@);
    assert(inner.last() == 'e');
    law_hex(db_hash as int, 16);
    vstd::arithmetic::power2::lemma2_to64();
    assert(vstd::arithmetic::power::pow(16, 16) == 0x1_0000_0000_0000_0000) by {
        reveal_with_fuel(vstd::arithmetic::power::pow, 17);
    }
    let dir = queue_dir(base, db_hash);
    let n = base.len() + "/queue/"@.len();
    assert(dir.take(n as int) =~= base + "/queue/"@);
    assert(dir.skip(n as int) =~= hex(db_hash as int, 16));
}

/// A pattern finds a payload whose member has exactly this text.
pub proof fn law_like_pattern(name: Seq<char>, value: Seq<char>)
    ensures
        like_pattern(name, value) == "%\""@ + name + "\":\""@ + value + "\"%"@,
        name.len() + value.len() + 7 == like_pattern(name, value).len(),
{
    reveal_strlit("%\"");
    reveal_strlit("\":\"");
    reveal_strlit("\"%");
}

/// A pass that raises an alert on all pairs together counts it, and one that does
/// not leaves the count as it was.
pub proof fn law_alert_is_counted(
    s: CalibrationView,
    pass: CalibrationPass,
    readings: KappaReadings,
    now: i64,
    min_pairs: int,
)
    requires
        s.overall.alerts < u64::MAX,
    ensures
        alerts_overall(s, pass, readings, min_pairs) <==> settled_state(
            s,
            pass,
            readings,
            now,
            min_pairs,
        ).overall.alerts == s.overall.alerts + 1,
        !alerts_overall(s, pass, readings, min_pairs) <==> settled_state(
            s,
            pass,
            readings,
            now,
            min_pairs,
        ).overall.alerts == s.overall.alerts,
        alerts_overall(s, pass, readings, min_pairs) ==> readings.overall_below
            && s.overall.pairs.len() >= min_pairs,
{
}

/// Only a pass changes the calibration; the mark moves exactly to the highest event
/// that it read.
pub proof fn law_what_a_pass_writes(
    after: AdaptiveState,
    state: AdaptiveState,
    pass: Option<(JudgeCalibrationState, Option<i64>)>,
    marks: Option<Vec<(&'static str, i64)>>,
)
    requires
        is_consumed(after, state, pass, marks),
    ensures
        after.version == state.version,
        pass is None ==> after.judge_calibration_state == state.judge_calibration_state,
        pass matches Some(p) ==> after.judge_calibration_state == Some(p.0),
        marks is Some <==> pass is Some && (pass->0).1 is Some,
        marks matches Some(v) ==> v@.len() == 1 && Some(v@[0].1) == (pass->0).1 && v@[0].0@
            == "judge_calibration"@,
{
}

/// Nothing is committed where no event was read. Otherwise each commit has the next
/// version, the first one version 1, and a later one never a smaller one.
pub proof fn law_what_is_committed(
    r: Option<(AdaptiveState, i64)>,
    prior: Option<AdaptiveState>,
    new_state: JudgeCalibrationState,
    max_event_id: Option<i64>,
)
    requires
        is_commit_of(r, prior, new_state, max_event_id),
    ensures
        r is Some <==> max_event_id is Some,
        r matches Some(c) ==> Some(c.1) == max_event_id && c.0.judge_calibration_state == Some(
            new_state,
        ),
        r matches Some(c) ==> (prior is None ==> c.0.version == 1),
        r matches Some(c) ==> (prior matches Some(p) ==> c.0.version >= p.version && (c.0.version
            == p.version ==> p.version == u64::MAX) && c.0.version <= p.version + 1),
{
}

/// A night that is switched off takes nothing on. Otherwise it takes on each entry
/// of the last day, and has accounted for none of them yet.
pub proof fn law_what_a_night_takes_on(
    report: CronReport,
    taken: Seq<CronArchiveEntry>,
    enabled: bool,
    entries: Seq<CronArchiveEntry>,
    now: i64,
)
    requires
        is_nightly_start(report, taken, enabled, entries, now),
    ensures
        !enabled ==> taken.len() == 0,
        enabled ==> taken == entries.filter(
            |e: CronArchiveEntry| now - e.minted_at <= 24 * 60 * 60,
        ),
        report.considered == taken.len(),
        report.emitted == 0 && report.skipped_no_runtime_verdict == 0 && report.skipped_duplicate
            == 0 && report.dropped == 0 && report.dropped_cap == 0,
{
    law_recent_entries(entries, now);
}

/// An offline event puts the two verdicts side by side without mixing them up, under
/// the id and stamp of the entry; only a concept summary names a concept.
pub proof fn law_offline_verdict(
    r: OfflineVerdict,
    entry: CronArchiveEntry,
    runtime: (bool, Seq<char>),
    nightly: (bool, Seq<char>, Seq<char>),
)
    requires
        is_offline_verdict(r, entry, runtime, nightly),
    ensures
        r.id@ == entry.id@ && r.stamp_hash@ == entry.stamp_hash@,
        r.runtime_hit == runtime.0 && r.runtime_judge_model@ == runtime.1,
        r.cron_hit == nightly.0 && r.cron_reason@ == nightly.1 && r.cron_judge_model@ == nightly.2,
        entry.surface is Synthesis ==> r.concept_id is None,
        entry.surface is ConceptSummary ==> (r.concept_id matches Some(c) && c@
            == entry.concept_id@),
        entry.surface is Synthesis <==> r.event_type@ == offline_event(
            CronArchiveSurface::Synthesis,
        ),
        r.metadata == entry.metadata,
        entry.metadata is None ==> r.query_type is None,
        entry.metadata matches Some(m) ==> r.query_type == m.query_type,
{
    reveal_strlit("synthesis_llm_judge_offline_cron");
    reveal_strlit("concept_summary_llm_judge_offline_cron");
    let (a, b) = (
        offline_event(CronArchiveSurface::Synthesis),
        offline_event(CronArchiveSurface::ConceptSummary),
    );
    assert(a.len() != b.len());
}

/// An archive is read on its own day and on the next, and on no other.
pub proof fn law_which_days_are_read(day: int, today: int)
    ensures
        is_read_day(day, today) <==> (today - day == 0 || today - day == 24 * 3600),
        is_read_day(today, today),
        !is_read_day(today + 24 * 3600, today),
{
}

/// Priors are learnt only where that is switched on; the snapshot is read first, and
/// the hints stand in only for one that could not be read.
pub proof fn law_where_priors_come_from(acceleration_enabled: bool, snapshot: Option<bool>)
    ensures
        priors_step(acceleration_enabled, snapshot) is UseDefaults <==> !acceleration_enabled,
        priors_step(acceleration_enabled, snapshot) is ReadSnapshot <==> acceleration_enabled
            && snapshot is None,
        priors_step(acceleration_enabled, snapshot) is UseSnapshot <==> acceleration_enabled
            && snapshot == Some(true),
        priors_step(acceleration_enabled, snapshot) is DeriveFromHints <==> acceleration_enabled
            && snapshot == Some(false),
{
}

/// What is replayed is bounded both ways: by number, and to the last thirty days.
pub proof fn law_what_is_replayed(limit: usize, now: int)
    ensures
        replayed_rows(limit) <= limit && replayed_rows(limit) <= 50_000,
        replayed_rows(limit) == limit || replayed_rows(limit) == 50_000,
        now - replayed_from(now) == 30 * 24 * 3600,
{
}

/// The confidence in the hints is that of the kind there are most of: no count is
/// greater, and a greater count of any kind cannot make it smaller.
pub proof fn law_confidence(n: u64, c: HintCounts, m: u64, d: HintCounts)
    requires
        is_greatest(n, c),
        is_greatest(m, d),
        c.view <= d.view && c.click <= d.click && c.thumb <= d.thumb && c.request <= d.request
            && c.width <= d.width,
    ensures
        n <= m,
        c == d ==> n == m,
        n == 0 <==> c.view == 0 && c.click == 0 && c.thumb == 0 && c.request == 0 && c.width == 0,
{
}

/// An entry waits at each step for the answer to what it asked, and once it is done
/// for nothing.
pub proof fn law_what_an_entry_waits_for(phase: EntryPhase, event: EntryEvent)
    ensures
        phase is Checking || phase is Rechecking ==> (entry_expects(phase, event) <==> event
            is AlreadyWritten),
        phase is Reaping ==> (entry_expects(phase, event) <==> event is Reaped),
        phase is LookingUp ==> (entry_expects(phase, event) <==> event is Runtime || event
            is RuntimeFailed),
        phase is Claiming ==> (entry_expects(phase, event) <==> event is Claimed || event
            is ClaimHeld || event is ClaimFailed),
        phase is Reserving ==> (entry_expects(phase, event) <==> event is Reserved || event
            is BudgetSpent || event is ReserveFailed),
        phase is Judging ==> (entry_expects(phase, event) <==> event is Judged || event
            is JudgeFailed),
        phase is Writing ==> (entry_expects(phase, event) <==> event is Written || event
            is WrittenByPeer || event is SerializeFailed || event is WriteFailed),
        phase is Releasing ==> (entry_expects(phase, event) <==> event is Released),
        phase is Done ==> !entry_expects(phase, event),
{
}

/// Whether a text ends in another.
pub open spec fn ends_in(text: Seq<char>, end: Seq<char>) -> bool {
    end.len() <= text.len() && text.skip(text.len() - end.len()) == end
}

proof fn lemma_ends_in(a: Seq<char>, b: Seq<char>)
    ensures
        ends_in(a + b, b),
{
    assert((a + b).skip(a.len() as int) =~= b);
}

/// An entry that is dropped for a fault says what the fault was, and one whose text
/// is too long says how long it is and how long it may be.
pub proof fn law_dropped_entry_says_why(s: EntryState, event: EntryEvent)
    ensures
        ({
            let o = entry_step(s, event).outcome;
            &&& (event matches EntryEvent::RuntimeFailed(e) ==> (
            o matches Some(OutcomeView::Dropped(m)) && ends_in(m, e@)))
            &&& (event matches EntryEvent::ClaimFailed(e) ==> (
            o matches Some(OutcomeView::Dropped(m)) && ends_in(m, e@)))
            &&& (event matches EntryEvent::ReserveFailed(e) ==> (
            o matches Some(OutcomeView::Dropped(m)) && ends_in(m, e@)))
            &&& (event matches EntryEvent::JudgeFailed(e) ==> (
            o matches Some(OutcomeView::Dropped(m)) && ends_in(m, e@)))
            &&& (event matches EntryEvent::SerializeFailed(e) ==> (
            o matches Some(OutcomeView::Dropped(m)) && ends_in(m, e@)))
            &&& (event matches EntryEvent::WriteFailed(e) ==> (
            o matches Some(OutcomeView::Dropped(m)) && ends_in(m, e@)))
            &&& (event matches EntryEvent::Runtime(Some(v)) ==> (s.chars > s.ceiling ==> (
            o matches Some(OutcomeView::Dropped(m)) && stands_in(m, decimal(s.chars as nat))
                && stands_in(m, decimal(s.ceiling as nat)))))
        }),
{
    match event {
        EntryEvent::RuntimeFailed(e) => lemma_ends_in("verdict lookup failed: "@, e@),
        EntryEvent::ClaimFailed(e) => lemma_ends_in("cron claim insert failed: "@, e@),
        EntryEvent::ReserveFailed(e) => lemma_ends_in("reserve_call: "@, e@),
        EntryEvent::JudgeFailed(e) => lemma_ends_in("cron LLM call failed: "@, e@),
        EntryEvent::SerializeFailed(e) => lemma_ends_in("payload serialize: "@, e@),
        EntryEvent::WriteFailed(e) => lemma_ends_in("emit_event failed: "@, e@),
        EntryEvent::Runtime(v) => {
            let (a, b, c) = ("cron archive payload too large ("@, " chars > ceiling "@, ")"@);
            let (m, n) = (decimal(s.chars as nat), decimal(s.ceiling as nat));
            assert(a + m + b + n + c =~= (a + m) + (b + n + c));
            lemma_stands_in(a, m, b + n + c);
            lemma_stands_in(a + m + b, n, c);
        },
        _ => {},
    }
}

/// An entry starts with a check whether its verdict is already written; nothing else
/// is known of it but how long its text is and may be.
pub proof fn law_fresh_entry(entry: CronArchiveEntry, ceiling: int)
    ensures
        ({
            let s = fresh_entry(entry, ceiling);
            &&& s.phase is Checking
            &&& s.claim is None && s.runtime is None && s.nightly is None && s.outcome is None
            &&& s.ceiling == ceiling
            &&& s.chars < usize::MAX ==> s.chars == join(texts(entry.sources@), Seq::empty()).len()
                + entry.candidate@.len()
            &&& entry_invariant(s)
        }),
{
    law_judged_chars(texts(entry.sources@), entry.candidate@);
}

/// A pass reads on from the mark: it moves the mark to the highest event and never
/// back, and a surface that it does not touch keeps its window.
pub proof fn law_pass_reads_on(
    after: CalibrationView,
    pass: CalibrationPass,
    start: CalibrationView,
    events: Seq<StoredEvent>,
    now: i64,
    cap: int,
)
    requires
        is_recomputed(after, pass, start, events, now, cap),
    ensures
        after.watermark >= start.watermark,
        pass.max_event_id matches Some(id) ==> after.watermark >= id && (after.watermark == id
            || after.watermark == start.watermark),
        pass.max_event_id is None <==> events.len() == 0,
        events.len() == 0 ==> after == start,
        !pass.synthesis_touched ==> after.synthesis == start.synthesis,
        !pass.concept_touched ==> after.concept == start.concept,
        !pass.synthesis_touched && !pass.concept_touched ==> after.overall == start.overall
            && after.total == start.total,
{
    lemma_untouched(marked_read(start, events), events, start.watermark, now, cap);
}

proof fn lemma_untouched(
    s: CalibrationView,
    events: Seq<StoredEvent>,
    applied: i64,
    now: i64,
    cap: int,
)
    ensures
        ({
            let t = folded(s, events, applied, now, cap);
            &&& t.watermark == s.watermark
            &&& !touches(events, applied, now, JudgeSurface::Synthesis) ==> t.synthesis
                == s.synthesis
            &&& !touches(events, applied, now, JudgeSurface::ConceptSummary) ==> t.concept
                == s.concept
            &&& !touches(events, applied, now, JudgeSurface::Synthesis) && !touches(
                events,
                applied,
                now,
                JudgeSurface::ConceptSummary,
            ) ==> t.overall == s.overall && t.total == s.total
        }),
    decreases events.len(),
{
    if events.len() > 0 {
        let front = events.drop_last();
        lemma_untouched(s, front, applied, now, cap);
        assert(front.push(events.last()) =~= events);
        law_each_event_adds_its_pair(s, front, events.last(), applied, now, cap);
        let last = events.len() - 1;
        assert(contribution(events[last], applied, now) == contribution(
            events.last(),
            applied,
            now,
        ));
        assert forall|surface: JudgeSurface| touches(front, applied, now, surface) implies touches(
            events,
            applied,
            now,
            surface,
        ) by {
            let i = choose|i: int|
                0 <= i < front.len() && (#[trigger] contribution(
                    front[i],
                    applied,
                    now,
                ) matches Some(c) && c.0 == surface);
            assert(contribution(events[i], applied, now) == contribution(front[i], applied, now));
        }
    } else {
        law_each_event_adds_its_pair(s, Seq::empty(), arbitrary(), applied, now, cap);
        assert(events =~= Seq::<StoredEvent>::empty());
    }
}

/// A name between the two ends of an archive's name tells a day exactly where an
/// underscore follows on eight characters; whatever comes behind it does not matter.
pub proof fn law_which_names_tell_a_day(middle: Seq<char>)
    ensures
        ({
            let name = "synthesis_cron_archive_"@ + middle + ".jsonl"@;
            &&& middle.len() >= 9 && middle[8] == '_' ==> day_part(name) == Some(middle.take(8))
            &&& middle.len() < 9 || middle[8] != '_' ==> day_part(name) is None
        }),
{
    let before = "synthesis_cron_archive_"@;
    let after = ".jsonl"@;
    let name = before + middle + after;
    assert(name =~= before + (middle + after));
    assert(before =~= name.subrange(0, before.len() as int));
    assert(before.is_prefix_of(name));
    let rest = name.skip(before.len() as int);
    assert(rest =~= middle + after);
    assert(after =~= rest.subrange(rest.len() - after.len(), rest.len() as int));
    assert(after.is_suffix_of(rest));
    assert(rest.take(name.len() - before.len() - after.len()) =~= middle);
}

} // verus!
