//! The nightly run: each archived text is judged again, once, by whoever holds
//! the claim on it.

use crate::json::{
    FieldView, JsonMembers, bool_member, bool_of, json_members, members_view, parse_members,
    text_member, text_of,
};
use crate::judge_calibration::archive::{
    CronArchiveEntry, CronArchiveSurface, JudgeMetadata, id_member, offline_event, recent_entries,
    retain_recent,
};
use crate::text::{decimal, join, join_strings, prefix, push_decimal, str_eq, texts};
use crate::types::{clone_opt, opt_text};
use vstd::prelude::*;
use vstd::string::*;

verus! {

/// Age in seconds beyond which a claim counts as left behind by a crash.
pub const CRON_CLAIM_STALE_SECS: i64 = 300;

/// A claim on one archived text: a row of the table `cron_claims`.
///
/// The table lives in a database, where the statements that insert, take over
/// and delete rows are run. [`try_claim_cron`], [`release_cron_claim`] and
/// [`reap_emitted_cron_claim`] say on the rows what those statements do, so that
/// what holds of claims can be stated and proved.
#[derive(Clone, Debug)]
pub struct CronClaim {
    pub surface: CronArchiveSurface,
    pub surface_id: String,
    pub stamp_hash: String,
    /// Proof of ownership, known to the owner alone.
    pub claim_token: String,
    /// When it was taken, in seconds since the epoch.
    pub claimed_at: i64,
}

/// What a claim is on: a surface, an id there, and the stamp of the text.
pub open spec fn claim_key(c: CronClaim) -> (CronArchiveSurface, Seq<char>, Seq<char>) {
    (c.surface, c.surface_id@, c.stamp_hash@)
}

/// Whether row `i` is a claim on this text.
pub open spec fn is_claim_on(
    claims: Seq<CronClaim>,
    i: int,
    key: (CronArchiveSurface, Seq<char>, Seq<char>),
) -> bool {
    0 <= i < claims.len() && claim_key(claims[i]) == key
}

/// The claim on one text, if any, as token and time.
pub open spec fn claim_on(
    claims: Seq<CronClaim>,
    key: (CronArchiveSurface, Seq<char>, Seq<char>),
) -> Option<(Seq<char>, int)> {
    if exists|i: int| is_claim_on(claims, i, key) {
        let i = choose|i: int| is_claim_on(claims, i, key);
        Some((claims[i].claim_token@, claims[i].claimed_at as int))
    } else {
        None
    }
}

/// Whether no text is claimed twice.
pub open spec fn claimed_once(claims: Seq<CronClaim>) -> bool {
    forall|i: int, j: int|
        0 <= i < j < claims.len() ==> claim_key(#[trigger] claims[i]) != claim_key(
            #[trigger] claims[j],
        )
}

/// Whether the claims on all texts but this one are the same.
pub open spec fn same_elsewhere(
    a: Seq<CronClaim>,
    b: Seq<CronClaim>,
    key: (CronArchiveSurface, Seq<char>, Seq<char>),
) -> bool {
    forall|k: (CronArchiveSurface, Seq<char>, Seq<char>)|
        k != key ==> #[trigger] claim_on(a, k) == claim_on(b, k)
}

proof fn lemma_claim_at(claims: Seq<CronClaim>, i: int)
    requires
        claimed_once(claims),
        0 <= i < claims.len(),
    ensures
        claim_on(claims, claim_key(claims[i])) == Some(
            (claims[i].claim_token@, claims[i].claimed_at as int),
        ),
{
    let key = claim_key(claims[i]);
    assert(is_claim_on(claims, i, key));
    let j = choose|j: int| is_claim_on(claims, j, key);
    if i < j {
        assert(claim_key(claims[i]) != claim_key(claims[j]));
    } else if j < i {
        assert(claim_key(claims[j]) != claim_key(claims[i]));
    }
}

proof fn lemma_rows_carry_over(
    a: Seq<CronClaim>,
    b: Seq<CronClaim>,
    key: (CronArchiveSurface, Seq<char>, Seq<char>),
)
    requires
        claimed_once(a),
        claimed_once(b),
        forall|i: int|
            0 <= i < a.len() && claim_key(a[i]) != key ==> b.contains(#[trigger] a[i]),
        forall|i: int|
            0 <= i < b.len() && claim_key(b[i]) != key ==> a.contains(#[trigger] b[i]),
    ensures
        same_elsewhere(a, b, key),
{
    assert forall|k: (CronArchiveSurface, Seq<char>, Seq<char>)| k != key implies #[trigger] claim_on(
        a,
        k,
    ) == claim_on(b, k) by {
        if exists|i: int| is_claim_on(a, i, k) {
            let i = choose|i: int| is_claim_on(a, i, k);
            assert(b.contains(a[i]));
            let j = choose|j: int| 0 <= j < b.len() && b[j] == a[i];
            lemma_claim_at(a, i);
            lemma_claim_at(b, j);
        } else if exists|j: int| is_claim_on(b, j, k) {
            let j = choose|j: int| is_claim_on(b, j, k);
            assert(a.contains(b[j]));
            let i = choose|i: int| 0 <= i < a.len() && a[i] == b[j];
            assert(is_claim_on(a, i, k));
        }
    }
}

/// Whether a claim can be taken: there is none, or it is stale.
pub open spec fn claimable(slot: Option<(Seq<char>, int)>, now: int) -> bool {
    match slot {
        None => true,
        Some(c) => c.1 < now - CRON_CLAIM_STALE_SECS,
    }
}

/// The claim after an attempt to take it.
pub open spec fn after_claim(
    slot: Option<(Seq<char>, int)>,
    token: Seq<char>,
    now: int,
) -> Option<(Seq<char>, int)> {
    if claimable(slot, now) {
        Some((token, now))
    } else {
        slot
    }
}

/// The claim after its owner, or someone who was it once, gives it up.
pub open spec fn after_release(
    slot: Option<(Seq<char>, int)>,
    token: Seq<char>,
) -> Option<(Seq<char>, int)> {
    match slot {
        Some(c) => if c.0 == token {
            None
        } else {
            slot
        },
        None => None,
    }
}

fn find_claim(
    claims: &Vec<CronClaim>,
    surface: CronArchiveSurface,
    id: &str,
    stamp_hash: &str,
) -> (r: Option<usize>)
    requires
        claimed_once(claims@),
    ensures
        match r {
            Some(i) => is_claim_on(claims@, i as int, (surface, id@, stamp_hash@)) && claim_on(
                claims@,
                (surface, id@, stamp_hash@),
            ) == Some((claims@[i as int].claim_token@, claims@[i as int].claimed_at as int)),
            None => claim_on(claims@, (surface, id@, stamp_hash@)) is None && forall|i: int|
                !is_claim_on(claims@, i, (surface, id@, stamp_hash@)),
        },
{
    let mut i: usize = 0;
    while i < claims.len()
        invariant
            i <= claims@.len(),
            claimed_once(claims@),
            forall|k: int| 0 <= k < i ==> !is_claim_on(claims@, k, (surface, id@, stamp_hash@)),
        decreases claims@.len() - i,
    {
        if claims[i].surface == surface && str_eq(claims[i].surface_id.as_str(), id) && str_eq(
            claims[i].stamp_hash.as_str(),
            stamp_hash,
        ) {
            proof {
                lemma_claim_at(claims@, i as int);
            }
            return Some(i);
        }
        i = i + 1;
    }
    None
}

fn remove_claim(claims: &mut Vec<CronClaim>, i: usize)
    requires
        claimed_once(old(claims)@),
        i < old(claims)@.len(),
    ensures
        claimed_once(final(claims)@),
        claim_on(final(claims)@, claim_key(old(claims)@[i as int])) is None,
        same_elsewhere(old(claims)@, final(claims)@, claim_key(old(claims)@[i as int])),
{
    let ghost before = claims@;
    claims.remove(i);
    proof {
        let after = claims@;
        let key = claim_key(before[i as int]);
        assert(after =~= before.remove(i as int));
        let from = |k: int| if k < i { k } else { k + 1 };
        assert forall|a: int, b: int| 0 <= a < b < after.len() implies claim_key(
            #[trigger] after[a],
        ) != claim_key(#[trigger] after[b]) by {
            assert(after[a] == before[from(a)] && after[b] == before[from(b)]);
        }
        assert forall|k: int| !is_claim_on(after, k, key) by {
            if 0 <= k < after.len() {
                let at = from(k);
                assert(after[k] == before[at]);
                if at < i {
                    assert(claim_key(before[at]) != claim_key(before[i as int]));
                } else {
                    assert(claim_key(before[i as int]) != claim_key(before[at]));
                }
            }
        }
        assert forall|k: int| 0 <= k < before.len() && claim_key(before[k]) != key implies after.contains(
            #[trigger] before[k],
        ) by {
            let at = if k < i { k } else { k - 1 };
            assert(after[at] == before[k]);
        }
        assert forall|k: int| 0 <= k < after.len() && claim_key(after[k]) != key implies before.contains(
            #[trigger] after[k],
        ) by {
            assert(after[k] == before[from(k)]);
        }
        lemma_rows_carry_over(before, after, key);
    }
}

/// Takes the claim on a text with a fresh token, where there is none or it is
/// stale. Returns whether it was taken.
pub fn try_claim_cron(
    claims: &mut Vec<CronClaim>,
    surface: &CronArchiveSurface,
    id: &str,
    stamp_hash: &str,
    token: String,
    now: i64,
) -> (won: bool)
    requires
        claimed_once(old(claims)@),
        now >= i64::MIN + CRON_CLAIM_STALE_SECS,
    ensures
        claimed_once(final(claims)@),
        won == claimable(claim_on(old(claims)@, (*surface, id@, stamp_hash@)), now as int),
        claim_on(final(claims)@, (*surface, id@, stamp_hash@)) == after_claim(
            claim_on(old(claims)@, (*surface, id@, stamp_hash@)),
            token@,
            now as int,
        ),
        same_elsewhere(old(claims)@, final(claims)@, (*surface, id@, stamp_hash@)),
{
    if let Some(i) = find_claim(claims, *surface, id, stamp_hash) {
        if claims[i].claimed_at >= now - CRON_CLAIM_STALE_SECS {
            return false;
        }
        remove_claim(claims, i);
    }
    let ghost before = claims@;
    claims.push(
        CronClaim {
            surface: *surface,
            surface_id: id.to_owned(),
            stamp_hash: stamp_hash.to_owned(),
            claim_token: token,
            claimed_at: now,
        },
    );
    proof {
        let key = (*surface, id@, stamp_hash@);
        let after = claims@;
        let last = before.len() as int;
        assert(claim_key(after[last]) == key);
        assert forall|a: int, b: int| 0 <= a < b < after.len() implies claim_key(
            #[trigger] after[a],
        ) != claim_key(#[trigger] after[b]) by {
            assert(after[a] == before[a]);
            if b < last {
                assert(after[b] == before[b]);
            } else {
                assert(!is_claim_on(before, a, key));
            }
        }
        lemma_claim_at(after, last);
        assert forall|k: int| 0 <= k < before.len() && claim_key(before[k]) != key implies after.contains(
            #[trigger] before[k],
        ) by {
            assert(after[k] == before[k]);
        }
        assert forall|k: int| 0 <= k < after.len() && claim_key(after[k]) != key implies before.contains(
            #[trigger] after[k],
        ) by {
            assert(after[k] == before[k]);
        }
        lemma_rows_carry_over(before, after, key);
    }
    true
}

/// Gives up the claim on a text, if it is still held under this token.
pub fn release_cron_claim(
    claims: &mut Vec<CronClaim>,
    surface: &CronArchiveSurface,
    id: &str,
    stamp_hash: &str,
    token: &str,
)
    requires
        claimed_once(old(claims)@),
    ensures
        claimed_once(final(claims)@),
        claim_on(final(claims)@, (*surface, id@, stamp_hash@)) == after_release(
            claim_on(old(claims)@, (*surface, id@, stamp_hash@)),
            token@,
        ),
        same_elsewhere(old(claims)@, final(claims)@, (*surface, id@, stamp_hash@)),
{
    if let Some(i) = find_claim(claims, *surface, id, stamp_hash) {
        if str_eq(claims[i].claim_token.as_str(), token) {
            remove_claim(claims, i);
        }
    }
}

/// Removes the claim on a text whose verdict is already written, whoever holds
/// it.
pub fn reap_emitted_cron_claim(
    claims: &mut Vec<CronClaim>,
    surface: &CronArchiveSurface,
    id: &str,
    stamp_hash: &str,
)
    requires
        claimed_once(old(claims)@),
    ensures
        claimed_once(final(claims)@),
        claim_on(final(claims)@, (*surface, id@, stamp_hash@)) is None,
        same_elsewhere(old(claims)@, final(claims)@, (*surface, id@, stamp_hash@)),
{
    if let Some(i) = find_claim(claims, *surface, id, stamp_hash) {
        remove_claim(claims, i);
    }
}

/// While a claim is fresh nobody else gets it.
pub proof fn law_fresh_claim_excludes_others(
    slot: Option<(Seq<char>, int)>,
    owner: Seq<char>,
    taken: int,
    other: Seq<char>,
    now: int,
)
    requires
        claimable(slot, taken),
        now - taken <= CRON_CLAIM_STALE_SECS,
    ensures
        !claimable(after_claim(slot, owner, taken), now),
        after_claim(after_claim(slot, owner, taken), other, now) == after_claim(slot, owner, taken),
{
}

/// One whose claim was taken over cannot give up the new owner's.
pub proof fn law_old_owner_cannot_release(
    slot: Option<(Seq<char>, int)>,
    old_token: Seq<char>,
    new_token: Seq<char>,
    now: int,
)
    requires
        claimable(slot, now),
        old_token != new_token,
    ensures
        after_release(after_claim(slot, new_token, now), old_token) == after_claim(
            slot,
            new_token,
            now,
        ),
{
}

/// A claim that its owner gave up can be taken at once.
pub proof fn law_released_claim_can_be_retaken(
    slot: Option<(Seq<char>, int)>,
    token: Seq<char>,
    taken: int,
    now: int,
)
    requires
        claimable(slot, taken),
    ensures
        claimable(after_release(after_claim(slot, token, taken), token), now),
{
}

/// The verdict that a payload holds on the text with this id: whether it was a
/// hit, `false` where it does not say, and the judge's model.
pub open spec fn verdict_of(
    m: Seq<(Seq<char>, FieldView)>,
    field: Seq<char>,
    id: Seq<char>,
) -> Option<(bool, Seq<char>)> {
    if text_member(m, field) == Some(id) {
        Some(
            (
                bool_member(m, "hit"@) == Some(true),
                match text_member(m, "judge_model"@) {
                    Some(s) => s,
                    None => "unknown"@,
                },
            ),
        )
    } else {
        None
    }
}

/// The view of a verdict.
pub open spec fn verdict_view(r: Option<(bool, String)>) -> Option<(bool, Seq<char>)> {
    match r {
        Some(v) => Some((v.0, v.1@)),
        None => None,
    }
}

/// The verdict that a payload holds on the text with this id.
pub fn runtime_verdict_in(m: &JsonMembers, surface: &CronArchiveSurface, id: &str) -> (r: Option<
    (bool, String),
>)
    ensures
        verdict_view(r) == verdict_of(members_view(m@), id_member(*surface), id@),
{
    match text_of(m, surface.id_field()) {
        None => None,
        Some(found) => {
            if !str_eq(found.as_str(), id) {
                return None;
            }
            let hit: bool = match bool_of(m, "hit") {
                Some(b) => b,
                None => false,
            };
            let model: String = match text_of(m, "judge_model") {
                Some(s) => s,
                None => "unknown".to_owned(),
            };
            Some((hit, model))
        },
    }
}

/// The verdict of the first payload that holds one on the text with this id.
pub open spec fn first_verdict(
    payloads: Seq<Seq<char>>,
    field: Seq<char>,
    id: Seq<char>,
) -> Option<(bool, Seq<char>)>
    decreases payloads.len(),
{
    if payloads.len() == 0 {
        None
    } else {
        match json_members(payloads[0]) {
            Some(m) => match verdict_of(m, field, id) {
                Some(v) => Some(v),
                None => first_verdict(payloads.skip(1), field, id),
            },
            None => first_verdict(payloads.skip(1), field, id),
        }
    }
}

/// The runtime judge's verdict on a text, from the payloads of its events,
/// newest first. Payloads that are not JSON are passed over.
pub fn lookup_runtime_verdict(payloads: &Vec<String>, surface: &CronArchiveSurface, id: &str) -> (r:
    Option<(bool, String)>)
    ensures
        verdict_view(r) == first_verdict(texts(payloads@), id_member(*surface), id@),
{
    let ghost all = texts(payloads@);
    let mut i: usize = 0;
    assert(all.skip(0) =~= all);
    while i < payloads.len()
        invariant
            i <= payloads@.len(),
            all == texts(payloads@),
            first_verdict(all, id_member(*surface), id@) == first_verdict(
                all.skip(i as int),
                id_member(*surface),
                id@,
            ),
        decreases payloads@.len() - i,
    {
        assert(all.skip(i as int)[0] == payloads@[i as int]@);
        assert(all.skip(i as int).skip(1) =~= all.skip(i + 1));
        match parse_members(payloads[i].as_str()) {
            Some(m) => {
                match runtime_verdict_in(&m, surface, id) {
                    Some(v) => {
                        return Some(v);
                    },
                    None => {},
                }
            },
            None => {},
        }
        i = i + 1;
    }
    None
}

/// Sum of the lengths in characters.
pub open spec fn total_chars(parts: Seq<Seq<char>>) -> nat
    decreases parts.len(),
{
    if parts.len() == 0 {
        0
    } else {
        total_chars(parts.drop_last()) + parts.last().len()
    }
}

/// Length in characters of what the judge is sent for an entry, held at the
/// greatest length.
pub open spec fn judged_chars(sources: Seq<Seq<char>>, candidate: Seq<char>) -> int {
    let n = total_chars(sources) + candidate.len();
    if n > usize::MAX {
        usize::MAX as int
    } else {
        n as int
    }
}

/// Length in characters of what the judge is sent for an entry.
pub fn combined_chars(entry: &CronArchiveEntry) -> (r: usize)
    ensures
        r == judged_chars(texts(entry.sources@), entry.candidate@),
{
    let mut n: usize = 0;
    let mut i: usize = 0;
    let ghost all = texts(entry.sources@);
    assert(all.take(0) =~= Seq::<Seq<char>>::empty());
    while i < entry.sources.len()
        invariant
            i <= entry.sources@.len(),
            all == texts(entry.sources@),
            n == (if total_chars(all.take(i as int)) > usize::MAX {
                usize::MAX as int
            } else {
                total_chars(all.take(i as int)) as int
            }),
        decreases entry.sources@.len() - i,
    {
        assert(all.take(i + 1).drop_last() =~= all.take(i as int));
        assert(all.take(i + 1).last() == entry.sources@[i as int]@);
        n = n.saturating_add(entry.sources[i].as_str().unicode_len());
        i = i + 1;
    }
    assert(all.take(i as int) =~= all);
    n.saturating_add(entry.candidate.as_str().unicode_len())
}

/// What the nightly judge is sent: the sources, one per line.
pub fn cron_judge_sources(entry: &CronArchiveEntry) -> (r: String)
    ensures
        r@ == join(texts(entry.sources@), "\n"@),
{
    join_strings(&entry.sources, "\n")
}

/// How an entry ended.
#[derive(Clone, Debug)]
pub enum ProcessOutcome {
    Emitted,
    SkippedNoRuntimeVerdict,
    SkippedDuplicate,
    Dropped(String),
    DroppedCap,
}

/// How an entry ended, as a mathematical value.
pub enum OutcomeView {
    Emitted,
    SkippedNoRuntimeVerdict,
    SkippedDuplicate,
    Dropped(Seq<char>),
    DroppedCap,
}

impl ProcessOutcome {
    /// The outcome as a mathematical value.
    pub open spec fn view(&self) -> OutcomeView {
        match *self {
            ProcessOutcome::Emitted => OutcomeView::Emitted,
            ProcessOutcome::SkippedNoRuntimeVerdict => OutcomeView::SkippedNoRuntimeVerdict,
            ProcessOutcome::SkippedDuplicate => OutcomeView::SkippedDuplicate,
            ProcessOutcome::Dropped(s) => OutcomeView::Dropped(s@),
            ProcessOutcome::DroppedCap => OutcomeView::DroppedCap,
        }
    }
}

/// What the handling of an entry waits for.
#[derive(Clone, Copy, Debug, PartialEq, Eq, Structural)]
pub enum EntryPhase {
    /// Whether the verdict is already written.
    Checking,
    /// The removal of a claim left behind.
    Reaping,
    /// The runtime judge's verdict.
    LookingUp,
    /// The claim.
    Claiming,
    /// Once more, whether the verdict is already written.
    Rechecking,
    /// A call from the daily budget.
    Reserving,
    /// The nightly judge's verdict.
    Judging,
    /// The writing of the verdict.
    Writing,
    /// The release of the claim.
    Releasing,
    Done,
}

/// What the handling of an entry is told.
#[derive(Clone, Debug)]
pub enum EntryEvent {
    /// Whether the verdict is already written; `None` where that is unknown.
    AlreadyWritten(Option<bool>),
    Reaped,
    Runtime(Option<(bool, String)>),
    RuntimeFailed(String),
    Claimed(String),
    ClaimHeld,
    ClaimFailed(String),
    Reserved,
    BudgetSpent,
    ReserveFailed(String),
    Judged { hit: bool, reason: String, model: String },
    JudgeFailed(String),
    Written,
    WrittenByPeer,
    SerializeFailed(String),
    WriteFailed(String),
    Released,
}

/// The handling of an entry as a mathematical value.
pub struct EntryState {
    pub phase: EntryPhase,
    /// Length in characters of what the judge would be sent.
    pub chars: int,
    /// Most that it is sent.
    pub ceiling: int,
    /// Token of the claim, while it is held.
    pub claim: Option<Seq<char>>,
    /// The runtime judge's verdict and model.
    pub runtime: Option<(bool, Seq<char>)>,
    /// The nightly judge's verdict, reason and model.
    pub nightly: Option<(bool, Seq<char>, Seq<char>)>,
    pub outcome: Option<OutcomeView>,
}

/// Whether handling in this phase can be told this.
pub open spec fn entry_expects(phase: EntryPhase, event: EntryEvent) -> bool {
    match event {
        EntryEvent::AlreadyWritten(_) => phase is Checking || phase is Rechecking,
        EntryEvent::Reaped => phase is Reaping,
        EntryEvent::Runtime(_) => phase is LookingUp,
        EntryEvent::RuntimeFailed(_) => phase is LookingUp,
        EntryEvent::Claimed(_) => phase is Claiming,
        EntryEvent::ClaimHeld => phase is Claiming,
        EntryEvent::ClaimFailed(_) => phase is Claiming,
        EntryEvent::Reserved => phase is Reserving,
        EntryEvent::BudgetSpent => phase is Reserving,
        EntryEvent::ReserveFailed(_) => phase is Reserving,
        EntryEvent::Judged { .. } => phase is Judging,
        EntryEvent::JudgeFailed(_) => phase is Judging,
        EntryEvent::Written => phase is Writing,
        EntryEvent::WrittenByPeer => phase is Writing,
        EntryEvent::SerializeFailed(_) => phase is Writing,
        EntryEvent::WriteFailed(_) => phase is Writing,
        EntryEvent::Released => phase is Releasing,
    }
}

/// The handling over, with this outcome; a claim that is held is released
/// first.
pub open spec fn ended(s: EntryState, outcome: OutcomeView) -> EntryState {
    EntryState {
        phase: if s.claim is Some {
            EntryPhase::Releasing
        } else {
            EntryPhase::Done
        },
        outcome: Some(outcome),
        ..s
    }
}

/// The reason for dropping a text that is too long to be judged.
pub open spec fn too_large_text(chars: int, ceiling: int) -> Seq<char> {
    "cron archive payload too large ("@ + decimal(chars as nat) + " chars > ceiling "@ + decimal(
        ceiling as nat,
    ) + ")"@
}

/// One step in handling an entry.
pub open spec fn entry_step(s: EntryState, event: EntryEvent) -> EntryState {
    match event {
        EntryEvent::AlreadyWritten(known) => if s.phase is Checking {
            if known == Some(true) {
                EntryState {
                    phase: EntryPhase::Reaping,
                    outcome: Some(OutcomeView::SkippedDuplicate),
                    ..s
                }
            } else {
                EntryState { phase: EntryPhase::LookingUp, ..s }
            }
        } else if known == Some(true) {
            ended(s, OutcomeView::SkippedDuplicate)
        } else {
            EntryState { phase: EntryPhase::Reserving, ..s }
        },
        EntryEvent::Reaped => EntryState { phase: EntryPhase::Done, ..s },
        EntryEvent::Runtime(v) => match verdict_view(v) {
            None => ended(s, OutcomeView::SkippedNoRuntimeVerdict),
            Some(verdict) => if s.chars > s.ceiling {
                ended(
                    EntryState { runtime: Some(verdict), ..s },
                    OutcomeView::Dropped(too_large_text(s.chars, s.ceiling)),
                )
            } else {
                EntryState { phase: EntryPhase::Claiming, runtime: Some(verdict), ..s }
            },
        },
        EntryEvent::RuntimeFailed(e) => ended(
            s,
            OutcomeView::Dropped("verdict lookup failed: "@ + e@),
        ),
        EntryEvent::Claimed(token) => EntryState {
            phase: EntryPhase::Rechecking,
            claim: Some(token@),
            ..s
        },
        EntryEvent::ClaimHeld => ended(s, OutcomeView::SkippedDuplicate),
        EntryEvent::ClaimFailed(e) => ended(
            s,
            OutcomeView::Dropped("cron claim insert failed: "@ + e@),
        ),
        EntryEvent::Reserved => EntryState { phase: EntryPhase::Judging, ..s },
        EntryEvent::BudgetSpent => ended(s, OutcomeView::DroppedCap),
        EntryEvent::ReserveFailed(e) => ended(s, OutcomeView::Dropped("reserve_call: "@ + e@)),
        EntryEvent::Judged { hit, reason, model } => EntryState {
            phase: EntryPhase::Writing,
            nightly: Some((hit, reason@, model@)),
            ..s
        },
        EntryEvent::JudgeFailed(e) => ended(
            s,
            OutcomeView::Dropped("cron LLM call failed: "@ + e@),
        ),
        EntryEvent::Written => ended(s, OutcomeView::Emitted),
        EntryEvent::WrittenByPeer => ended(s, OutcomeView::SkippedDuplicate),
        EntryEvent::SerializeFailed(e) => ended(
            s,
            OutcomeView::Dropped("payload serialize: "@ + e@),
        ),
        EntryEvent::WriteFailed(e) => ended(s, OutcomeView::Dropped("emit_event failed: "@ + e@)),
        EntryEvent::Released => EntryState { phase: EntryPhase::Done, claim: None, ..s },
    }
}

/// What every reachable handling satisfies.
pub open spec fn entry_invariant(s: EntryState) -> bool {
    &&& s.claim is Some <==> s.phase is Rechecking || s.phase is Reserving || s.phase is Judging
        || s.phase is Writing || s.phase is Releasing
    &&& s.outcome is Some <==> s.phase is Reaping || s.phase is Releasing || s.phase is Done
    &&& s.phase is Claiming || s.phase is Rechecking || s.phase is Reserving || s.phase is Judging
        || s.phase is Writing ==> s.runtime is Some && s.chars <= s.ceiling
    &&& s.phase is Writing ==> s.nightly is Some
}

/// Every step keeps the invariant.
pub proof fn law_entry_step_keeps_invariant(s: EntryState, event: EntryEvent)
    requires
        entry_invariant(s),
        entry_expects(s.phase, event),
    ensures
        entry_invariant(entry_step(s, event)),
{
}

/// An entry that is done holds no claim, and one that holds a claim can only
/// get done by releasing it.
pub proof fn law_claim_is_always_released(s: EntryState, event: EntryEvent)
    requires
        entry_invariant(s),
        entry_expects(s.phase, event),
    ensures
        entry_step(s, event).phase is Done ==> entry_step(s, event).claim is None,
        s.claim is Some && entry_step(s, event).phase is Done ==> event is Released,
{
}

/// The nightly judge is asked only under a claim, within the budget, about a
/// text that is short enough and that the runtime judge has judged.
pub proof fn law_judge_asked_under_claim(s: EntryState, event: EntryEvent)
    requires
        entry_invariant(s),
        entry_expects(s.phase, event),
        entry_step(s, event).phase is Judging,
    ensures
        event is Reserved,
        s.claim is Some,
        s.runtime is Some,
        s.chars <= s.ceiling,
{
}

/// Each step brings the handling of an entry nearer to its end.
pub open spec fn entry_rank(phase: EntryPhase) -> int {
    match phase {
        EntryPhase::Checking => 9,
        EntryPhase::Reaping => 8,
        EntryPhase::LookingUp => 7,
        EntryPhase::Claiming => 6,
        EntryPhase::Rechecking => 5,
        EntryPhase::Reserving => 4,
        EntryPhase::Judging => 3,
        EntryPhase::Writing => 2,
        EntryPhase::Releasing => 1,
        EntryPhase::Done => 0,
    }
}

/// The handling of an entry ends after at most nine steps.
pub proof fn law_entry_terminates(s: EntryState, event: EntryEvent)
    requires
        entry_invariant(s),
        entry_expects(s.phase, event),
    ensures
        0 <= entry_rank(entry_step(s, event).phase) < entry_rank(s.phase) <= 9,
{
}

/// The handling of one archived entry.
#[derive(Debug)]
pub struct EntryRun {
    phase: EntryPhase,
    chars: usize,
    ceiling: usize,
    claim: Option<String>,
    runtime: Option<(bool, String)>,
    nightly: Option<(bool, String, String)>,
    outcome: Option<ProcessOutcome>,
}

fn prefixed(prefix: &str, cause: &String) -> (r: String)
    ensures
        r@ == prefix@ + cause@,
{
    let mut s: String = prefix.to_owned();
    s.append(cause.as_str());
    s
}

/// An entry that nothing is known of yet.
pub open spec fn fresh_entry(entry: CronArchiveEntry, ceiling: int) -> EntryState {
    EntryState {
        phase: EntryPhase::Checking,
        chars: judged_chars(texts(entry.sources@), entry.candidate@),
        ceiling,
        claim: None,
        runtime: None,
        nightly: None,
        outcome: None,
    }
}

impl EntryRun {
    /// The handling as a mathematical value.
    pub closed spec fn state(&self) -> EntryState {
        EntryState {
            phase: self.phase,
            chars: self.chars as int,
            ceiling: self.ceiling as int,
            claim: opt_text(self.claim),
            runtime: verdict_view(self.runtime),
            nightly: match self.nightly {
                Some(v) => Some((v.0, v.1@, v.2@)),
                None => None,
            },
            outcome: match self.outcome {
                Some(o) => Some(o@),
                None => None,
            },
        }
    }

    /// Starts handling an entry.
    pub fn new(entry: &CronArchiveEntry, max_input_chars: usize) -> (r: EntryRun)
        ensures
            r.state() == fresh_entry(*entry, max_input_chars as int),
            entry_invariant(r.state()),
    {
        EntryRun {
            phase: EntryPhase::Checking,
            chars: combined_chars(entry),
            ceiling: max_input_chars,
            claim: None,
            runtime: None,
            nightly: None,
            outcome: None,
        }
    }

    /// What the handling waits for.
    pub fn phase(&self) -> (r: EntryPhase)
        ensures
            r == self.state().phase,
    {
        self.phase
    }

    /// The token of the claim, while it is held.
    pub fn claim(&self) -> (r: Option<&String>)
        ensures
            match r {
                Some(t) => self.state().claim == Some(t@),
                None => self.state().claim is None,
            },
    {
        self.claim.as_ref()
    }

    /// The two verdicts, once both are known.
    pub fn verdicts(&self) -> (r: Option<((bool, String), (bool, String, String))>)
        ensures
            r is Some <==> self.state().runtime is Some && self.state().nightly is Some,
            r matches Some(v) ==> {
                &&& self.state().runtime == Some((v.0.0, v.0.1@))
                &&& self.state().nightly == Some((v.1.0, v.1.1@, v.1.2@))
            },
    {
        match (&self.runtime, &self.nightly) {
            (Some(a), Some(b)) => Some(((a.0, a.1.clone()), (b.0, b.1.clone(), b.2.clone()))),
            _ => None,
        }
    }

    /// How the handling ended, once it has.
    pub fn into_outcome(self) -> (r: Option<ProcessOutcome>)
        ensures
            match r {
                Some(o) => self.state().outcome == Some(o@),
                None => self.state().outcome is None,
            },
    {
        self.outcome
    }

    fn end(&mut self, outcome: ProcessOutcome)
        ensures
            final(self).state() == ended(old(self).state(), outcome@),
    {
        self.outcome = Some(outcome);
        self.phase = if self.claim.is_some() {
            EntryPhase::Releasing
        } else {
            EntryPhase::Done
        };
    }

    /// Takes in what came of the last step.
    pub fn step(&mut self, event: EntryEvent)
        requires
            entry_expects(old(self).state().phase, event),
        ensures
            final(self).state() == entry_step(old(self).state(), event),
            entry_invariant(old(self).state()) ==> entry_invariant(final(self).state()),
    {
        proof {
            if entry_invariant(self.state()) {
                law_entry_step_keeps_invariant(self.state(), event);
            }
        }
        match event {
            EntryEvent::AlreadyWritten(known) => {
                let written: bool = match known {
                    Some(b) => b,
                    None => false,
                };
                match self.phase {
                    EntryPhase::Checking => {
                        if written {
                            self.phase = EntryPhase::Reaping;
                            self.outcome = Some(ProcessOutcome::SkippedDuplicate);
                        } else {
                            self.phase = EntryPhase::LookingUp;
                        }
                    },
                    _ => {
                        if written {
                            self.end(ProcessOutcome::SkippedDuplicate);
                        } else {
                            self.phase = EntryPhase::Reserving;
                        }
                    },
                }
            },
            EntryEvent::Reaped => {
                self.phase = EntryPhase::Done;
            },
            EntryEvent::Runtime(v) => {
                match v {
                    None => {
                        self.end(ProcessOutcome::SkippedNoRuntimeVerdict);
                    },
                    Some(verdict) => {
                        self.runtime = Some(verdict);
                        if self.chars > self.ceiling {
                            let mut s: String = "cron archive payload too large (".to_owned();
                            push_decimal(&mut s, self.chars as u64);
                            s.append(" chars > ceiling ");
                            push_decimal(&mut s, self.ceiling as u64);
                            s.append(")");
                            self.end(ProcessOutcome::Dropped(s));
                        } else {
                            self.phase = EntryPhase::Claiming;
                        }
                    },
                }
            },
            EntryEvent::RuntimeFailed(e) => {
                self.end(ProcessOutcome::Dropped(prefixed("verdict lookup failed: ", &e)));
            },
            EntryEvent::Claimed(token) => {
                self.claim = Some(token);
                self.phase = EntryPhase::Rechecking;
            },
            EntryEvent::ClaimHeld => {
                self.end(ProcessOutcome::SkippedDuplicate);
            },
            EntryEvent::ClaimFailed(e) => {
                self.end(ProcessOutcome::Dropped(prefixed("cron claim insert failed: ", &e)));
            },
            EntryEvent::Reserved => {
                self.phase = EntryPhase::Judging;
            },
            EntryEvent::BudgetSpent => {
                self.end(ProcessOutcome::DroppedCap);
            },
            EntryEvent::ReserveFailed(e) => {
                self.end(ProcessOutcome::Dropped(prefixed("reserve_call: ", &e)));
            },
            EntryEvent::Judged { hit, reason, model } => {
                self.nightly = Some((hit, reason, model));
                self.phase = EntryPhase::Writing;
            },
            EntryEvent::JudgeFailed(e) => {
                self.end(ProcessOutcome::Dropped(prefixed("cron LLM call failed: ", &e)));
            },
            EntryEvent::Written => {
                self.end(ProcessOutcome::Emitted);
            },
            EntryEvent::WrittenByPeer => {
                self.end(ProcessOutcome::SkippedDuplicate);
            },
            EntryEvent::SerializeFailed(e) => {
                self.end(ProcessOutcome::Dropped(prefixed("payload serialize: ", &e)));
            },
            EntryEvent::WriteFailed(e) => {
                self.end(ProcessOutcome::Dropped(prefixed("emit_event failed: ", &e)));
            },
            EntryEvent::Released => {
                self.claim = None;
                self.phase = EntryPhase::Done;
            },
        }
    }
}

/// What a nightly run did.
#[derive(Clone, Copy, Debug, PartialEq, Eq, Structural)]
pub struct CronReport {
    /// Entries looked at.
    pub considered: usize,
    /// Entries judged again, with the verdict written.
    pub emitted: usize,
    /// Entries that the runtime judge never judged.
    pub skipped_no_runtime_verdict: usize,
    /// Entries whose verdict was written before, or is being worked on.
    pub skipped_duplicate: usize,
    /// Entries given up for this run.
    pub dropped: usize,
    /// Entries given up because the daily budget is spent.
    pub dropped_cap: usize,
}

impl Default for CronReport {
    fn default() -> (r: CronReport)
        ensures
            r == empty_report(),
    {
        CronReport {
            considered: 0,
            emitted: 0,
            skipped_no_runtime_verdict: 0,
            skipped_duplicate: 0,
            dropped: 0,
            dropped_cap: 0,
        }
    }
}

/// A report on nothing.
pub open spec fn empty_report() -> CronReport {
    CronReport {
        considered: 0,
        emitted: 0,
        skipped_no_runtime_verdict: 0,
        skipped_duplicate: 0,
        dropped: 0,
        dropped_cap: 0,
    }
}

/// Entries that a report accounts for.
pub open spec fn accounted(r: CronReport) -> int {
    r.emitted + r.skipped_no_runtime_verdict + r.skipped_duplicate + r.dropped + r.dropped_cap
}

/// The report with one more entry accounted for.
pub open spec fn counted(r: CronReport, o: OutcomeView) -> CronReport {
    match o {
        OutcomeView::Emitted => CronReport { emitted: (r.emitted + 1) as usize, ..r },
        OutcomeView::SkippedNoRuntimeVerdict => CronReport {
            skipped_no_runtime_verdict: (r.skipped_no_runtime_verdict + 1) as usize,
            ..r
        },
        OutcomeView::SkippedDuplicate => CronReport {
            skipped_duplicate: (r.skipped_duplicate + 1) as usize,
            ..r
        },
        OutcomeView::Dropped(_) => CronReport { dropped: (r.dropped + 1) as usize, ..r },
        OutcomeView::DroppedCap => CronReport { dropped_cap: (r.dropped_cap + 1) as usize, ..r },
    }
}

impl CronReport {
    /// Accounts for one entry.
    pub fn tally(&mut self, outcome: &ProcessOutcome)
        requires
            accounted(*old(self)) < old(self).considered,
        ensures
            *final(self) == counted(*old(self), outcome@),
            accounted(*final(self)) == accounted(*old(self)) + 1,
    {
        match outcome {
            ProcessOutcome::Emitted => {
                self.emitted = self.emitted + 1;
            },
            ProcessOutcome::SkippedNoRuntimeVerdict => {
                self.skipped_no_runtime_verdict = self.skipped_no_runtime_verdict + 1;
            },
            ProcessOutcome::SkippedDuplicate => {
                self.skipped_duplicate = self.skipped_duplicate + 1;
            },
            ProcessOutcome::Dropped(_) => {
                self.dropped = self.dropped + 1;
            },
            ProcessOutcome::DroppedCap => {
                self.dropped_cap = self.dropped_cap + 1;
            },
        }
    }
}

/// Every entry is accounted for exactly once.
pub proof fn law_report_accounts_for_each_entry(r: CronReport, o: OutcomeView)
    requires
        accounted(r) < r.considered,
    ensures
        accounted(counted(r, o)) == accounted(r) + 1,
        counted(r, o).considered == r.considered,
{
}

/// Whether a night starts with this report and these entries: all recent ones where
/// it is switched on, and none otherwise.
pub open spec fn is_nightly_start(
    report: CronReport,
    taken: Seq<CronArchiveEntry>,
    enabled: bool,
    entries: Seq<CronArchiveEntry>,
    now: i64,
) -> bool {
    if enabled {
        &&& taken == recent_entries(entries, now)
        &&& report.considered == taken.len()
        &&& accounted(report) == 0
    } else {
        &&& taken.len() == 0
        &&& report == empty_report()
    }
}

/// Plans a nightly run: the entries of the last 24 hours, and the report that
/// counts them. Nothing is done unless both the judge and the nightly run are
/// switched on.
pub fn run_judge_calibration_cron(
    judge_enabled: bool,
    nightly_enabled: bool,
    entries: Vec<CronArchiveEntry>,
    now: i64,
) -> (r: (CronReport, Vec<CronArchiveEntry>))
    requires
        now >= i64::MIN + 86_400,
    ensures
        is_nightly_start(r.0, r.1@, judge_enabled && nightly_enabled, entries@, now),
{
    let mut report: CronReport = CronReport::default();
    if !judge_enabled || !nightly_enabled {
        return (report, Vec::new());
    }
    let recent: Vec<CronArchiveEntry> = retain_recent(entries, now);
    report.considered = recent.len();
    (report, recent)
}

/// The verdict pair that a nightly run writes, with the columns of its event.
#[derive(Debug)]
pub struct OfflineVerdict {
    pub event_type: &'static str,
    pub id: String,
    /// Id of the concept, for a concept summary; hoisted into a column.
    pub concept_id: Option<String>,
    pub stamp_hash: String,
    pub runtime_hit: bool,
    pub runtime_judge_model: String,
    pub cron_hit: bool,
    pub cron_judge_model: String,
    pub cron_reason: String,
    pub metadata: Option<JudgeMetadata>,
    /// The type of query in the metadata, hoisted into a column.
    pub query_type: Option<String>,
}

/// Whether `r` is the event that puts the verdicts of runtime and night side by side.
pub open spec fn is_offline_verdict(
    r: OfflineVerdict,
    entry: CronArchiveEntry,
    runtime: (bool, Seq<char>),
    nightly: (bool, Seq<char>, Seq<char>),
) -> bool {
    &&& r.event_type@ == offline_event(entry.surface)
    &&& r.id@ == entry.id@
    &&& opt_text(r.concept_id) == (if entry.surface is ConceptSummary {
        Some(entry.concept_id@)
    } else {
        None
    })
    &&& r.stamp_hash@ == entry.stamp_hash@
    &&& r.runtime_hit == runtime.0
    &&& r.runtime_judge_model@ == runtime.1
    &&& r.cron_hit == nightly.0
    &&& r.cron_reason@ == nightly.1
    &&& r.cron_judge_model@ == nightly.2
    &&& r.metadata == entry.metadata
    &&& r.query_type == (match entry.metadata {
        Some(m) => m.query_type,
        None => None,
    })
}

/// The verdict pair to be written for an entry.
pub fn offline_verdict(
    entry: &CronArchiveEntry,
    runtime: (bool, String),
    nightly: (bool, String, String),
) -> (r: OfflineVerdict)
    ensures
        is_offline_verdict(
            r,
            *entry,
            (runtime.0, runtime.1@),
            (nightly.0, nightly.1@, nightly.2@),
        ),
{
    let concept_id: Option<String> = match entry.surface {
        CronArchiveSurface::Synthesis => None,
        CronArchiveSurface::ConceptSummary => Some(entry.concept_id.clone()),
    };
    let (metadata, query_type): (Option<JudgeMetadata>, Option<String>) = match &entry.metadata {
        Some(m) => (
            Some(
                JudgeMetadata {
                    query_type: clone_opt(&m.query_type),
                    cluster_id: m.cluster_id,
                    source_count: m.source_count,
                    judge_latency_ms: m.judge_latency_ms,
                },
            ),
            clone_opt(&m.query_type),
        ),
        None => (None, None),
    };
    OfflineVerdict {
        event_type: entry.surface.offline_event_type(),
        id: entry.id.clone(),
        concept_id,
        stamp_hash: entry.stamp_hash.clone(),
        runtime_hit: runtime.0,
        runtime_judge_model: runtime.1,
        cron_hit: nightly.0,
        cron_reason: nightly.1,
        cron_judge_model: nightly.2,
        metadata,
        query_type,
    }
}

} // verus!
