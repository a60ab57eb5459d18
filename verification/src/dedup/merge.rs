//! Merging one memory into another, keeping provenance.

use crate::error::{OpsError, is_not_found, not_found};
use crate::text::{
    chars_of, contains_text, join, join_strings, lines, lines_of, lowercase, pieces, prefix,
    starts_with, string_of, take_chars, texts, to_lowercase, trim, trimmed,
};
use crate::time::{Timestamp, format_date, formatted, later_of};
use crate::types::{
    Memory, clone_opt, clone_strings, higher_importance, hotter, opt_text, stronger_tier,
};
use vstd::prelude::*;
use vstd::string::*;

verus! {

/// Whether a line, already trimmed, is a marker left by an earlier merge.
pub open spec fn is_merge_marker(line: Seq<char>) -> bool {
    "[merged from "@.is_prefix_of(line) || "[merged on "@.is_prefix_of(line)
}

/// How lines are compared: without the white space around them, in lower case.
pub open spec fn line_key(line: Seq<char>) -> Seq<char> {
    lowercase(trimmed(line))
}

/// Whether some line of `target` has this key.
pub open spec fn has_line(target: Seq<char>, key: Seq<char>) -> bool {
    exists|i: int| 0 <= i < lines(target).len() && line_key(#[trigger] lines(target)[i]) == key
}

/// Whether a line says something that `target` does not: it is not blank, no
/// merge marker, and no line of `target` has its key.
pub open spec fn is_unique_line(line: Seq<char>, target: Seq<char>) -> bool {
    &&& trimmed(line).len() > 0
    &&& !is_merge_marker(trimmed(line))
    &&& !has_line(target, line_key(line))
}

/// The lines of `source` that `target` does not have, in order.
pub open spec fn unique_lines(source: Seq<char>, target: Seq<char>) -> Seq<Seq<char>> {
    lines(source).filter(|line: Seq<char>| is_unique_line(line, target))
}

fn line_texts(text: &str) -> (r: Vec<String>)
    ensures
        texts(r@) == lines(text@),
{
    let all: Vec<Vec<char>> = lines_of(text);
    let mut r: Vec<String> = Vec::new();
    let mut i: usize = 0;
    while i < all.len()
        invariant
            i <= all@.len(),
            texts(r@) == pieces(all@).take(i as int),
        decreases all@.len() - i,
    {
        let ghost before = r@;
        r.push(string_of(&all[i]));
        assert(texts(r@) =~= texts(before).push(all@[i as int]@));
        assert(pieces(all@).take(i + 1) =~= pieces(all@).take(i as int).push(all@[i as int]@));
        i = i + 1;
    }
    assert(pieces(all@).take(i as int) =~= pieces(all@));
    r
}

/// The keys of lines, in order.
pub open spec fn keys_of(v: Seq<Seq<char>>) -> Seq<Seq<char>> {
    v.map_values(|line: Seq<char>| line_key(line))
}

fn line_keys(v: &Vec<String>) -> (r: Vec<String>)
    ensures
        texts(r@) == keys_of(texts(v@)),
{
    let mut keys: Vec<String> = Vec::new();
    let mut i: usize = 0;
    while i < v.len()
        invariant
            i <= v@.len(),
            keys@.len() == i,
            forall|k: int| 0 <= k < i ==> (#[trigger] keys@[k])@ == line_key(v@[k]@),
        decreases v@.len() - i,
    {
        keys.push(to_lowercase(trim(v[i].as_str()).as_str()));
        i = i + 1;
    }
    assert(texts(keys@) =~= keys_of(texts(v@)));
    keys
}

/// The lines whose key is not known, in order, without blank ones and merge
/// markers; `keys` holds the key of each line.
pub open spec fn new_lines(
    v: Seq<Seq<char>>,
    keys: Seq<Seq<char>>,
    known: Seq<Seq<char>>,
) -> Seq<Seq<char>>
    decreases v.len(),
{
    if v.len() == 0 {
        Seq::empty()
    } else {
        let rest = new_lines(v.drop_last(), keys.drop_last(), known);
        let line = trimmed(v.last());
        if line.len() > 0 && !is_merge_marker(line) && !known.contains(keys.last()) {
            rest.push(v.last())
        } else {
            rest
        }
    }
}

/// Picks the lines whose key is not known, without blank ones and merge markers.
pub fn keep_new_lines(v: &Vec<String>, keys: &Vec<String>, known: &Vec<String>) -> (r: Vec<String>)
    requires
        keys@.len() == v@.len(),
    ensures
        texts(r@) == new_lines(texts(v@), texts(keys@), texts(known@)),
{
    let mut r: Vec<String> = Vec::new();
    let mut i: usize = 0;
    let ghost all = texts(v@);
    let ghost all_keys = texts(keys@);
    assert(texts(r@) =~= new_lines(all.take(0), all_keys.take(0), texts(known@)));
    while i < v.len()
        invariant
            i <= v@.len(),
            keys@.len() == v@.len(),
            all == texts(v@),
            all_keys == texts(keys@),
            texts(r@) == new_lines(all.take(i as int), all_keys.take(i as int), texts(known@)),
        decreases v@.len() - i,
    {
        assert(all.take(i + 1).drop_last() =~= all.take(i as int));
        assert(all_keys.take(i + 1).drop_last() =~= all_keys.take(i as int));
        assert(all.take(i + 1).last() == v@[i as int]@);
        assert(all_keys.take(i + 1).last() == keys@[i as int]@);
        let line: Vec<char> = chars_of(trim(v[i].as_str()).as_str());
        if line.len() > 0 && !starts_with(&line, "[merged from ") && !starts_with(
            &line,
            "[merged on ",
        ) && !contains_text(known, keys[i].as_str()) {
            let ghost before = r@;
            r.push(v[i].clone());
            assert(texts(r@) =~= texts(before).push(v@[i as int]@));
        }
        i = i + 1;
    }
    assert(all.take(i as int) =~= all);
    assert(all_keys.take(i as int) =~= all_keys);
    r
}

proof fn lemma_new_lines_are_unique(v: Seq<Seq<char>>, target: Seq<char>)
    ensures
        new_lines(v, keys_of(v), keys_of(lines(target))) == v.filter(
            |line: Seq<char>| is_unique_line(line, target),
        ),
    decreases v.len(),
{
    reveal(Seq::filter);
    if v.len() > 0 {
        let rest = v.drop_last();
        let key = line_key(v.last());
        let known = keys_of(lines(target));
        lemma_new_lines_are_unique(rest, target);
        assert(keys_of(v).drop_last() =~= keys_of(rest));
        assert(keys_of(v).last() == key);
        if has_line(target, key) {
            let k = choose|k: int|
                0 <= k < lines(target).len() && line_key(#[trigger] lines(target)[k]) == key;
            assert(known[k] == key);
        }
        if known.contains(key) {
            let k = choose|k: int| 0 <= k < known.len() && known[k] == key;
            assert(line_key(lines(target)[k]) == key);
        }
    }
}

/// The lines of `source` that are not in `target`, joined by line feeds.
///
/// Lines are compared whole, so a short line is not lost because it occurs
/// inside another line.
pub fn extract_unique_lines(source: &str, target: &str) -> (r: String)
    ensures
        r@ == join(unique_lines(source@, target@), "\n"@),
{
    let own: Vec<String> = line_texts(source);
    let keys: Vec<String> = line_keys(&own);
    let known: Vec<String> = line_keys(&line_texts(target));
    proof {
        lemma_new_lines_are_unique(lines(source@), target@);
        assert(texts(keys@).len() == keys@.len());
        assert(texts(own@).len() == own@.len());
    }
    join_strings(&keep_new_lines(&own, &keys, &known), "\n")
}

/// `a` followed by the keywords of `b` that it lacks, each once.
pub open spec fn keyword_union(a: Seq<Seq<char>>, b: Seq<Seq<char>>) -> Seq<Seq<char>>
    decreases b.len(),
{
    if b.len() == 0 {
        a
    } else {
        let so_far = keyword_union(a, b.drop_last());
        if so_far.contains(b.last()) {
            so_far
        } else {
            so_far.push(b.last())
        }
    }
}

/// Adds to `into` the keywords of `from` that it lacks.
pub fn merge_keywords(into: &mut Vec<String>, from: &Vec<String>)
    ensures
        texts(final(into)@) == keyword_union(texts(old(into)@), texts(from@)),
{
    let mut i: usize = 0;
    assert(texts(from@).take(0) =~= Seq::<Seq<char>>::empty());
    while i < from.len()
        invariant
            i <= from.len(),
            texts(into@) == keyword_union(texts(old(into)@), texts(from@).take(i as int)),
        decreases from.len() - i,
    {
        let ghost all = texts(from@);
        assert(all.take(i + 1).drop_last() =~= all.take(i as int));
        assert(all.take(i + 1).last() == from@[i as int]@);
        if !contains_text(into, from[i].as_str()) {
            let ghost before = into@;
            into.push(from[i].clone());
            assert(texts(into@) =~= texts(before).push(from@[i as int]@));
        }
        i = i + 1;
    }
    assert(texts(from@).take(i as int) =~= texts(from@));
}

/// A union keeps the first list as its beginning, holds every keyword of both
/// lists, and nothing else.
pub proof fn law_keyword_union_holds_both(a: Seq<Seq<char>>, b: Seq<Seq<char>>)
    ensures
        a.is_prefix_of(keyword_union(a, b)),
        forall|k: Seq<char>| #[trigger]
            keyword_union(a, b).contains(k) <==> a.contains(k) || b.contains(k),
    decreases b.len(),
{
    if b.len() > 0 {
        let rest = b.drop_last();
        law_keyword_union_holds_both(a, rest);
        let so_far = keyword_union(a, rest);
        assert(b =~= rest.push(b.last()));
        assert forall|k: Seq<char>| #[trigger] keyword_union(a, b).contains(k) <==> a.contains(k)
            || b.contains(k) by {
            assert(so_far.contains(k) <==> a.contains(k) || rest.contains(k));
            if b.contains(k) {
                let i = choose|i: int| 0 <= i < b.len() && b[i] == k;
                if i < rest.len() {
                    assert(rest[i] == k);
                }
            }
            if rest.contains(k) {
                let i = choose|i: int| 0 <= i < rest.len() && rest[i] == k;
                assert(b[i] == k);
            }
            assert(b[b.len() - 1] == b.last());
            if so_far.contains(k) && !so_far.contains(b.last()) {
                let i = choose|i: int| 0 <= i < so_far.len() && so_far[i] == k;
                assert(so_far.push(b.last())[i] == k);
            }
            if !so_far.contains(b.last()) {
                assert(so_far.push(b.last())[so_far.len() as int] == b.last());
            }
        }
        assert(a.is_prefix_of(keyword_union(a, b))) by {
            assert(a =~= keyword_union(a, b).subrange(0, a.len() as int));
        }
    }
}

/// Merging the same keywords a second time changes nothing.
pub proof fn law_keyword_union_idempotent(a: Seq<Seq<char>>, b: Seq<Seq<char>>)
    ensures
        keyword_union(keyword_union(a, b), b) == keyword_union(a, b),
{
    law_keyword_union_holds_both(a, b);
    lemma_union_of_contained(keyword_union(a, b), b);
}

proof fn lemma_union_of_contained(a: Seq<Seq<char>>, b: Seq<Seq<char>>)
    requires
        forall|k: Seq<char>| #[trigger] b.contains(k) ==> a.contains(k),
    ensures
        keyword_union(a, b) == a,
    decreases b.len(),
{
    if b.len() > 0 {
        assert(b[b.len() - 1] == b.last());
        assert(b.contains(b.last()));
        assert forall|k: Seq<char>| #[trigger] b.drop_last().contains(k) implies a.contains(k) by {
            let i = choose|i: int| 0 <= i < b.drop_last().len() && b.drop_last()[i] == k;
            assert(b[i] == k);
            assert(b.contains(k));
        }
        lemma_union_of_contained(a, b.drop_last());
    }
}

/// What a verdict says about a merge, as far as it is used: facts that only
/// the absorbed memory holds, and a summary of the two together.
#[derive(Clone, Debug)]
pub struct MergeNotes {
    pub novel_facts: Vec<String>,
    pub merged_summary: Option<String>,
}

/// The facts without the white space around them, blank ones left out.
pub open spec fn usable_facts(facts: Seq<Seq<char>>) -> Seq<Seq<char>>
    decreases facts.len(),
{
    if facts.len() == 0 {
        Seq::empty()
    } else {
        let rest = usable_facts(facts.drop_last());
        if trimmed(facts.last()).len() > 0 {
            rest.push(trimmed(facts.last()))
        } else {
            rest
        }
    }
}

/// Trims the facts and leaves out blank ones.
pub fn clean_facts(facts: &Vec<String>) -> (r: Vec<String>)
    ensures
        texts(r@) == usable_facts(texts(facts@)),
{
    let mut r: Vec<String> = Vec::new();
    let mut i: usize = 0;
    assert(texts(r@) =~= usable_facts(texts(facts@).take(0)));
    while i < facts.len()
        invariant
            i <= facts.len(),
            texts(r@) == usable_facts(texts(facts@).take(i as int)),
        decreases facts.len() - i,
    {
        let ghost all = texts(facts@);
        assert(all.take(i + 1).drop_last() =~= all.take(i as int));
        assert(all.take(i + 1).last() == facts@[i as int]@);
        let t: String = trim(facts[i].as_str());
        if !t.as_str().is_empty() {
            let ghost before = r@;
            let ghost tv = t@;
            r.push(t);
            assert(texts(r@) =~= texts(before).push(tv));
        }
        i = i + 1;
    }
    assert(texts(facts@).take(i as int) =~= texts(facts@));
    r
}

/// A text without the white space around it, where anything is left.
pub open spec fn usable_text(s: Option<Seq<char>>) -> Option<Seq<char>> {
    match s {
        Some(t) => if trimmed(t).len() > 0 {
            Some(trimmed(t))
        } else {
            None
        },
        None => None,
    }
}

/// The block appended to a memory that absorbs another.
pub open spec fn provenance(id: Seq<char>, date: Seq<char>, body: Seq<char>) -> Seq<char> {
    "\n\n[merged from "@ + id + " on "@ + date + "]\n"@ + body
}

/// Writes the block appended to a memory that absorbs another.
pub fn provenance_block(id: &str, date: &str, body: &str) -> (r: String)
    ensures
        r@ == provenance(id@, date@, body@),
{
    let mut s: String = "\n\n[merged from ".to_owned();
    s.append(id);
    s.append(" on ");
    s.append(date);
    s.append("]\n");
    s.append(body);
    s
}

/// What is taken over from an absorbed memory: the novel facts where there are
/// any, else the lines that the winner does not have.
pub open spec fn taken_over(winner: Seq<char>, loser: Seq<char>, facts: Seq<Seq<char>>) -> Seq<char> {
    if usable_facts(facts).len() > 0 {
        join(usable_facts(facts), "\n"@)
    } else {
        join(unique_lines(loser, winner), "\n"@)
    }
}

/// The content of a winner after it absorbed a memory.
pub open spec fn absorbed_content(
    winner: Seq<char>,
    loser_id: Seq<char>,
    loser: Seq<char>,
    date: Seq<char>,
    facts: Seq<Seq<char>>,
) -> Seq<char> {
    let body = taken_over(winner, loser, facts);
    if usable_facts(facts).len() > 0 || body.len() > 0 {
        winner + provenance(loser_id, date, body)
    } else {
        winner
    }
}

/// Appends to `winner` what is taken over from the absorbed memory.
pub fn absorb_content(
    winner: &str,
    loser_id: &str,
    loser: &str,
    date: &str,
    facts: &Vec<String>,
) -> (r: String)
    ensures
        r@ == absorbed_content(winner@, loser_id@, loser@, date@, texts(facts@)),
{
    let usable: Vec<String> = clean_facts(facts);
    assert(texts(usable@).len() == usable@.len());
    let mut s: String = winner.to_owned();
    if usable.len() > 0 {
        let body: String = join_strings(&usable, "\n");
        s.append(provenance_block(loser_id, date, body.as_str()).as_str());
    } else {
        let body: String = extract_unique_lines(loser, winner);
        if !body.as_str().is_empty() {
            s.append(provenance_block(loser_id, date, body.as_str()).as_str());
        }
    }
    s
}

/// `a + b + 1`, held at the greatest count.
pub open spec fn combined_count(a: u32, b: u32) -> int {
    if a + b + 1 > u32::MAX {
        u32::MAX as int
    } else {
        a + b + 1
    }
}

/// Whether two memories agree in everything a merge leaves alone.
pub open spec fn same_identity(a: Memory, b: Memory) -> bool {
    &&& a.id@ == b.id@
    &&& a.topic@ == b.topic@
    &&& a.superseded_by == b.superseded_by
    &&& a.canonical_id == b.canonical_id
    &&& texts(a.related_ids@) == texts(b.related_ids@)
    &&& a.status == b.status
    &&& a.cluster_id == b.cluster_id
    &&& a.created_at == b.created_at
}

pub(crate) fn copy_memory(m: &Memory) -> (r: Memory)
    ensures
        same_identity(r, *m),
        r.summary@ == m.summary@,
        r.content@ == m.content@,
        texts(r.keywords@) == texts(m.keywords@),
        r.importance == m.importance,
        r.access_count == m.access_count,
        r.tier == m.tier,
        r.updated_at == m.updated_at,
        r.last_accessed == m.last_accessed,
{
    Memory {
        id: m.id.clone(),
        topic: m.topic.clone(),
        summary: m.summary.clone(),
        content: m.content.clone(),
        keywords: clone_strings(&m.keywords),
        importance: m.importance,
        access_count: m.access_count,
        superseded_by: clone_opt(&m.superseded_by),
        canonical_id: clone_opt(&m.canonical_id),
        related_ids: clone_strings(&m.related_ids),
        status: m.status,
        tier: m.tier,
        cluster_id: m.cluster_id,
        created_at: m.created_at,
        updated_at: m.updated_at,
        last_accessed: m.last_accessed,
    }
}

/// The summary of a merged memory: the verdict's where it is not blank, else
/// the beginning of the content.
pub open spec fn merged_summary(
    notes: Option<Seq<char>>,
    content: Seq<char>,
    max_chars: int,
) -> Seq<char> {
    match usable_text(notes) {
        Some(s) => s,
        None => prefix(content, max_chars),
    }
}

/// What a memory is after it absorbed another, but for the floating-point
/// scores and the layer that follows from its importance.
pub open spec fn is_merge_of(
    r: Memory,
    winner: Memory,
    loser: Memory,
    facts: Seq<Seq<char>>,
    summary: Option<Seq<char>>,
    now: Timestamp,
    max_chars: int,
) -> bool {
    &&& same_identity(r, winner)
    &&& r.content@ == absorbed_content(
        winner.content@,
        loser.id@,
        loser.content@,
        formatted(loser.created_at, "%Y-%m-%d"@),
        facts,
    )
    &&& r.summary@ == merged_summary(summary, r.content@, max_chars)
    &&& texts(r.keywords@) == keyword_union(texts(winner.keywords@), texts(loser.keywords@))
    &&& r.access_count == combined_count(winner.access_count, loser.access_count)
    &&& r.importance == higher_importance(winner.importance, loser.importance)
    &&& r.tier == hotter(winner.tier, loser.tier)
    &&& r.last_accessed == later_of(winner.last_accessed, loser.last_accessed)
    &&& r.updated_at == now
}

/// The winner once it has absorbed `loser`: what only the loser says is appended
/// under a provenance marker, and keywords, counts, importance, tier and access
/// time are combined.
pub fn absorb_memory(
    winner: &Memory,
    loser: &Memory,
    notes: &MergeNotes,
    now: Timestamp,
    summary_max_chars: usize,
) -> (r: Memory)
    ensures
        is_merge_of(
            r,
            *winner,
            *loser,
            texts(notes.novel_facts@),
            opt_text(notes.merged_summary),
            now,
            summary_max_chars as int,
        ),
{
    let mut m: Memory = copy_memory(winner);
    let date: String = format_date(&loser.created_at);
    m.content = absorb_content(
        winner.content.as_str(),
        loser.id.as_str(),
        loser.content.as_str(),
        date.as_str(),
        &notes.novel_facts,
    );
    merge_keywords(&mut m.keywords, &loser.keywords);
    m.access_count = winner.access_count.saturating_add(loser.access_count).saturating_add(1);
    m.importance = winner.importance.greater(loser.importance);
    m.tier = stronger_tier(winner.tier, loser.tier);
    m.last_accessed = winner.last_accessed.latest(&loser.last_accessed);
    m.updated_at = now;
    let own: Option<String> = match &notes.merged_summary {
        Some(s) => {
            let t: String = trim(s.as_str());
            if t.as_str().is_empty() {
                None
            } else {
                Some(t)
            }
        },
        None => None,
    };
    m.summary = match own {
        Some(s) => s,
        None => take_chars(m.content.as_str(), summary_max_chars),
    };
    m
}

/// Whether a memory is as it was, but superseded by another.
pub open spec fn is_superseded(r: Memory, m: Memory, winner_id: Seq<char>) -> bool {
    &&& opt_text(r.superseded_by) == Some(winner_id)
    &&& r == Memory { superseded_by: r.superseded_by, ..m }
}

/// Whether a merge into the stored winner ended as it should: the loser is merged
/// and superseded, or, where the winner is gone, nothing changed.
pub open spec fn is_merge_outcome(
    r: Result<Memory, OpsError>,
    after: Memory,
    winner: Option<&Memory>,
    winner_id: Seq<char>,
    loser: Memory,
    notes: MergeNotes,
    now: Timestamp,
    max_chars: int,
) -> bool {
    match winner {
        None => {
            &&& r matches Err(e)
            &&& is_not_found(e, "memory '"@ + winner_id + "' not found"@)
            &&& after == loser
        },
        Some(w) => {
            &&& r matches Ok(m)
            &&& is_merge_of(
                m,
                *w,
                loser,
                texts(notes.novel_facts@),
                opt_text(notes.merged_summary),
                now,
                max_chars,
            )
            &&& is_superseded(after, loser, winner_id)
        },
    }
}

/// Merges `loser` into the stored winner, and marks it as superseded by it; it
/// is not deleted. Where the winner is gone nothing changes.
pub fn merge_memory_into_winner(
    winner: Option<&Memory>,
    winner_id: &str,
    loser: &mut Memory,
    notes: &MergeNotes,
    now: Timestamp,
    summary_max_chars: usize,
) -> (r: Result<Memory, OpsError>)
    ensures
        is_merge_outcome(
            r,
            *final(loser),
            winner,
            winner_id@,
            *old(loser),
            *notes,
            now,
            summary_max_chars as int,
        ),
{
    match winner {
        None => {
            let mut s: String = "memory '".to_owned();
            s.append(winner_id);
            s.append("' not found");
            Err(not_found(s))
        },
        Some(w) => {
            let merged: Memory = absorb_memory(w, loser, notes, now, summary_max_chars);
            loser.superseded_by = Some(winner_id.to_owned());
            Ok(merged)
        },
    }
}

/// What a memory is after the batch scan merged a duplicate into it. What is
/// taken over was found against the content as the scan saw it; the summary
/// stays, and the merge counts as an access.
pub open spec fn is_batch_merge_of(
    r: Memory,
    winner: Memory,
    seen_content: Seq<char>,
    loser: Memory,
    now: Timestamp,
) -> bool {
    let body = join(unique_lines(loser.content@, seen_content), "\n"@);
    &&& same_identity(r, winner)
    &&& r.content@ == (if body.len() > 0 {
        winner.content@ + provenance(loser.id@, formatted(loser.created_at, "%Y-%m-%d"@), body)
    } else {
        winner.content@
    })
    &&& r.summary@ == winner.summary@
    &&& texts(r.keywords@) == keyword_union(texts(winner.keywords@), texts(loser.keywords@))
    &&& r.access_count == combined_count(winner.access_count, loser.access_count)
    &&& r.importance == higher_importance(winner.importance, loser.importance)
    &&& r.tier == hotter(winner.tier, loser.tier)
    &&& r.last_accessed == now
    &&& r.updated_at == now
}

/// Merges a duplicate that the batch scan found into the stored winner.
pub fn merge_batch_duplicate(
    winner: &Memory,
    seen_content: &str,
    loser: &Memory,
    now: Timestamp,
) -> (r: Memory)
    ensures
        is_batch_merge_of(r, *winner, seen_content@, *loser, now),
{
    let mut m: Memory = copy_memory(winner);
    let body: String = extract_unique_lines(loser.content.as_str(), seen_content);
    if !body.as_str().is_empty() {
        let date: String = format_date(&loser.created_at);
        m.content.append(
            provenance_block(loser.id.as_str(), date.as_str(), body.as_str()).as_str(),
        );
    }
    merge_keywords(&mut m.keywords, &loser.keywords);
    m.access_count = winner.access_count.saturating_add(loser.access_count).saturating_add(1);
    m.importance = winner.importance.greater(loser.importance);
    m.tier = stronger_tier(winner.tier, loser.tier);
    m.last_accessed = now;
    m.updated_at = now;
    m
}

/// What a memory is after the vector sweep merged a near-identical one into it.
pub open spec fn is_vector_merge_of(
    r: Memory,
    kept: Memory,
    discarded: Memory,
    discarded_content: Seq<char>,
    date: Seq<char>,
    now: Timestamp,
    max_chars: int,
) -> bool {
    let body = join(unique_lines(discarded_content, kept.content@), "\n"@);
    &&& same_identity(r, kept)
    &&& r.content@ == (if body.len() > 0 {
        kept.content@ + provenance(discarded.id@, date, body)
    } else {
        kept.content@
    })
    &&& r.summary@ == prefix(r.content@, max_chars)
    &&& texts(r.keywords@) == keyword_union(texts(kept.keywords@), texts(discarded.keywords@))
    &&& r.access_count == combined_count(kept.access_count, discarded.access_count)
    &&& r.importance == higher_importance(kept.importance, discarded.importance)
    &&& r.tier == hotter(kept.tier, discarded.tier)
    &&& r.last_accessed == later_of(kept.last_accessed, discarded.last_accessed)
    &&& r.updated_at == now
}

/// Merges a near-identical memory into the one the vector sweep keeps.
pub fn merge_vector_duplicate(
    kept: &Memory,
    discarded: &Memory,
    discarded_content: &str,
    date: &str,
    now: Timestamp,
    summary_max_chars: usize,
) -> (r: Memory)
    ensures
        is_vector_merge_of(
            r,
            *kept,
            *discarded,
            discarded_content@,
            date@,
            now,
            summary_max_chars as int,
        ),
{
    let mut m: Memory = copy_memory(kept);
    let body: String = extract_unique_lines(discarded_content, kept.content.as_str());
    if !body.as_str().is_empty() {
        m.content.append(provenance_block(discarded.id.as_str(), date, body.as_str()).as_str());
    }
    merge_keywords(&mut m.keywords, &discarded.keywords);
    m.access_count = kept.access_count.saturating_add(discarded.access_count).saturating_add(1);
    m.importance = kept.importance.greater(discarded.importance);
    m.tier = stronger_tier(kept.tier, discarded.tier);
    m.last_accessed = kept.last_accessed.latest(&discarded.last_accessed);
    m.summary = take_chars(m.content.as_str(), summary_max_chars);
    m.updated_at = now;
    m
}

} // verus!
