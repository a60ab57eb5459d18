//! What a merge keeps: no line of either memory is lost, and merging the same
//! memory again adds nothing.

use crate::dedup::merge::{
    absorbed_content, has_line, is_batch_merge_of, is_merge_marker, is_unique_line,
    is_vector_merge_of, line_key, provenance, taken_over, unique_lines, usable_facts,
};
use crate::dedup::resolve::facts_taken_over;
use crate::text::{is_whitespace, join, lines, lowercase, split_on, strip_cr, trimmed};
use crate::time::{Timestamp, formatted};
use crate::types::Memory;
use vstd::prelude::*;
use vstd::string::*;

verus! {

/// Whether a line is content: neither blank nor a marker of an earlier merge.
pub open spec fn is_content_line(line: Seq<char>) -> bool {
    trimmed(line).len() > 0 && !is_merge_marker(trimmed(line))
}

spec fn one_line(s: Seq<char>) -> bool {
    forall|i: int| 0 <= i < s.len() ==> s[i] != '\n'
}

proof fn lemma_pieces_are_lines(s: Seq<char>)
    ensures
        split_on(s, '\n').len() > 0,
        forall|i: int|
            0 <= i < split_on(s, '\n').len() ==> one_line(#[trigger] split_on(s, '\n')[i]),
    decreases s.len(),
{
    if s.len() > 0 {
        lemma_pieces_are_lines(s.drop_last());
        let before = split_on(s.drop_last(), '\n');
        assert forall|i: int| 0 <= i < split_on(s, '\n').len() implies one_line(
            #[trigger] split_on(s, '\n')[i],
        ) by {
            if i < before.len() {
                assert(one_line(before[i]));
            }
        }
    }
}

proof fn lemma_split_of_line(s: Seq<char>)
    requires
        one_line(s),
    ensures
        split_on(s, '\n') =~= seq![s],
    decreases s.len(),
{
    if s.len() > 0 {
        assert(one_line(s.drop_last()));
        lemma_split_of_line(s.drop_last());
        assert(s.last() != '\n');
        assert(s.drop_last().push(s.last()) =~= s);
    } else {
        assert(s =~= Seq::empty());
    }
}

proof fn lemma_split_concat(a: Seq<char>, b: Seq<char>)
    ensures
        split_on(a + seq!['\n'] + b, '\n') =~= split_on(a, '\n') + split_on(b, '\n'),
    decreases b.len(),
{
    let s = a + seq!['\n'] + b;
    lemma_pieces_are_lines(a);
    lemma_pieces_are_lines(b);
    if b.len() == 0 {
        assert(s.drop_last() =~= a);
    } else {
        lemma_split_concat(a, b.drop_last());
        lemma_pieces_are_lines(b.drop_last());
        assert(s.drop_last() =~= a + seq!['\n'] + b.drop_last());
    }
}

proof fn lemma_split_of_join(parts: Seq<Seq<char>>)
    requires
        parts.len() > 0,
        forall|i: int| 0 <= i < parts.len() ==> one_line(#[trigger] parts[i]),
    ensures
        split_on(join(parts, "\n"@), '\n') =~= parts,
    decreases parts.len(),
{
    reveal_strlit("\n");
    assert("\n"@ =~= seq!['\n']);
    if parts.len() == 1 {
        assert(one_line(parts[0]));
        lemma_split_of_line(parts[0]);
    } else {
        let front = parts.drop_last();
        assert forall|i: int| 0 <= i < front.len() implies one_line(#[trigger] front[i]) by {
            assert(one_line(parts[i]));
        }
        lemma_split_of_join(front);
        lemma_split_concat(join(front, "\n"@), parts.last());
        assert(one_line(parts[parts.len() - 1]));
        lemma_split_of_line(parts.last());
    }
}

proof fn lemma_trim_ignores_cr(s: Seq<char>)
    ensures
        trimmed(strip_cr(s)) == trimmed(s),
    decreases s.len(),
{
    if s.len() > 0 && s.last() == '\r' {
        let front = s.drop_last();
        assert(is_whitespace('\r'));
        if is_whitespace(s[0]) {
            if s.len() > 1 {
                assert(front[0] == s[0]);
                assert(s.skip(1).last() == '\r');
                assert(s.skip(1).drop_last() =~= front.skip(1));
                lemma_trim_ignores_cr(s.skip(1));
            } else {
                assert(s.skip(1) =~= front);
            }
        }
    }
}

proof fn lemma_line_is_piece(s: Seq<char>, k: int)
    requires
        0 <= k < lines(s).len(),
    ensures
        k < split_on(s, '\n').len(),
        trimmed(lines(s)[k]) == trimmed(split_on(s, '\n')[k]),
        one_line(lines(s)[k]),
{
    lemma_pieces_are_lines(s);
    let p = split_on(s, '\n')[k];
    assert(one_line(p));
    lemma_trim_ignores_cr(p);
}

proof fn lemma_piece_is_line(s: Seq<char>, i: int)
    requires
        0 <= i < split_on(s, '\n').len(),
        trimmed(split_on(s, '\n')[i]).len() > 0,
    ensures
        has_line(s, line_key(split_on(s, '\n')[i])),
{
    lemma_pieces_are_lines(s);
    let p = split_on(s, '\n');
    lemma_trim_ignores_cr(p[i]);
    if p.last().len() == 0 {
        assert(trimmed(p.last()).len() == 0);
    }
    assert(i < lines(s).len());
    assert(line_key(lines(s)[i]) == line_key(p[i]));
}

/// The block without its first line end and with its last: a blank line and the
/// marker.
spec fn marker(id: Seq<char>, date: Seq<char>) -> Seq<char> {
    seq!['\n'] + "[merged from "@ + id + " on "@ + date + "]"@
}

proof fn lemma_block(winner: Seq<char>, id: Seq<char>, date: Seq<char>, body: Seq<char>)
    ensures
        winner + provenance(id, date, body) =~= winner + seq!['\n'] + (marker(id, date) + seq![
            '\n',
        ] + body),
{
    reveal_strlit("\n\n[merged from ");
    reveal_strlit("[merged from ");
    reveal_strlit("]\n");
    reveal_strlit("]");
    assert("\n\n[merged from "@ =~= seq!['\n', '\n'] + "[merged from "@);
    assert("]\n"@ =~= "]"@ + seq!['\n']);
}

proof fn lemma_pieces_of_block(winner: Seq<char>, id: Seq<char>, date: Seq<char>, body: Seq<char>)
    ensures
        split_on(winner + provenance(id, date, body), '\n') =~= split_on(winner, '\n') + (split_on(
            marker(id, date),
            '\n',
        ) + split_on(body, '\n')),
{
    lemma_block(winner, id, date, body);
    lemma_split_concat(winner, marker(id, date) + seq!['\n'] + body);
    lemma_split_concat(marker(id, date), body);
}

proof fn lemma_unique_lines(source: Seq<char>, target: Seq<char>, line: Seq<char>)
    ensures
        unique_lines(source, target).contains(line) <==> lines(source).contains(line)
            && is_unique_line(line, target),
{
    let p = |line: Seq<char>| is_unique_line(line, target);
    if unique_lines(source, target).contains(line) {
        lines(source).lemma_filter_contains_rev(p, line);
    }
    assert forall|k: int| 0 <= k < lines(source).len() && p(lines(source)[k]) implies lines(
        source,
    ).filter(p).contains(#[trigger] lines(source)[k]) by {
        lemma_filter_keeps(lines(source), p, k);
    }
}

pub(crate) proof fn lemma_filter_keeps(s: Seq<Seq<char>>, p: spec_fn(Seq<char>) -> bool, k: int)
    requires
        0 <= k < s.len(),
        p(s[k]),
    ensures
        s.filter(p).contains(s[k]),
    decreases s.len(),
{
    reveal(Seq::filter);
    let rest = s.drop_last().filter(p);
    if k < s.len() - 1 {
        lemma_filter_keeps(s.drop_last(), p, k);
        assert(s.drop_last()[k] == s[k]);
        let j = choose|j: int| 0 <= j < rest.len() && rest[j] == s[k];
        assert(s.filter(p)[j] == s[k]);
    } else {
        assert(s.filter(p)[s.filter(p).len() - 1] == s[k]);
    }
}

proof fn lemma_join_is_longer(parts: Seq<Seq<char>>, sep: Seq<char>)
    requires
        parts.len() > 0,
    ensures
        join(parts, sep).len() >= parts[0].len(),
    decreases parts.len(),
{
    if parts.len() > 1 {
        lemma_join_is_longer(parts.drop_last(), sep);
    }
}

pub(crate) proof fn lemma_body_empty(source: Seq<char>, target: Seq<char>)
    ensures
        join(unique_lines(source, target), "\n"@).len() == 0 <==> unique_lines(
            source,
            target,
        ).len() == 0,
{
    let u = unique_lines(source, target);
    if u.len() > 0 {
        assert(u.contains(u[0]));
        lemma_unique_lines(source, target, u[0]);
        if u[0].len() == 0 {
            assert(trimmed(u[0]).len() == 0);
        }
        lemma_join_is_longer(u, "\n"@);
    }
}

/// Law: every line of the winner that is not blank is still there after it
/// absorbed a memory, whatever is taken over.
pub proof fn law_merge_keeps_winner_lines(
    winner: Seq<char>,
    id: Seq<char>,
    loser: Seq<char>,
    date: Seq<char>,
    facts: Seq<Seq<char>>,
    line: Seq<char>,
)
    requires
        lines(winner).contains(line),
        trimmed(line).len() > 0,
    ensures
        has_line(absorbed_content(winner, id, loser, date, facts), line_key(line)),
{
    let k = choose|k: int| 0 <= k < lines(winner).len() && lines(winner)[k] == line;
    lemma_line_is_piece(winner, k);
    let body = taken_over(winner, loser, facts);
    if usable_facts(facts).len() > 0 || body.len() > 0 {
        lemma_pieces_of_block(winner, id, date, body);
        let after = winner + provenance(id, date, body);
        assert(split_on(after, '\n')[k] == split_on(winner, '\n')[k]);
        lemma_piece_is_line(after, k);
    } else {
        assert(line_key(lines(winner)[k]) == line_key(line));
    }
}

/// Law: where no judge's facts stand in for them, every content line of an
/// absorbed memory is in the winner afterwards.
pub proof fn law_merge_loses_no_line(
    winner: Seq<char>,
    id: Seq<char>,
    loser: Seq<char>,
    date: Seq<char>,
    facts: Seq<Seq<char>>,
    line: Seq<char>,
)
    requires
        usable_facts(facts).len() == 0,
        lines(loser).contains(line),
        is_content_line(line),
    ensures
        has_line(absorbed_content(winner, id, loser, date, facts), line_key(line)),
{
    let u = unique_lines(loser, winner);
    let body = join(u, "\n"@);
    lemma_body_empty(loser, winner);
    lemma_unique_lines(loser, winner, line);
    if has_line(winner, line_key(line)) {
        let k = choose|k: int|
            0 <= k < lines(winner).len() && line_key(#[trigger] lines(winner)[k]) == line_key(line);
        if body.len() > 0 {
            lemma_line_is_piece(winner, k);
            lemma_pieces_of_block(winner, id, date, body);
            let after = winner + provenance(id, date, body);
            let p = split_on(after, '\n');
            assert(p[k] == split_on(winner, '\n')[k]);
            lemma_pieces_are_lines(body);
            lemma_kept_key(after, k, line);
        }
    } else {
        assert(u.contains(line));
        let j = choose|j: int| 0 <= j < u.len() && u[j] == line;
        assert forall|i: int| 0 <= i < u.len() implies one_line(#[trigger] u[i]) by {
            assert(u.contains(u[i]));
            lemma_unique_lines(loser, winner, u[i]);
            let q = choose|q: int| 0 <= q < lines(loser).len() && lines(loser)[q] == u[i];
            lemma_line_is_piece(loser, q);
        }
        lemma_split_of_join(u);
        lemma_pieces_of_block(winner, id, date, body);
        let after = winner + provenance(id, date, body);
        let at = split_on(winner, '\n').len() + split_on(marker(id, date), '\n').len() + j;
        assert(split_on(after, '\n')[at] == line);
        lemma_piece_is_line(after, at);
    }
}

/// A piece of a text that keeps the key of a content line is a line of the text,
/// also where the key comes from a blank line: then it stands before the end.
proof fn lemma_kept_key(after: Seq<char>, k: int, line: Seq<char>)
    requires
        0 <= k < split_on(after, '\n').len() - 1,
        line_key(split_on(after, '\n')[k]) == line_key(line),
    ensures
        has_line(after, line_key(line)),
{
    lemma_pieces_are_lines(after);
    let p = split_on(after, '\n');
    lemma_trim_ignores_cr(p[k]);
    assert(line_key(lines(after)[k]) == line_key(p[k]));
}

/// Law: merging the same memory a second time adds nothing.
pub proof fn law_second_merge_adds_nothing(
    winner: Seq<char>,
    id: Seq<char>,
    loser: Seq<char>,
    date: Seq<char>,
    facts: Seq<Seq<char>>,
)
    requires
        usable_facts(facts).len() == 0,
    ensures
        ({
            let once = absorbed_content(winner, id, loser, date, facts);
            &&& unique_lines(loser, once).len() == 0
            &&& absorbed_content(once, id, loser, date, facts) == once
        }),
{
    let once = absorbed_content(winner, id, loser, date, facts);
    let again = unique_lines(loser, once);
    if again.len() > 0 {
        let line = again[0];
        assert(again.contains(line));
        lemma_unique_lines(loser, once, line);
        law_merge_loses_no_line(winner, id, loser, date, facts, line);
    }
    lemma_body_empty(loser, once);
}

/// Law: once the lines that only the source has are appended to a text, the
/// source has no such line any more.
pub proof fn law_appended_lines_are_found_again(source: Seq<char>, target: Seq<char>)
    ensures
        unique_lines(
            source,
            target + "\n"@ + join(unique_lines(source, target), "\n"@),
        ).len() == 0,
{
    reveal_strlit("\n");
    assert("\n"@ =~= seq!['\n']);
    let u = unique_lines(source, target);
    let body = join(u, "\n"@);
    let after = target + "\n"@ + body;
    let again = unique_lines(source, after);
    lemma_split_concat(target, body);
    lemma_pieces_are_lines(body);
    if again.len() > 0 {
        let line = again[0];
        assert(again.contains(line));
        lemma_unique_lines(source, after, line);
        lemma_unique_lines(source, target, line);
        if has_line(target, line_key(line)) {
            let k = choose|k: int|
                0 <= k < lines(target).len() && line_key(#[trigger] lines(target)[k]) == line_key(
                    line,
                );
            lemma_line_is_piece(target, k);
            assert(split_on(after, '\n')[k] == split_on(target, '\n')[k]);
            lemma_kept_key(after, k, line);
        } else {
            assert(u.contains(line));
            let j = choose|j: int| 0 <= j < u.len() && u[j] == line;
            assert forall|i: int| 0 <= i < u.len() implies one_line(#[trigger] u[i]) by {
                assert(u.contains(u[i]));
                lemma_unique_lines(source, target, u[i]);
                let q = choose|q: int| 0 <= q < lines(source).len() && lines(source)[q] == u[i];
                lemma_line_is_piece(source, q);
            }
            lemma_split_of_join(u);
            let at = split_on(target, '\n').len() + j;
            assert(split_on(after, '\n')[at] == line);
            lemma_piece_is_line(after, at);
        }
    }
}

/// Law: a memory that the batch scan merged away leaves every content line in the
/// winner, as long as the stored winner still has those of these lines that it
/// had when the scan read it, which earlier merges of the same scan do not change;
/// and the winner keeps its own lines in any case.
pub proof fn law_batch_merge_loses_no_line(
    r: Memory,
    winner: Memory,
    seen_content: Seq<char>,
    loser: Memory,
    now: Timestamp,
    line: Seq<char>,
)
    requires
        is_batch_merge_of(r, winner, seen_content, loser, now),
    ensures
        (has_line(seen_content, line_key(line)) ==> has_line(winner.content@, line_key(line)))
            && lines(loser.content@).contains(line) && is_content_line(line) ==> has_line(
            r.content@,
            line_key(line),
        ),
        lines(winner.content@).contains(line) && trimmed(line).len() > 0 ==> has_line(
            r.content@,
            line_key(line),
        ),
{
    let date = formatted(loser.created_at, "%Y-%m-%d"@);
    let u = unique_lines(loser.content@, seen_content);
    let body = join(u, "\n"@);
    lemma_body_empty(loser.content@, seen_content);
    lemma_unique_lines(loser.content@, seen_content, line);
    if body.len() > 0 {
        lemma_pieces_of_block(winner.content@, loser.id@, date, body);
        lemma_pieces_are_lines(body);
    }
    if has_line(winner.content@, line_key(line)) {
        let k = choose|k: int|
            0 <= k < lines(winner.content@).len() && line_key(#[trigger] lines(winner.content@)[k])
                == line_key(line);
        if body.len() > 0 {
            lemma_line_is_piece(winner.content@, k);
            assert(split_on(r.content@, '\n')[k] == split_on(winner.content@, '\n')[k]);
            lemma_kept_key(r.content@, k, line);
        }
    } else if u.contains(line) {
        let j = choose|j: int| 0 <= j < u.len() && u[j] == line;
        assert forall|i: int| 0 <= i < u.len() implies one_line(#[trigger] u[i]) by {
            assert(u.contains(u[i]));
            lemma_unique_lines(loser.content@, seen_content, u[i]);
            let q = choose|q: int|
                0 <= q < lines(loser.content@).len() && lines(loser.content@)[q] == u[i];
            lemma_line_is_piece(loser.content@, q);
        }
        lemma_split_of_join(u);
        let at = split_on(winner.content@, '\n').len() + split_on(marker(loser.id@, date), '\n').len()
            + j;
        assert(split_on(r.content@, '\n')[at] == line);
        lemma_piece_is_line(r.content@, at);
    }
    if lines(winner.content@).contains(line) {
        let k = choose|k: int|
            0 <= k < lines(winner.content@).len() && lines(winner.content@)[k] == line;
        assert(line_key(lines(winner.content@)[k]) == line_key(line));
    }
}

/// Law: a memory that the vector sweep merged away leaves every content line in
/// the one that is kept, which keeps its own lines too.
pub proof fn law_vector_merge_loses_no_line(
    r: Memory,
    kept: Memory,
    discarded: Memory,
    discarded_content: Seq<char>,
    date: Seq<char>,
    now: Timestamp,
    max_chars: int,
    line: Seq<char>,
)
    requires
        is_vector_merge_of(r, kept, discarded, discarded_content, date, now, max_chars),
    ensures
        lines(discarded_content).contains(line) && is_content_line(line) ==> has_line(
            r.content@,
            line_key(line),
        ),
        lines(kept.content@).contains(line) && trimmed(line).len() > 0 ==> has_line(
            r.content@,
            line_key(line),
        ),
{
    let none = Seq::<Seq<char>>::empty();
    assert(usable_facts(none).len() == 0);
    assert(r.content@ == absorbed_content(
        kept.content@,
        discarded.id@,
        discarded_content,
        date,
        none,
    ));
    if lines(discarded_content).contains(line) && is_content_line(line) {
        law_merge_loses_no_line(
            kept.content@,
            discarded.id@,
            discarded_content,
            date,
            none,
            line,
        );
    }
    if lines(kept.content@).contains(line) && trimmed(line).len() > 0 {
        law_merge_keeps_winner_lines(
            kept.content@,
            discarded.id@,
            discarded_content,
            date,
            none,
            line,
        );
    }
}

proof fn lemma_usable_fact(facts: Seq<Seq<char>>, k: int)
    requires
        0 <= k < facts.len(),
        trimmed(facts[k]).len() > 0,
    ensures
        usable_facts(facts).contains(trimmed(facts[k])),
    decreases facts.len(),
{
    let rest = usable_facts(facts.drop_last());
    if k < facts.len() - 1 {
        assert(facts.drop_last()[k] == facts[k]);
        lemma_usable_fact(facts.drop_last(), k);
        let q = choose|q: int| 0 <= q < rest.len() && rest[q] == trimmed(facts[k]);
        assert(usable_facts(facts)[q] == trimmed(facts[k]));
    } else {
        assert(usable_facts(facts).last() == trimmed(facts[k]));
    }
}

/// The record of a batch merge names each content line of the loser that the winner
/// did not have.
pub proof fn law_record_names_each_new_line(loser: Seq<char>, winner: Seq<char>, line: Seq<char>)
    requires
        lines(loser).contains(line),
        trimmed(line).len() > 0,
        !"[merged from "@.is_prefix_of(trimmed(line)),
        !"[merged on "@.is_prefix_of(trimmed(line)),
        forall|i: int|
            0 <= i < lines(winner).len() ==> lowercase(trimmed(#[trigger] lines(winner)[i]))
                != lowercase(trimmed(line)),
    ensures
        facts_taken_over(loser, winner).contains(trimmed(line)),
{
    let u = unique_lines(loser, winner);
    let s = join(u, "\n"@);
    assert(is_unique_line(line, winner));
    lemma_unique_lines(loser, winner, line);
    assert forall|i: int| 0 <= i < u.len() implies one_line(#[trigger] u[i]) && trimmed(u[i]).len()
        > 0 by {
        assert(u.contains(u[i]));
        lemma_unique_lines(loser, winner, u[i]);
        let q = choose|q: int| 0 <= q < lines(loser).len() && lines(loser)[q] == u[i];
        lemma_line_is_piece(loser, q);
    }
    lemma_split_of_join(u);
    let k = choose|k: int| 0 <= k < u.len() && u[k] == line;
    assert(trimmed(u.last()).len() > 0);
    lemma_line_is_piece(s, k);
    lemma_usable_fact(lines(s), k);
}

} // verus!
