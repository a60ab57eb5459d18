//! What the basic operations on texts, instants and ranks are for, said without
//! the recursion that computes them.

use crate::error::{OpsErrorKind, http_status};
use crate::json::{
    FieldView, bool_member, entry_lines, member, signed_member, text_member, unsigned_member,
};
use crate::llm::{ExtractorKind, Provider, ResolvedLlm, is_extractor_for, model_name};
use crate::text::{
    bool_text, decimal, digit, is_whitespace, join, lines, list_items, occurrences, prefix,
    signed_decimal, split_on, strip_cr, text_or, trim_end, trim_start, trimmed,
};
use crate::time::{Timestamp, earlier, later_of, older_than, span_secs, whole_seconds};
use crate::types::{Importance, MemoryTier, higher_importance, hotter};
use vstd::prelude::*;

verus! {

/// White space is the tab to the carriage return, the blank, and the other
/// blanks and separators of Unicode.
pub proof fn law_white_space(c: char)
    ensures
        is_whitespace(c) <==> '\u{9}' <= c <= '\u{d}' || c == ' ' || c == '\u{85}' || c == '\u{a0}'
            || c == '\u{1680}' || '\u{2000}' <= c <= '\u{200a}' || c == '\u{2028}' || c
            == '\u{2029}' || c == '\u{202f}' || c == '\u{205f}' || c == '\u{3000}',
{
}

/// Whether `r` is what stands from `i` to `j`, with nothing but white space
/// outside and none at its ends.
pub open spec fn cut_out(s: Seq<char>, r: Seq<char>, i: int, j: int) -> bool {
    &&& 0 <= i <= j <= s.len()
    &&& r == s.subrange(i, j)
    &&& forall|k: int| 0 <= k < i ==> is_whitespace(#[trigger] s[k])
    &&& forall|k: int| j <= k < s.len() ==> is_whitespace(#[trigger] s[k])
    &&& r.len() > 0 ==> !is_whitespace(r[0]) && !is_whitespace(r.last())
}

proof fn lemma_trim_start(s: Seq<char>) -> (i: int)
    ensures
        0 <= i <= s.len(),
        trim_start(s) == s.skip(i),
        forall|k: int| 0 <= k < i ==> is_whitespace(#[trigger] s[k]),
        i < s.len() ==> !is_whitespace(s[i]),
    decreases s.len(),
{
    if s.len() > 0 && is_whitespace(s[0]) {
        let i = lemma_trim_start(s.skip(1));
        assert(s.skip(1).skip(i) =~= s.skip(i + 1));
        assert forall|k: int| 0 <= k < i + 1 implies is_whitespace(#[trigger] s[k]) by {
            if k > 0 {
                assert(s[k] == s.skip(1)[k - 1]);
            }
        }
        if i + 1 < s.len() {
            assert(s[i + 1] == s.skip(1)[i]);
        }
        i + 1
    } else {
        assert(s.skip(0) =~= s);
        0
    }
}

proof fn lemma_trim_end(s: Seq<char>) -> (j: int)
    ensures
        0 <= j <= s.len(),
        trim_end(s) == s.take(j),
        forall|k: int| j <= k < s.len() ==> is_whitespace(#[trigger] s[k]),
        j > 0 ==> !is_whitespace(s[j - 1]),
    decreases s.len(),
{
    if s.len() > 0 && is_whitespace(s.last()) {
        let j = lemma_trim_end(s.drop_last());
        assert(s.drop_last().take(j) =~= s.take(j));
        assert forall|k: int| j <= k < s.len() implies is_whitespace(#[trigger] s[k]) by {
            if k < s.len() - 1 {
                assert(s[k] == s.drop_last()[k]);
            }
        }
        if j > 0 {
            assert(s[j - 1] == s.drop_last()[j - 1]);
        }
        j
    } else {
        assert(s.take(s.len() as int) =~= s);
        s.len() as int
    }
}

/// Trimming cuts off the white space at both ends and nothing else.
pub proof fn law_trimmed(s: Seq<char>)
    ensures
        exists|i: int, j: int| #[trigger] cut_out(s, trimmed(s), i, j),
{
    let i = lemma_trim_start(s);
    let t = s.skip(i);
    let j = lemma_trim_end(t);
    let r = trimmed(s);
    assert(r =~= s.subrange(i, i + j));
    assert forall|k: int| i + j <= k < s.len() implies is_whitespace(#[trigger] s[k]) by {
        assert(s[k] == t[k - i]);
    }
    if r.len() > 0 {
        assert(r[0] == s[i]);
        assert(r.last() == t[j - 1]);
    }
    assert(cut_out(s, r, i, i + j));
}

/// A text is its pieces with the separator between them, and no piece holds the
/// separator.
pub proof fn law_split_and_join(s: Seq<char>, sep: char)
    ensures
        split_on(s, sep).len() > 0,
        join(split_on(s, sep), seq![sep]) == s,
        forall|i: int|
            0 <= i < split_on(s, sep).len() ==> !(#[trigger] split_on(s, sep)[i]).contains(sep),
    decreases s.len(),
{
    if s.len() == 0 {
        assert(join(split_on(s, sep), seq![sep]) =~= s);
    } else {
        let front = s.drop_last();
        law_split_and_join(front, sep);
        let before = split_on(front, sep);
        let after = split_on(s, sep);
        assert(front.push(s.last()) =~= s);
        if s.last() == sep {
            assert(after.drop_last() =~= before);
            assert(join(after, seq![sep]) =~= join(before, seq![sep]) + seq![sep]
                + Seq::<char>::empty());
            assert(join(after, seq![sep]) =~= s);
            assert forall|i: int| 0 <= i < after.len() implies !(#[trigger] after[i]).contains(
                sep,
            ) by {
                if i < before.len() {
                    assert(after[i] == before[i]);
                }
            }
        } else {
            let n = before.len() - 1;
            assert(after.drop_last() =~= before.drop_last());
            if before.len() == 1 {
                assert(join(after, seq![sep]) =~= join(before, seq![sep]).push(s.last()));
            } else {
                assert(join(after, seq![sep]) =~= join(before, seq![sep]).push(s.last()));
            }
            assert forall|i: int| 0 <= i < after.len() implies !(#[trigger] after[i]).contains(
                sep,
            ) by {
                if i < n {
                    assert(after[i] == before[i]);
                } else {
                    let piece = after[i];
                    assert(!before[n].contains(sep));
                    if piece.contains(sep) {
                        let k = choose|k: int| 0 <= k < piece.len() && piece[k] == sep;
                        if k < before[n].len() {
                            assert(before[n][k] == sep);
                        }
                    }
                }
            }
        }
    }
}

/// A line loses one carriage return at its end, and nothing else.
pub proof fn law_strip_cr(s: Seq<char>)
    ensures
        s.len() > 0 && s.last() == '\r' ==> strip_cr(s).push('\r') == s,
        s.len() == 0 || s.last() != '\r' ==> strip_cr(s) == s,
{
    if s.len() > 0 && s.last() == '\r' {
        assert(strip_cr(s).push('\r') =~= s);
    }
}

proof fn lemma_split_without(s: Seq<char>, sep: char)
    requires
        !s.contains(sep),
    ensures
        split_on(s, sep) == seq![s],
    decreases s.len(),
{
    if s.len() > 0 {
        let front = s.drop_last();
        if front.contains(sep) {
            let k = choose|k: int| 0 <= k < front.len() && front[k] == sep;
            assert(s[k] == sep);
        }
        lemma_split_without(front, sep);
        assert(s[s.len() - 1] != sep);
        assert(front.push(s.last()) =~= s);
        assert(split_on(s, sep) =~= seq![s]);
    } else {
        assert(s =~= Seq::<char>::empty());
        assert(split_on(s, sep) =~= seq![s]);
    }
}

proof fn lemma_split_first(a: Seq<char>, b: Seq<char>, sep: char)
    requires
        !a.contains(sep),
    ensures
        split_on(a + seq![sep] + b, sep) == seq![a] + split_on(b, sep),
    decreases b.len(),
{
    let s = a + seq![sep] + b;
    law_split_and_join(b, sep);
    if b.len() == 0 {
        assert(s.drop_last() =~= a);
        lemma_split_without(a, sep);
        assert(split_on(s, sep) =~= seq![a] + split_on(b, sep));
    } else {
        lemma_split_first(a, b.drop_last(), sep);
        law_split_and_join(b.drop_last(), sep);
        assert(s.drop_last() =~= a + seq![sep] + b.drop_last());
        assert(s.last() == b.last());
        assert(split_on(s, sep) =~= seq![a] + split_on(b, sep));
    }
}

/// The lines of a text are its first line, without a carriage return at its end,
/// and the lines of what follows the line end; a text without a line end is one
/// line, and the empty text none.
pub proof fn law_lines(first: Seq<char>, rest: Seq<char>)
    requires
        !first.contains('\n'),
    ensures
        lines(first + seq!['\n'] + rest) == seq![strip_cr(first)] + lines(rest),
        lines(first) == (if first.len() > 0 {
            seq![first]
        } else {
            Seq::empty()
        }),
{
    lemma_split_first(first, rest, '\n');
    lemma_split_without(first, '\n');
    law_split_and_join(rest, '\n');
    assert(lines(first + seq!['\n'] + rest) =~= seq![strip_cr(first)] + lines(rest));
    assert(lines(first) =~= (if first.len() > 0 {
        seq![first]
    } else {
        Seq::empty()
    }));
}

/// The number that decimal digits stand for.
pub open spec fn number_of(s: Seq<char>) -> int
    decreases s.len(),
{
    if s.len() == 0 {
        0
    } else {
        number_of(s.drop_last()) * 10 + (s.last() as u32 - '0' as u32)
    }
}

/// The decimal form of a number stands for that number, is made of digits, and
/// starts with 0 only where it is 0.
pub proof fn law_decimal(n: nat)
    ensures
        number_of(decimal(n)) == n,
        decimal(n).len() > 0,
        forall|i: int| 0 <= i < decimal(n).len() ==> '0' <= #[trigger] decimal(n)[i] <= '9',
        decimal(n)[0] == '0' ==> n == 0 && decimal(n).len() == 1,
    decreases n,
{
    let d = (n % 10) as nat;
    assert(digit(d) as u32 == 48 + d);
    if n < 10 {
        assert(decimal(n).drop_last() =~= Seq::<char>::empty());
        assert(digit(n) as u32 == 48 + n);
        assert(number_of(decimal(n).drop_last()) == 0);
        assert(decimal(n).last() == digit(n));
    } else {
        law_decimal(n / 10);
        assert(decimal(n).drop_last() =~= decimal(n / 10));
        assert(decimal(n)[0] == decimal(n / 10)[0]);
        assert forall|i: int| 0 <= i < decimal(n).len() implies '0' <= #[trigger] decimal(n)[i]
            <= '9' by {
            if i < decimal(n / 10).len() {
                assert(decimal(n)[i] == decimal(n / 10)[i]);
            }
        }
    }
}

/// A number with a sign is its size, behind a minus sign where it is negative.
pub proof fn law_signed_decimal(n: int)
    ensures
        n >= 0 ==> number_of(signed_decimal(n)) == n && signed_decimal(n)[0] != '-',
        n < 0 ==> signed_decimal(n)[0] == '-' && number_of(signed_decimal(n).skip(1)) == -n,
{
    if n >= 0 {
        law_decimal(n as nat);
    } else {
        law_decimal((-n) as nat);
        assert(signed_decimal(n).skip(1) =~= decimal((-n) as nat));
    }
}

/// At most `n` characters are kept, all from the start, and none is dropped that
/// there is room for.
pub proof fn law_prefix(s: Seq<char>, n: int)
    requires
        0 <= n,
    ensures
        prefix(s, n).is_prefix_of(s),
        prefix(s, n).len() <= n,
        prefix(s, n).len() < n ==> prefix(s, n) == s,
{
}

/// A character occurs as often as there are positions that hold it.
pub proof fn law_occurrences(s: Seq<char>, c: char)
    ensures
        occurrences(s, c) == s.to_multiset().count(c),
    decreases s.len(),
{
    broadcast use vstd::seq_lib::group_to_multiset_ensures;

    if s.len() > 0 {
        law_occurrences(s.drop_last(), c);
        assert(s =~= s.drop_last().push(s.last()));
    }
}

/// The items of a list are its parts without the white space around them, blank
/// ones left out, in order.
pub proof fn law_list_items(parts: Seq<Seq<char>>)
    ensures
        list_items(parts) == parts.map_values(|p: Seq<char>| trimmed(p)).filter(
            |p: Seq<char>| p.len() > 0,
        ),
    decreases parts.len(),
{
    reveal(Seq::filter);
    let all = parts.map_values(|p: Seq<char>| trimmed(p));
    if parts.len() > 0 {
        law_list_items(parts.drop_last());
        assert(all.drop_last() =~= parts.drop_last().map_values(|p: Seq<char>| trimmed(p)));
        assert(all.last() == trimmed(parts.last()));
    } else {
        assert(list_items(parts) =~= all.filter(|p: Seq<char>| p.len() > 0));
    }
}

/// The entries of a file are its lines without the white space around them,
/// blank ones left out, in order.
pub proof fn law_entry_lines(parts: Seq<Seq<char>>)
    ensures
        entry_lines(parts) == parts.map_values(|p: Seq<char>| trimmed(p)).filter(
            |p: Seq<char>| p.len() > 0,
        ),
    decreases parts.len(),
{
    reveal(Seq::filter);
    let all = parts.map_values(|p: Seq<char>| trimmed(p));
    if parts.len() > 0 {
        law_entry_lines(parts.drop_last());
        assert(all.drop_last() =~= parts.drop_last().map_values(|p: Seq<char>| trimmed(p)));
        assert(all.last() == trimmed(parts.last()));
    } else {
        assert(entry_lines(parts) =~= all.filter(|p: Seq<char>| p.len() > 0));
    }
}

/// A name stands for the value of the first member that bears it, and for none
/// where no member does.
pub proof fn law_member(m: Seq<(Seq<char>, FieldView)>, name: Seq<char>)
    ensures
        match member(m, name) {
            Some(v) => exists|i: int|
                0 <= i < m.len() && (#[trigger] m[i]).0 == name && m[i].1 == v && forall|k: int|
                    0 <= k < i ==> (#[trigger] m[k]).0 != name,
            None => forall|i: int| 0 <= i < m.len() ==> (#[trigger] m[i]).0 != name,
        },
    decreases m.len(),
{
    if m.len() > 0 {
        if m[0].0 != name {
            let rest = m.skip(1);
            law_member(rest, name);
            match member(m, name) {
                Some(v) => {
                    let i = choose|i: int|
                        0 <= i < rest.len() && (#[trigger] rest[i]).0 == name && rest[i].1 == v
                            && forall|k: int| 0 <= k < i ==> (#[trigger] rest[k]).0 != name;
                    assert(m[i + 1] == rest[i]);
                    assert forall|k: int| 0 <= k < i + 1 implies (#[trigger] m[k]).0 != name by {
                        if k > 0 {
                            assert(m[k] == rest[k - 1]);
                        }
                    }
                },
                None => {
                    assert forall|i: int| 0 <= i < m.len() implies (#[trigger] m[i]).0 != name by {
                        if i > 0 {
                            assert(m[i] == rest[i - 1]);
                        }
                    }
                },
            }
        } else {
            assert(m[0].1 == m[0].1);
        }
    }
}

/// Of two levels of importance the higher is kept: critical over high over
/// medium over low.
pub proof fn law_higher_importance(a: Importance, b: Importance)
    ensures
        higher_importance(a, b) == a || higher_importance(a, b) == b,
        higher_importance(a, b) is Critical <==> a is Critical || b is Critical,
        higher_importance(a, b) is Low <==> a is Low && b is Low,
        a is High && !(b is Critical) || b is High && !(a is Critical) ==> higher_importance(
            a,
            b,
        ) is High,
{
}

/// Of two tiers the hotter is kept: hot over warm over cold.
pub proof fn law_hotter(a: MemoryTier, b: MemoryTier)
    ensures
        hotter(a, b) == a || hotter(a, b) == b,
        hotter(a, b) is Hot <==> a is Hot || b is Hot,
        hotter(a, b) is Cold <==> a is Cold && b is Cold,
{
}

/// The later of two instants is one of them, and neither comes after it.
pub proof fn law_later_of(a: Timestamp, b: Timestamp)
    ensures
        later_of(a, b) == a || later_of(a, b) == b,
        !earlier(later_of(a, b), a),
        !earlier(later_of(a, b), b),
{
}

/// An instant with fewer seconds comes first, and of two in the same second the
/// one with fewer nanoseconds.
pub proof fn law_earlier(a: Timestamp, b: Timestamp)
    ensures
        a.seconds() < b.seconds() ==> earlier(a, b) && !earlier(b, a),
        a.seconds() == b.seconds() ==> (earlier(a, b) <==> a.nanoseconds() < b.nanoseconds()),
{
}

/// Outside leap seconds, an instant is older than a limit where the time that has
/// passed since is longer.
pub proof fn law_older_than(t: Timestamp, now: Timestamp, secs: int)
    requires
        0 <= t.nanoseconds() < 1_000_000_000,
        0 <= now.nanoseconds() < 1_000_000_000,
    ensures
        older_than(t, now, secs) <==> (now.seconds() - t.seconds()) * 1_000_000_000
            + now.nanoseconds() - t.nanoseconds() > secs * 1_000_000_000,
{
}

/// Outside leap seconds, a span in whole seconds is the number of full seconds in
/// it, and the same number with the other sign the other way round.
pub proof fn law_span_secs(a: Timestamp, b: Timestamp)
    requires
        0 <= a.nanoseconds() < 1_000_000_000,
        0 <= b.nanoseconds() < 1_000_000_000,
    ensures
        ({
            let nanos = (a.seconds() - b.seconds()) * 1_000_000_000 + a.nanoseconds()
                - b.nanoseconds();
            nanos >= 0 ==> span_secs(a, b) * 1_000_000_000 <= nanos < (span_secs(a, b) + 1)
                * 1_000_000_000
        }),
        span_secs(b, a) == -span_secs(a, b),
{
}

/// Each kind of error has the HTTP status of its name.
pub proof fn law_http_status()
    ensures
        http_status(OpsErrorKind::BadRequest) == 400,
        http_status(OpsErrorKind::Unauthorized) == 401,
        http_status(OpsErrorKind::Forbidden) == 403,
        http_status(OpsErrorKind::NotFound) == 404,
        http_status(OpsErrorKind::Conflict) == 409,
        http_status(OpsErrorKind::Internal) == 500,
{
}

/// A model is asked exactly where a provider is set, and for Google's also a key is
/// there: the one that the settings name before the configured one. Endpoint and
/// model are those of the settings.
pub proof fn law_which_model_is_asked(
    e: Option<ExtractorKind>,
    resolved: Option<ResolvedLlm>,
    named_key: Option<Seq<char>>,
    configured_key: Option<Seq<char>>,
    disable_thinking: bool,
)
    requires
        is_extractor_for(e, resolved, named_key, configured_key, disable_thinking),
    ensures
        e is Some <==> resolved is Some && ((resolved->0).provider == Provider::Omlx || ((
        resolved->0).provider == Provider::Google && (named_key is Some || configured_key is Some))),
        e matches Some(ExtractorKind::Gemini { api_key, endpoint, model }) ==> {
            &&& (resolved->0).provider == Provider::Google
            &&& named_key is Some ==> named_key == Some(api_key@)
            &&& named_key is None ==> configured_key == Some(api_key@)
            &&& endpoint@ == (resolved->0).endpoint@ && model@ == (resolved->0).model@
        },
        e matches Some(ExtractorKind::Omlx { endpoint, model, disable_thinking: d }) ==> {
            &&& (resolved->0).provider == Provider::Omlx
            &&& endpoint@ == (resolved->0).endpoint@ && model@ == (resolved->0).model@
            &&& d == disable_thinking
        },
{
}

/// Verdicts are recorded under the provider and the model.
pub proof fn law_model_name(e: ExtractorKind)
    ensures
        e matches ExtractorKind::Gemini { model, .. } ==> model_name(e) == "gemini:"@ + model@,
        e matches ExtractorKind::Omlx { model, .. } ==> model_name(e) == "omlx:"@ + model@,
{
}

/// A value is shown, or what stands in for it where there is none.
pub proof fn law_text_or(s: Option<String>, other: Seq<char>, b: bool)
    ensures
        s matches Some(t) ==> text_or(s, other) == t@,
        s is None ==> text_or(s, other) == other,
        bool_text(b) == (if b { "true"@ } else { "false"@ }),
{
}

/// A member counts as a text, a number or a truth value only where it is one.
pub proof fn law_typed_members(m: Seq<(Seq<char>, FieldView)>, name: Seq<char>)
    ensures
        text_member(m, name) matches Some(s) ==> member(m, name) == Some(FieldView::Text(s)),
        text_member(m, name) is Some <==> member(m, name) is Some && member(m, name)->0 is Text,
        bool_member(m, name) matches Some(b) ==> member(m, name) == Some(FieldView::Bool(b)),
        bool_member(m, name) is Some <==> member(m, name) is Some && member(m, name)->0 is Bool,
        signed_member(m, name) is Some || unsigned_member(m, name) is Some ==> member(m, name)
            is Some && member(m, name)->0 is Number,
        member(m, name) matches Some(FieldView::Number { signed, unsigned }) ==> signed_member(
            m,
            name,
        ) == signed && unsigned_member(m, name) == unsigned,
{
}

/// Between two instants there is as much time one way as the other, leap seconds
/// counted; whole days apart, the seconds in between are those of the days.
pub proof fn law_time_between(a_secs: int, a_nanos: int, b_secs: int, b_nanos: int)
    ensures
        whole_seconds(a_secs, a_nanos, b_secs, b_nanos) == -whole_seconds(
            b_secs,
            b_nanos,
            a_secs,
            a_nanos,
        ),
        whole_seconds(a_secs, a_nanos, a_secs, a_nanos) == 0,
        a_secs % 86_400 == b_secs % 86_400 && a_nanos == b_nanos ==> whole_seconds(
            a_secs,
            a_nanos,
            b_secs,
            b_nanos,
        ) == a_secs - b_secs,
{
}

} // verus!
