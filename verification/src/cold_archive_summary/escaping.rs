//! What escaping keeps out of a prompt: nothing of a user's text can pass for
//! its markup, and nothing of the text is lost.

use crate::cold_archive_summary::prompt::{
    attribute_escaped, prompt_content, prompt_topic, request_text, substituted, tag_escaped,
};
use crate::text::{decimal, expand, replaced, substitution};
use vstd::prelude::*;
use vstd::string::*;

verus! {

pub(crate) proof fn lemma_replaced_absent(s: Seq<char>, from: char, to: Seq<char>, c: char)
    requires
        !to.contains(c),
        c == from || !s.contains(c),
    ensures
        !replaced(s, from, to).contains(c),
    decreases s.len(),
{
    let f = substitution(from, to);
    if s.len() > 0 {
        let rest = s.drop_last();
        assert(s.last() == s[s.len() - 1]);
        if c != from {
            assert(!rest.contains(c)) by {
                if rest.contains(c) {
                    let i = choose|i: int| 0 <= i < rest.len() && rest[i] == c;
                    assert(s[i] == c);
                }
            }
        }
        lemma_replaced_absent(rest, from, to, c);
        let piece = f(s.last());
        assert(!piece.contains(c)) by {
            if piece.contains(c) {
                let i = choose|i: int| 0 <= i < piece.len() && piece[i] == c;
                if s.last() != from {
                    assert(piece =~= seq![s.last()]);
                    assert(s[s.len() - 1] == c);
                    assert(s.contains(c));
                }
            }
        }
        let whole = expand(rest, f) + piece;
        assert(!whole.contains(c)) by {
            if whole.contains(c) {
                let i = choose|i: int| 0 <= i < whole.len() && whole[i] == c;
                if i < expand(rest, f).len() {
                    assert(expand(rest, f)[i] == c);
                } else {
                    assert(piece[i - expand(rest, f).len()] == c);
                }
            }
        }
    }
}

pub(crate) proof fn lemma_substituted_noop(s: Seq<char>, needle: Seq<char>, to: Seq<char>)
    requires
        needle.len() > 0,
        !s.contains(needle[0]),
    ensures
        substituted(s, needle, to) == s,
    decreases s.len(),
{
    if s.len() > 0 {
        assert(!needle.is_prefix_of(s)) by {
            if needle.is_prefix_of(s) {
                assert(s.subrange(0, needle.len() as int)[0] == s[0]);
                assert(s.contains(needle[0]));
            }
        }
        assert(!s.skip(1).contains(needle[0])) by {
            if s.skip(1).contains(needle[0]) {
                let i = choose|i: int| 0 <= i < s.skip(1).len() && s.skip(1)[i] == needle[0];
                assert(s[i + 1] == needle[0]);
            }
        }
        lemma_substituted_noop(s.skip(1), needle, to);
        assert(seq![s[0]] + s.skip(1) =~= s);
    }
}

pub(crate) proof fn lemma_entity_chars()
    ensures
        !"&lt;"@.contains('<'),
        !"&amp;"@.contains('<'),
        !"&gt;"@.contains('<'),
        !"&quot;"@.contains('<'),
        !"&apos;"@.contains('<'),
        !"&gt;"@.contains('>'),
        !"&quot;"@.contains('>'),
        !"&apos;"@.contains('>'),
        !"&quot;"@.contains('"'),
        !"&apos;"@.contains('"'),
        !"&apos;"@.contains('\''),
        "</"@.len() == 2,
        "</"@[0] == '<',
{
    reveal_strlit("&lt;");
    reveal_strlit("&amp;");
    reveal_strlit("&gt;");
    reveal_strlit("&quot;");
    reveal_strlit("&apos;");
    reveal_strlit("</");
}

/// Nothing of the source can pass for markup of the prompt: its content
/// brings no opening angle bracket, so no tag, and its topic neither an angle
/// bracket nor a quote, so it cannot leave its attribute.
pub proof fn law_source_brings_no_markup(topic: Seq<char>, content: Seq<char>)
    ensures
        !prompt_content(content).contains('<'),
        !prompt_topic(topic).contains('<'),
        !prompt_topic(topic).contains('>'),
        !prompt_topic(topic).contains('"'),
        !prompt_topic(topic).contains('\''),
{
    lemma_entity_chars();
    let needle = "</"@ + "source"@ + ">"@;
    assert(needle[0] == "</"@[0]);
    let escaped = replaced(content, '<', "&lt;"@);
    lemma_replaced_absent(content, '<', "&lt;"@, '<');
    lemma_substituted_noop(escaped, needle, "<\u{200B}/"@ + "source"@ + ">"@);
    let a = replaced(topic, '&', "&amp;"@);
    let b = replaced(a, '<', "&lt;"@);
    let c = replaced(b, '>', "&gt;"@);
    let d = replaced(c, '"', "&quot;"@);
    lemma_replaced_absent(a, '<', "&lt;"@, '<');
    lemma_replaced_absent(b, '>', "&gt;"@, '<');
    lemma_replaced_absent(c, '"', "&quot;"@, '<');
    lemma_replaced_absent(d, '\'', "&apos;"@, '<');
    lemma_replaced_absent(b, '>', "&gt;"@, '>');
    lemma_replaced_absent(c, '"', "&quot;"@, '>');
    lemma_replaced_absent(d, '\'', "&apos;"@, '>');
    lemma_replaced_absent(c, '"', "&quot;"@, '"');
    lemma_replaced_absent(d, '\'', "&apos;"@, '"');
    lemma_replaced_absent(d, '\'', "&apos;"@, '\'');
    lemma_substituted_noop(
        attribute_escaped(topic),
        needle,
        "<\u{200B}/"@ + "source"@ + ">"@,
    );
}

/// What a character becomes in an attribute.
pub open spec fn attribute_char(c: char) -> Seq<char> {
    if c == '&' {
        "&amp;"@
    } else if c == '<' {
        "&lt;"@
    } else if c == '>' {
        "&gt;"@
    } else if c == '"' {
        "&quot;"@
    } else if c == '\'' {
        "&apos;"@
    } else {
        seq![c]
    }
}

proof fn lemma_expand_concat(a: Seq<char>, b: Seq<char>, f: spec_fn(char) -> Seq<char>)
    ensures
        expand(a + b, f) == expand(a, f) + expand(b, f),
    decreases b.len(),
{
    if b.len() == 0 {
        assert(a + b =~= a);
        assert(expand(a, f) + expand(b, f) =~= expand(a, f));
    } else {
        lemma_expand_concat(a, b.drop_last(), f);
        assert((a + b).drop_last() =~= a + b.drop_last());
        assert(expand(a + b, f) =~= expand(a, f) + expand(b, f));
    }
}

proof fn lemma_replaced_noop(s: Seq<char>, from: char, to: Seq<char>)
    requires
        !s.contains(from),
    ensures
        replaced(s, from, to) == s,
    decreases s.len(),
{
    if s.len() > 0 {
        let rest = s.drop_last();
        assert(!rest.contains(from)) by {
            if rest.contains(from) {
                let i = choose|i: int| 0 <= i < rest.len() && rest[i] == from;
                assert(s[i] == from);
            }
        }
        lemma_replaced_noop(rest, from, to);
        assert(s[s.len() - 1] != from);
        assert(rest + seq![s.last()] =~= s);
    }
}

/// Replacing after an expansion is an expansion by what was replaced.
proof fn lemma_replaced_expansion(
    s: Seq<char>,
    f: spec_fn(char) -> Seq<char>,
    g: spec_fn(char) -> Seq<char>,
    from: char,
    to: Seq<char>,
)
    requires
        forall|c: char| #[trigger] g(c) == replaced(f(c), from, to),
    ensures
        replaced(expand(s, f), from, to) == expand(s, g),
    decreases s.len(),
{
    if s.len() > 0 {
        lemma_replaced_expansion(s.drop_last(), f, g, from, to);
        lemma_expand_concat(expand(s.drop_last(), f), f(s.last()), substitution(from, to));
        assert(g(s.last()) == replaced(f(s.last()), from, to));
    }
}

proof fn lemma_replaced_char(c: char, from: char, to: Seq<char>)
    ensures
        replaced(seq![c], from, to) == substitution(from, to)(c),
{
    let one = seq![c];
    assert(one.drop_last() =~= Seq::<char>::empty());
    assert(expand(one.drop_last(), substitution(from, to)) =~= Seq::<char>::empty());
    assert(replaced(one, from, to) =~= substitution(from, to)(c));
}

/// For use in an attribute, each of the five markup characters becomes its
/// entity, wherever it stands, and every other character stays as it is.
pub proof fn law_attribute_escape_is_char_by_char(s: Seq<char>)
    ensures
        attribute_escaped(s) == expand(s, |c: char| attribute_char(c)),
{
    reveal_strlit("&lt;");
    reveal_strlit("&amp;");
    reveal_strlit("&gt;");
    reveal_strlit("&quot;");
    reveal_strlit("&apos;");
    let f1 = substitution('&', "&amp;"@);
    let f2 = |c: char|
        if c == '<' {
            "&lt;"@
        } else {
            f1(c)
        };
    let f3 = |c: char|
        if c == '>' {
            "&gt;"@
        } else {
            f2(c)
        };
    let f4 = |c: char|
        if c == '"' {
            "&quot;"@
        } else {
            f3(c)
        };
    let f5 = |c: char| attribute_char(c);
    assert forall|c: char| #[trigger] f2(c) == replaced(f1(c), '<', "&lt;"@) by {
        lemma_replaced_char(c, '<', "&lt;"@);
        lemma_replaced_noop("&amp;"@, '<', "&lt;"@);
    }
    assert forall|c: char| #[trigger] f3(c) == replaced(f2(c), '>', "&gt;"@) by {
        lemma_replaced_char(c, '>', "&gt;"@);
        lemma_replaced_noop("&amp;"@, '>', "&gt;"@);
        lemma_replaced_noop("&lt;"@, '>', "&gt;"@);
    }
    assert forall|c: char| #[trigger] f4(c) == replaced(f3(c), '"', "&quot;"@) by {
        lemma_replaced_char(c, '"', "&quot;"@);
        lemma_replaced_noop("&amp;"@, '"', "&quot;"@);
        lemma_replaced_noop("&lt;"@, '"', "&quot;"@);
        lemma_replaced_noop("&gt;"@, '"', "&quot;"@);
    }
    assert forall|c: char| #[trigger] f5(c) == replaced(f4(c), '\'', "&apos;"@) by {
        lemma_replaced_char(c, '\'', "&apos;"@);
        lemma_replaced_noop("&amp;"@, '\'', "&apos;"@);
        lemma_replaced_noop("&lt;"@, '\'', "&apos;"@);
        lemma_replaced_noop("&gt;"@, '\'', "&apos;"@);
        lemma_replaced_noop("&quot;"@, '\'', "&apos;"@);
    }
    lemma_replaced_expansion(s, f1, f2, '<', "&lt;"@);
    lemma_replaced_expansion(s, f2, f3, '>', "&gt;"@);
    lemma_replaced_expansion(s, f3, f4, '"', "&quot;"@);
    lemma_replaced_expansion(s, f4, f5, '\'', "&apos;"@);
}

proof fn lemma_first_char_decoded(a: char, b: char, x: Seq<char>, y: Seq<char>)
    requires
        attribute_char(a) + x == attribute_char(b) + y,
    ensures
        a == b,
        x == y,
{
    reveal_strlit("&lt;");
    reveal_strlit("&amp;");
    reveal_strlit("&gt;");
    reveal_strlit("&quot;");
    reveal_strlit("&apos;");
    let p = attribute_char(a) + x;
    let q = attribute_char(b) + y;
    assert(p[0] == attribute_char(a)[0] && q[0] == attribute_char(b)[0]);
    if a != b {
        if attribute_char(a).len() > 1 && attribute_char(b).len() > 1 {
            assert(p[1] == attribute_char(a)[1] && q[1] == attribute_char(b)[1]);
            assert(p[2] == attribute_char(a)[2] && q[2] == attribute_char(b)[2]);
        }
        assert(false);
    }
    let n = attribute_char(a).len() as int;
    assert(p.skip(n) =~= x);
    assert(q.skip(n) =~= y);
}

/// No two texts look the same in an attribute.
pub proof fn law_attribute_escape_loses_nothing(a: Seq<char>, b: Seq<char>)
    requires
        attribute_escaped(a) == attribute_escaped(b),
    ensures
        a == b,
{
    let f = |c: char| attribute_char(c);
    law_attribute_escape_is_char_by_char(a);
    law_attribute_escape_is_char_by_char(b);
    lemma_expansion_decoded(a, b, f);
}

proof fn lemma_expansion_decoded(a: Seq<char>, b: Seq<char>, f: spec_fn(char) -> Seq<char>)
    requires
        forall|c: char| #[trigger] f(c) == attribute_char(c),
        expand(a, f) == expand(b, f),
    ensures
        a == b,
    decreases a.len(),
{
    if a.len() > 0 {
        lemma_expand_front(a, f);
        assert(b.len() > 0);
    }
    if b.len() > 0 {
        lemma_expand_front(b, f);
        assert(a.len() > 0);
    }
    if a.len() > 0 {
        lemma_first_char_decoded(a[0], b[0], expand(a.skip(1), f), expand(b.skip(1), f));
        lemma_expansion_decoded(a.skip(1), b.skip(1), f);
        assert(a =~= seq![a[0]] + a.skip(1));
        assert(b =~= seq![b[0]] + b.skip(1));
    } else {
        assert(a =~= b);
    }
}

proof fn lemma_expand_front(s: Seq<char>, f: spec_fn(char) -> Seq<char>)
    requires
        forall|c: char| #[trigger] f(c) == attribute_char(c),
        s.len() > 0,
    ensures
        expand(s, f) == attribute_char(s[0]) + expand(s.skip(1), f),
        expand(s, f).len() > 0,
{
    reveal_strlit("&lt;");
    reveal_strlit("&amp;");
    reveal_strlit("&gt;");
    reveal_strlit("&quot;");
    reveal_strlit("&apos;");
    let one = seq![s[0]];
    assert(s =~= one + s.skip(1));
    lemma_expand_concat(one, s.skip(1), f);
    assert(one.drop_last() =~= Seq::<char>::empty());
    assert(expand(one.drop_last(), f) =~= Seq::<char>::empty());
    assert(expand(one, f) =~= f(s[0]));
}

/// Whether `needle` stands in `s` at position `i`.
pub open spec fn stands_at(s: Seq<char>, needle: Seq<char>, i: int) -> bool {
    0 <= i && i + needle.len() <= s.len() && s.subrange(i, i + needle.len()) == needle
}

/// The closing tag of this name.
pub open spec fn closing_tag(tag: Seq<char>) -> Seq<char> {
    "</"@ + tag + ">"@
}

proof fn lemma_copied_prefix(t: Seq<char>, needle: Seq<char>, to: Seq<char>, m: Seq<char>)
    requires
        needle.len() > 0,
        to.len() > 0,
        to[0] == '<',
        !m.contains('<'),
        m.is_prefix_of(substituted(t, needle, to)),
    ensures
        m.is_prefix_of(t),
    decreases m.len(),
{
    let out = substituted(t, needle, to);
    if m.len() > 0 {
        assert(m[0] == out.subrange(0, m.len() as int)[0]);
        assert(m.contains(m[0]));
        if needle.is_prefix_of(t) && t.len() > 0 {
            assert(out[0] == to[0]);
        } else {
            let rest = substituted(t.skip(1), needle, to);
            let tail = m.skip(1);
            assert(out =~= seq![t[0]] + rest);
            assert(tail =~= rest.subrange(0, tail.len() as int)) by {
                assert forall|i: int| 0 <= i < tail.len() implies tail[i] == rest[i] by {
                    assert(m[i + 1] == out.subrange(0, m.len() as int)[i + 1]);
                }
            }
            assert(!tail.contains('<')) by {
                if tail.contains('<') {
                    let i = choose|i: int| 0 <= i < tail.len() && tail[i] == '<';
                    assert(m[i + 1] == '<');
                }
            }
            lemma_copied_prefix(t.skip(1), needle, to, tail);
            assert(m =~= t.subrange(0, m.len() as int)) by {
                assert forall|i: int| 0 <= i < m.len() implies m[i] == t[i] by {
                    if i > 0 {
                        assert(tail[i - 1] == t.skip(1).subrange(0, tail.len() as int)[i - 1]);
                    }
                }
            }
        }
    }
}

proof fn lemma_needle_is_gone(s: Seq<char>, needle: Seq<char>, to: Seq<char>, i: int)
    requires
        needle.len() > 1,
        needle[0] == '<',
        !needle.skip(1).contains('<'),
        to.len() > 1,
        to[0] == '<',
        !to.skip(1).contains('<'),
        to[1] != needle[1],
    ensures
        !stands_at(substituted(s, needle, to), needle, i),
    decreases s.len(),
{
    let out = substituted(s, needle, to);
    if stands_at(out, needle, i) {
        let found = out.subrange(i, i + needle.len());
        assert(found[0] == out[i] && found[1] == out[i + 1]);
        if needle.is_prefix_of(s) {
            let rest = substituted(s.skip(needle.len() as int), needle, to);
            if i >= to.len() {
                assert(rest.subrange(i - to.len(), i - to.len() + needle.len()) =~= needle);
                lemma_needle_is_gone(s.skip(needle.len() as int), needle, to, i - to.len());
            } else if i > 0 {
                assert(to.skip(1)[i - 1] == '<');
            } else {
                assert(out[1] == to[1]);
            }
        } else {
            let rest = substituted(s.skip(1), needle, to);
            if i > 0 {
                assert(rest.subrange(i - 1, i - 1 + needle.len()) =~= needle);
                lemma_needle_is_gone(s.skip(1), needle, to, i - 1);
            } else {
                let tail = needle.skip(1);
                assert(tail =~= rest.subrange(0, tail.len() as int)) by {
                    assert forall|k: int| 0 <= k < tail.len() implies tail[k] == rest[k] by {
                        assert(found[k + 1] == out[k + 1]);
                    }
                }
                lemma_copied_prefix(s.skip(1), needle, to, tail);
                assert(needle =~= s.subrange(0, needle.len() as int)) by {
                    assert forall|k: int| 0 <= k < needle.len() implies needle[k] == s[k] by {
                        if k > 0 {
                            assert(tail[k - 1] == s.skip(1).subrange(0, tail.len() as int)[k - 1]);
                        }
                    }
                }
            }
        }
    }
}

proof fn lemma_tag_texts(tag: Seq<char>)
    requires
        !tag.contains('<'),
    ensures
        ({
            let needle = closing_tag(tag);
            let to = "<\u{200B}/"@ + tag + ">"@;
            &&& needle.len() > 1 && to.len() > 1
            &&& needle[0] == '<' && to[0] == '<'
            &&& to[1] != needle[1]
            &&& !needle.skip(1).contains('<')
            &&& !to.skip(1).contains('<')
        }),
{
    reveal_strlit("</");
    reveal_strlit(">");
    reveal_strlit("<\u{200B}/");
    let needle = closing_tag(tag);
    let to = "<\u{200B}/"@ + tag + ">"@;
    assert(needle[1] == '/' && to[1] == '\u{200B}');
    assert forall|i: int| 1 <= i < needle.len() implies needle[i] != '<' by {
        if 2 <= i < 2 + tag.len() {
            assert(needle[i] == tag[i - 2]);
            assert(tag.contains(tag[i - 2]));
        } else if i > 1 {
            assert(needle[i] == '>');
        }
    }
    assert forall|i: int| 1 <= i < to.len() implies to[i] != '<' by {
        if 3 <= i < 3 + tag.len() {
            assert(to[i] == tag[i - 3]);
            assert(tag.contains(tag[i - 3]));
        } else if i >= 3 {
            assert(to[i] == '>');
        } else if i == 2 {
            assert(to[i] == '/');
        }
    }
    if needle.skip(1).contains('<') {
        let i = choose|i: int| 0 <= i < needle.skip(1).len() && needle.skip(1)[i] == '<';
        assert(needle[i + 1] == '<');
    }
    if to.skip(1).contains('<') {
        let i = choose|i: int| 0 <= i < to.skip(1).len() && to.skip(1)[i] == '<';
        assert(to[i + 1] == '<');
    }
}

/// A text escaped for a tag holds that closing tag nowhere, whatever it held
/// before. The name of a tag has no opening angle bracket.
pub proof fn law_escaped_text_cannot_close_its_tag(s: Seq<char>, tag: Seq<char>, i: int)
    requires
        !tag.contains('<'),
    ensures
        !stands_at(tag_escaped(s, tag), closing_tag(tag), i),
{
    lemma_tag_texts(tag);
    lemma_needle_is_gone(s, closing_tag(tag), "<\u{200B}/"@ + tag + ">"@, i);
}

/// A text without the closing tag is not changed.
pub proof fn law_text_without_the_tag_is_kept(s: Seq<char>, tag: Seq<char>)
    requires
        forall|i: int| !#[trigger] stands_at(s, closing_tag(tag), i),
    ensures
        tag_escaped(s, tag) == s,
    decreases s.len(),
{
    let needle = closing_tag(tag);
    let to = "<\u{200B}/"@ + tag + ">"@;
    if s.len() > 0 {
        assert(!needle.is_prefix_of(s)) by {
            if needle.is_prefix_of(s) {
                assert(stands_at(s, needle, 0));
            }
        }
        let rest = s.skip(1);
        assert forall|i: int| !#[trigger] stands_at(rest, needle, i) by {
            if stands_at(rest, needle, i) {
                assert(s.subrange(i + 1, i + 1 + needle.len()) =~= rest.subrange(
                    i,
                    i + needle.len(),
                ));
                assert(stands_at(s, needle, i + 1));
            }
        }
        law_text_without_the_tag_is_kept(rest, tag);
        assert(seq![s[0]] + rest =~= s);
    }
}

proof fn lemma_decimal_without_markup(n: nat)
    ensures
        !decimal(n).contains('<'),
    decreases n,
{
    if n >= 10 {
        lemma_decimal_without_markup(n / 10);
        let front = decimal(n / 10);
        if decimal(n).contains('<') {
            let i = choose|i: int| 0 <= i < decimal(n).len() && decimal(n)[i] == '<';
            if i < front.len() {
                assert(front[i] == '<');
            }
        }
    }
}

/// Whatever the topic and the content are, the only opening angle brackets of a
/// request are the four of its own tags: it opens with the task, names the
/// source once, and the source is closed at the very end and nowhere before.
pub proof fn law_request_has_only_its_own_tags(
    topic: Seq<char>,
    content: Seq<char>,
    target: usize,
    i: int,
)
    ensures
        ({
            let r = request_text(topic, content, target);
            let task_end = ("<task target_chars=\""@ + decimal(target as nat)
                + "\">summarize the source memory"@).len();
            0 <= i < r.len() && r[i] == '<' <==> {
                ||| i == 0
                ||| i == task_end
                ||| i == task_end + 8
                ||| i == r.len() - 9
            }
        }),
        stands_at(request_text(topic, content, target), "</source>"@, i) <==> i == request_text(
            topic,
            content,
            target,
        ).len() - 9,
{
    reveal_strlit("<task target_chars=\"");
    reveal_strlit("\">summarize the source memory");
    reveal_strlit("\">summarize the source memory</task>\n<source topic=\"");
    reveal_strlit("\">\n");
    reveal_strlit("\n</source>");
    reveal_strlit("</source>");
    let r = request_text(topic, content, target);
    let a = "<task target_chars=\""@;
    let d = decimal(target as nat);
    let b = "\">summarize the source memory</task>\n<source topic=\""@;
    let t = prompt_topic(topic);
    let c = "\">\n"@;
    let p = prompt_content(content);
    let e = "\n</source>"@;
    lemma_decimal_without_markup(target as nat);
    law_source_brings_no_markup(topic, content);
    let at_b = a.len() + d.len();
    let at_t = at_b + b.len();
    let at_c = at_t + t.len();
    let at_p = at_c + c.len();
    let at_e = at_p + p.len();
    assert forall|k: int| 0 <= k < r.len() implies (#[trigger] r[k] == '<') == (k == 0 || k
        == d.len() + 49 || k == d.len() + 57 || k == r.len() - 9) by {
        if k < a.len() {
            assert(r[k] == a[k]);
        } else if k < at_b {
            assert(r[k] == d[k - a.len()]);
            assert(d.contains(r[k]));
        } else if k < at_t {
            assert(r[k] == b[k - at_b]);
        } else if k < at_c {
            assert(r[k] == t[k - at_t]);
            assert(t.contains(r[k]));
        } else if k < at_p {
            assert(r[k] == c[k - at_c]);
        } else if k < at_e {
            assert(r[k] == p[k - at_p]);
            assert(p.contains(r[k]));
        } else {
            assert(r[k] == e[k - at_e]);
        }
    }
    let last = r.len() - 9;
    assert(r.subrange(last, r.len() as int) =~= "</source>"@) by {
        assert forall|k: int| 0 <= k < 9 implies r[last + k] == "</source>"@[k] by {
            assert(r[last + k] == e[k + 1]);
        }
    }
    if stands_at(r, "</source>"@, i) {
        let found = r.subrange(i, i + 9);
        assert(found[0] == r[i] && found[1] == r[i + 1] && found[2] == r[i + 2]);
        if i == 0 {
            assert(r[1] == a[1]);
        } else if i == d.len() + 49 {
            assert(r[i + 2] == b[i + 2 - at_b]);
        } else if i == d.len() + 57 {
            assert(r[i + 1] == b[i + 1 - at_b]);
        }
    }
}

} // verus!
