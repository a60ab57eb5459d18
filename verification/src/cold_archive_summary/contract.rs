//! The contract a summary is held to: it is short enough, stays in the script
//! of its source, and is made of what the source says.

use crate::text::{chars_of, decimal, push_decimal};
use std::collections::HashSet;
use vstd::prelude::*;
use vstd::string::*;

verus! {

/// Whether a character is a unified CJK ideograph of the base block.
pub open spec fn is_cjk(c: char) -> bool {
    0x4e00 <= c as u32 <= 0x9fff
}

/// How many characters are CJK ideographs.
pub open spec fn cjk_count(s: Seq<char>) -> nat
    decreases s.len(),
{
    if s.len() == 0 {
        0
    } else {
        cjk_count(s.drop_last()) + if is_cjk(s.last()) { 1nat } else { 0nat }
    }
}

/// The share of CJK ideographs in a text, as a count out of a total.
pub fn cjk_ratio(s: &str) -> (r: (usize, usize))
    ensures
        r.0 == cjk_count(s@),
        r.1 == s@.len(),
        r.0 <= r.1,
{
    let v: Vec<char> = chars_of(s);
    let mut n: usize = 0;
    let mut i: usize = 0;
    while i < v.len()
        invariant
            i <= v@.len(),
            v@ == s@,
            n <= i,
            n == cjk_count(v@.take(i as int)),
        decreases v@.len() - i,
    {
        assert(v@.take(i + 1).drop_last() =~= v@.take(i as int));
        let c: u32 = v[i] as u32;
        if 0x4e00 <= c && c <= 0x9fff {
            n = n + 1;
        }
        i = i + 1;
    }
    assert(v@.take(i as int) =~= s@);
    (n, v.len())
}

/// Whether three characters stand next to each other in a text.
pub open spec fn has_trigram(s: Seq<char>, a: char, b: char, c: char) -> bool {
    exists|i: int| 0 <= i && i + 2 < s.len() && #[trigger] s[i] == a && s[i + 1] == b && s[i + 2] == c
}

/// How many of the first `count` trigrams of `summary` occur in `source`.
pub open spec fn trigram_hits(source: Seq<char>, summary: Seq<char>, count: int) -> nat
    decreases count,
{
    if count <= 0 {
        0
    } else {
        trigram_hits(source, summary, count - 1) + if has_trigram(
            source,
            summary[count - 1],
            summary[count],
            summary[count + 1],
        ) {
            1nat
        } else {
            0nat
        }
    }
}

/// How many trigrams a text has.
pub open spec fn trigram_total(s: Seq<char>) -> int {
    if s.len() < 3 {
        0
    } else {
        s.len() - 2
    }
}

/// Three characters as one number; different trigrams have different numbers.
spec fn packed(a: char, b: char, c: char) -> int {
    (a as u32) * 4398046511104 + (b as u32) * 2097152 + (c as u32)
}

fn pack(a: char, b: char, c: char) -> (r: u64)
    ensures
        r == packed(a, b, c),
{
    let x: u64 = a as u64;
    let y: u64 = b as u64;
    let z: u64 = c as u64;
    assert(x <= 0x10ffff && y <= 0x10ffff && z <= 0x10ffff);
    x * 4398046511104 + y * 2097152 + z
}

proof fn lemma_char_bound(c: char)
    ensures
        0 <= c as u32 <= 0x10ffff,
{
}

proof fn lemma_packed_injective(a: char, b: char, c: char, d: char, e: char, f: char)
    ensures
        packed(a, b, c) == packed(d, e, f) ==> a == d && b == e && c == f,
{
    assert(a as u32 <= 0x10ffff && b as u32 <= 0x10ffff && c as u32 <= 0x10ffff);
    assert(d as u32 <= 0x10ffff && e as u32 <= 0x10ffff && f as u32 <= 0x10ffff);
}

fn trigram_set(v: &Vec<char>) -> (r: HashSet<u64>)
    ensures
        forall|a: char, b: char, c: char|
            r@.contains(#[trigger] packed(a, b, c) as u64) <==> has_trigram(v@, a, b, c),
{
    broadcast use vstd::std_specs::hash::group_hash_axioms;

    let mut set: HashSet<u64> = HashSet::new();
    let n: usize = v.len();
    if n < 3 {
        return set;
    }
    let mut i: usize = 0;
    while i < n - 2
        invariant
            3 <= n == v@.len(),
            i <= n - 2,
            forall|x: u64|
                #[trigger] set@.contains(x) <==> exists|k: int|
                    0 <= k < i && x == #[trigger] packed(v@[k], v@[k + 1], v@[k + 2]),
        decreases n - 2 - i,
    {
        broadcast use vstd::std_specs::hash::group_hash_axioms;

        let ghost before = set@;
        let key: u64 = pack(v[i], v[i + 1], v[i + 2]);
        set.insert(key);
        proof {
            assert forall|x: u64| #[trigger] set@.contains(x) <==> exists|k: int|
                0 <= k < i + 1 && x == #[trigger] packed(v@[k], v@[k + 1], v@[k + 2]) by {
                assert(set@.contains(x) <==> before.contains(x) || x == key);
                if before.contains(x) {
                    let k = choose|k: int|
                        0 <= k < i && x == #[trigger] packed(v@[k], v@[k + 1], v@[k + 2]);
                    assert(x == packed(v@[k], v@[k + 1], v@[k + 2]));
                }
                if x == key {
                    assert(x == packed(v@[i as int], v@[i + 1], v@[i + 2]));
                }
                if exists|k: int|
                    0 <= k < i + 1 && x == #[trigger] packed(v@[k], v@[k + 1], v@[k + 2]) {
                    let k = choose|k: int|
                        0 <= k < i + 1 && x == #[trigger] packed(v@[k], v@[k + 1], v@[k + 2]);
                    if k < i {
                        assert(before.contains(x));
                    }
                }
            }
        }
        i = i + 1;
    }
    proof {
        assert forall|a: char, b: char, c: char|
            set@.contains(#[trigger] packed(a, b, c) as u64) <==> has_trigram(v@, a, b, c) by {
            lemma_char_bound(a);
            lemma_char_bound(b);
            lemma_char_bound(c);
            let x = packed(a, b, c) as u64;
            if set@.contains(x) {
                let k = choose|k: int|
                    0 <= k < i && x == #[trigger] packed(v@[k], v@[k + 1], v@[k + 2]);
                lemma_packed_injective(a, b, c, v@[k], v@[k + 1], v@[k + 2]);
                assert(v@[k] == a && v@[k + 1] == b && v@[k + 2] == c);
            }
            if has_trigram(v@, a, b, c) {
                let k = choose|k: int|
                    0 <= k && k + 2 < v@.len() && #[trigger] v@[k] == a && v@[k + 1] == b && v@[k
                        + 2] == c;
                assert(x == packed(v@[k], v@[k + 1], v@[k + 2]));
            }
        }
    }
    set
}

/// The share of the trigrams of `summary` that occur in `source`, as a count
/// out of a total. A summary of fewer than three characters has none.
pub fn trigram_coverage(source: &str, summary: &str) -> (r: (usize, usize))
    ensures
        r.0 == trigram_hits(source@, summary@, trigram_total(summary@)),
        r.1 == trigram_total(summary@),
        r.0 <= r.1,
{
    broadcast use vstd::std_specs::hash::group_hash_axioms;

    let grams: HashSet<u64> = trigram_set(&chars_of(source));
    let v: Vec<char> = chars_of(summary);
    if v.len() < 3 {
        return (0, 0);
    }
    let total: usize = v.len() - 2;
    let mut hits: usize = 0;
    let mut i: usize = 0;
    while i < total
        invariant
            v@ == summary@,
            v@.len() >= 3,
            total == v@.len() - 2,
            i <= total,
            hits <= i,
            hits == trigram_hits(source@, summary@, i as int),
            forall|a: char, b: char, c: char|
                grams@.contains(#[trigger] packed(a, b, c) as u64) <==> has_trigram(
                    source@,
                    a,
                    b,
                    c,
                ),
        decreases total - i,
    {
        broadcast use vstd::std_specs::hash::group_hash_axioms;

        let key: u64 = pack(v[i], v[i + 1], v[i + 2]);
        assert(key == packed(v@[i as int], v@[i + 1], v@[i + 2]) as u64);
        if grams.contains(&key) {
            hits = hits + 1;
        }
        i = i + 1;
    }
    (hits, total)
}

/// Why a summary is refused.
#[derive(Clone, Copy, Debug, PartialEq, Eq, Structural)]
pub enum ContractViolation {
    /// It is longer than one and a half times the target.
    BoundedLength { chars: usize, max_chars: usize },
    /// Its share of CJK ideographs is more than a tenth away from that of the
    /// source: it was probably translated.
    ScriptPreservation {
        source_cjk: usize,
        source_chars: usize,
        summary_cjk: usize,
        summary_chars: usize,
    },
    /// Less than 65 in 100 of its trigrams occur in the source: it was probably
    /// made up.
    TrigramCoverage { hits: usize, total: usize },
}

/// Most characters a summary may have: one and a half times the target.
pub open spec fn max_summary_chars(target: usize) -> int {
    target * 3 / 2
}

/// Whether the shares `a` out of `b` and `c` out of `d` are more than a tenth
/// apart. A share of nothing counts as 0.
pub open spec fn apart_by_a_tenth(a: int, b: int, c: int, d: int) -> bool {
    let (bb, dd) = (if b == 0 { 1int } else { b }, if d == 0 { 1int } else { d });
    let gap = a * dd - c * bb;
    (if gap < 0 { -gap } else { gap }) * 10 > bb * dd
}

/// What the contract says of a summary.
pub open spec fn violation(source: Seq<char>, summary: Seq<char>, target: usize) -> Option<
    ContractViolation,
> {
    if summary.len() > max_summary_chars(target) {
        Some(
            ContractViolation::BoundedLength {
                chars: summary.len() as usize,
                max_chars: max_summary_chars(target) as usize,
            },
        )
    } else if apart_by_a_tenth(
        cjk_count(source) as int,
        source.len() as int,
        cjk_count(summary) as int,
        summary.len() as int,
    ) {
        Some(
            ContractViolation::ScriptPreservation {
                source_cjk: cjk_count(source) as usize,
                source_chars: source.len() as usize,
                summary_cjk: cjk_count(summary) as usize,
                summary_chars: summary.len() as usize,
            },
        )
    } else if trigram_total(summary) > 0 && trigram_hits(source, summary, trigram_total(summary))
        * 100 < trigram_total(summary) * 65 {
        Some(
            ContractViolation::TrigramCoverage {
                hits: trigram_hits(source, summary, trigram_total(summary)) as usize,
                total: trigram_total(summary) as usize,
            },
        )
    } else {
        None
    }
}

fn shares_apart(a: usize, b: usize, c: usize, d: usize) -> (r: bool)
    requires
        a <= b,
        c <= d,
    ensures
        r == apart_by_a_tenth(a as int, b as int, c as int, d as int),
{
    let bb: u128 = if b == 0 {
        1
    } else {
        b as u128
    };
    let dd: u128 = if d == 0 {
        1
    } else {
        d as u128
    };
    proof {
        let m: int = 0xffff_ffff_ffff_ffff;
        assert(a <= m && b <= m && c <= m && d <= m);
        assert(a * dd <= m * m) by (nonlinear_arith)
            requires
                0 <= a <= m,
                0 <= dd <= m,
                m == 0xffff_ffff_ffff_ffff,
        ;
        assert(c * bb <= m * m) by (nonlinear_arith)
            requires
                0 <= c <= m,
                0 <= bb <= m,
                m == 0xffff_ffff_ffff_ffff,
        ;
        assert(bb * dd <= m * m) by (nonlinear_arith)
            requires
                0 <= bb <= m,
                0 <= dd <= m,
                m == 0xffff_ffff_ffff_ffff,
        ;
        assert(m * m < 0x1_0000_0000_0000_0000_0000_0000_0000_0000) by (nonlinear_arith)
            requires
                m == 0xffff_ffff_ffff_ffff,
        ;
    }
    let left: u128 = a as u128 * dd;
    let right: u128 = c as u128 * bb;
    let gap: u128 = if left < right {
        right - left
    } else {
        left - right
    };
    let unit: u128 = bb * dd;
    let tenth: u128 = unit / 10;
    let rest: u128 = unit % 10;
    proof {
        assert(a * dd == left && c * bb == right);
        assert(unit == 10 * tenth + rest);
    }
    gap > tenth
}

/// Holds a summary to the contract: its length, then its script, then what it
/// is made of.
pub fn validate_cold_archive_contract(content: &str, summary: &str, target_chars: usize) -> (r:
    Result<(), ContractViolation>)
    ensures
        match r {
            Ok(_) => violation(content@, summary@, target_chars) is None,
            Err(v) => violation(content@, summary@, target_chars) == Some(v) && is_plausible(v),
        },
{
    let chars: usize = summary.unicode_len();
    let max_chars: u128 = target_chars as u128 * 3 / 2;
    if chars as u128 > max_chars {
        return Err(ContractViolation::BoundedLength { chars, max_chars: max_chars as usize });
    }
    let src: (usize, usize) = cjk_ratio(content);
    let sum: (usize, usize) = cjk_ratio(summary);
    if shares_apart(src.0, src.1, sum.0, sum.1) {
        return Err(ContractViolation::ScriptPreservation {
            source_cjk: src.0,
            source_chars: src.1,
            summary_cjk: sum.0,
            summary_chars: sum.1,
        });
    }
    let (hits, total) = trigram_coverage(content, summary);
    if total > 0 && (hits as u128) * 100 < (total as u128) * 65 {
        return Err(ContractViolation::TrigramCoverage { hits, total });
    }
    Ok(())
}

/// A quotient rounded to the nearest integer, and to the even one of two that
/// are equally near.
pub open spec fn nearest(a: int, b: int) -> int {
    let rest = a % b;
    if 2 * rest < b || (2 * rest == b && (a / b) % 2 == 0) {
        a / b
    } else {
        a / b + 1
    }
}

/// The power of two that takes `n` to `least` or more, and is the first to do so.
pub open spec fn binary_scale(n: int, least: int) -> int
    decreases 2 * least - n,
{
    if n <= 0 || n >= least {
        1
    } else {
        2 * binary_scale(2 * n, least)
    }
}

/// A share in hundredths; a share of nothing is 0.
///
/// The share is held to the 53 binary digits of a double, and that number is
/// rounded. Only a share halfway between two hundredths tells the difference:
/// one eighth, which a double holds exactly, goes to the even 0.12, and 3 in 200,
/// which it holds a little too small, to 0.01. A count under 2 to the power of 53
/// is a double itself; no text in memory has more characters.
pub open spec fn hundredths(n: int, d: int) -> int {
    if n <= 0 || d <= 0 {
        0
    } else {
        let scale = binary_scale(n, 0x10_0000_0000_0000 * d);
        nearest(nearest(n * scale, d) * 100, scale)
    }
}

fn nearest_of(a: u128, b: u128) -> (r: u128)
    requires
        0 < b <= u128::MAX / 2,
        a < u128::MAX,
    ensures
        r == nearest(a as int, b as int),
        r <= a / b + 1,
{
    let rest: u128 = a % b;
    let whole: u128 = a / b;
    if 2 * rest < b || (2 * rest == b && whole % 2 == 0) {
        whole
    } else {
        assert(whole <= a) by (nonlinear_arith)
            requires
                whole == a / b,
                b > 0,
        ;
        whole + 1
    }
}

fn scale_of(n: usize, d: usize) -> (s: u128)
    requires
        0 < n <= d,
    ensures
        s == binary_scale(n as int, 0x10_0000_0000_0000 * d),
        0 < s <= n * s < 0x20_0000_0000_0000 * d,
{
    let least: u128 = 0x10_0000_0000_0000 * (d as u128);
    let mut scaled: u128 = n as u128;
    let mut s: u128 = 1;
    while scaled < least
        invariant
            0 < n <= d,
            least == 0x10_0000_0000_0000 * d,
            scaled == n * s,
            0 < s <= scaled < 2 * least,
            s * binary_scale(scaled as int, least as int) == binary_scale(n as int, least as int),
        decreases 2 * least - scaled,
    {
        assert(n * (2 * s) == 2 * (n * s)) by (nonlinear_arith);
        assert((2 * s) * binary_scale(2 * scaled, least as int) == s * (2 * binary_scale(
            2 * scaled,
            least as int,
        ))) by (nonlinear_arith);
        scaled = 2 * scaled;
        s = 2 * s;
    }
    assert(s * 1 == s);
    s
}

/// Hundredths with two digits behind the point.
pub open spec fn hundredths_text(h: int) -> Seq<char> {
    decimal((h / 100) as nat) + "."@ + decimal(((h / 10) % 10) as nat) + decimal((h % 10) as nat)
}

fn push_share(s: &mut String, n: usize, d: usize)
    requires
        n <= d,
    ensures
        final(s)@ == old(s)@ + hundredths_text(hundredths(n as int, d as int)),
{
    let h: u128 = if n == 0 {
        0
    } else {
        let scale: u128 = scale_of(n, d);
        let double: u128 = nearest_of(n as u128 * scale, d as u128);
        assert((n * scale) / (d as int) < 0x20_0000_0000_0000) by (nonlinear_arith)
            requires
                n * scale < 0x20_0000_0000_0000 * d,
                d > 0,
        ;
        assert((double * 100) / (scale as int) <= double * 100) by (nonlinear_arith)
            requires
                scale > 0,
                double >= 0,
        ;
        nearest_of(double * 100, scale)
    };
    let h64: u64 = h as u64;
    push_decimal(s, h64 / 100);
    s.append(".");
    push_decimal(s, (h64 / 10) % 10);
    push_decimal(s, h64 % 10);
    assert(s@ =~= old(s)@ + hundredths_text(hundredths(n as int, d as int)));
}

/// Whether a violation can come from the contract: counts do not exceed their
/// totals.
pub open spec fn is_plausible(v: ContractViolation) -> bool {
    match v {
        ContractViolation::BoundedLength { .. } => true,
        ContractViolation::ScriptPreservation {
            source_cjk,
            source_chars,
            summary_cjk,
            summary_chars,
        } => source_cjk <= source_chars && summary_cjk <= summary_chars,
        ContractViolation::TrigramCoverage { hits, total } => hits <= total,
    }
}

/// The words for a violation.
pub open spec fn violation_text(v: ContractViolation) -> Seq<char> {
    match v {
        ContractViolation::BoundedLength { chars, max_chars } => {
            "Cap C contract INV-3 bounded_length: summary "@ + decimal(chars as nat)
                + " chars exceeds 1.5×target ("@ + decimal(max_chars as nat) + ")."@
        },
        ContractViolation::ScriptPreservation {
            source_cjk,
            source_chars,
            summary_cjk,
            summary_chars,
        } => {
            "Cap C contract INV-5 script_preservation: CJK ratio drift |"@ + hundredths_text(
                hundredths(source_cjk as int, source_chars as int),
            ) + "-"@ + hundredths_text(hundredths(summary_cjk as int, summary_chars as int))
                + "| > 0.10 — auto-translation suspected."@
        },
        ContractViolation::TrigramCoverage { hits, total } => {
            "Cap C contract INV-1 trigram_coverage: "@ + hundredths_text(
                hundredths(hits as int, total as int),
            ) + " < 0.65 — summary likely fabricated."@
        },
    }
}

impl ContractViolation {
    /// The words for a violation.
    pub fn message(&self) -> (r: String)
        requires
            is_plausible(*self),
        ensures
            r@ == violation_text(*self),
    {
        match self {
            ContractViolation::BoundedLength { chars, max_chars } => {
                let mut s: String = "Cap C contract INV-3 bounded_length: summary ".to_owned();
                push_decimal(&mut s, *chars as u64);
                s.append(" chars exceeds 1.5×target (");
                push_decimal(&mut s, *max_chars as u64);
                s.append(").");
                s
            },
            ContractViolation::ScriptPreservation {
                source_cjk,
                source_chars,
                summary_cjk,
                summary_chars,
            } => {
                let mut s: String =
                    "Cap C contract INV-5 script_preservation: CJK ratio drift |".to_owned();
                push_share(&mut s, *source_cjk, *source_chars);
                s.append("-");
                push_share(&mut s, *summary_cjk, *summary_chars);
                s.append("| > 0.10 — auto-translation suspected.");
                s
            },
            ContractViolation::TrigramCoverage { hits, total } => {
                let mut s: String = "Cap C contract INV-1 trigram_coverage: ".to_owned();
                push_share(&mut s, *hits, *total);
                s.append(" < 0.65 — summary likely fabricated.");
                s
            },
        }
    }
}

/// A text is its own faithful summary, as long as it is short enough.
pub proof fn law_source_covers_itself(source: Seq<char>, target: usize)
    requires
        source.len() <= max_summary_chars(target),
    ensures
        violation(source, source, target) is None,
{
    lemma_all_hits(source, trigram_total(source));
    assert(!apart_by_a_tenth(
        cjk_count(source) as int,
        source.len() as int,
        cjk_count(source) as int,
        source.len() as int,
    )) by {
        let b = if source.len() == 0 {
            1int
        } else {
            source.len() as int
        };
        assert(b * b > 0) by (nonlinear_arith)
            requires
                b >= 1,
        ;
    }
}

proof fn lemma_all_hits(s: Seq<char>, count: int)
    requires
        0 <= count <= trigram_total(s),
    ensures
        trigram_hits(s, s, count) == count,
    decreases count,
{
    if count > 0 {
        lemma_all_hits(s, count - 1);
        assert(has_trigram(s, s[count - 1], s[count], s[count + 1])) by {
            assert(s[count - 1] == s[count - 1]);
        }
    }
}

} // verus!
