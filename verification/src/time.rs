//! Instants and their textual forms.

use vstd::prelude::*;

verus! {

/// First second of the calendar that `chrono` can represent.
pub const MIN_SECS: i64 = -8_334_601_228_800;

/// Last second of the calendar that `chrono` can represent.
pub const MAX_SECS: i64 = 8_210_266_876_799;

/// A point in time in UTC: whole seconds since 1970-01-01T00:00:00Z and the
/// nanoseconds within the second. A leap second is the second `:59` with
/// 1_000_000_000 nanoseconds or more.
#[derive(Clone, Copy, Debug, PartialEq, Eq, Structural)]
pub struct Timestamp {
    pub(crate) secs: i64,
    pub(crate) nanos: u32,
}

/// Whether seconds and nanoseconds name an instant of the calendar.
pub open spec fn valid_instant(secs: int, nanos: int) -> bool {
    &&& MIN_SECS <= secs <= MAX_SECS
    &&& 0 <= nanos < 2_000_000_000
    &&& nanos >= 1_000_000_000 ==> secs % 60 == 59
}

/// Whether instant `a` comes before instant `b`.
pub open spec fn earlier(a: Timestamp, b: Timestamp) -> bool {
    a.seconds() < b.seconds() || (a.seconds() == b.seconds() && a.nanoseconds() < b.nanoseconds())
}

/// The later of two instants.
pub open spec fn later_of(a: Timestamp, b: Timestamp) -> Timestamp {
    if earlier(a, b) {
        b
    } else {
        a
    }
}

impl Timestamp {
    #[verifier::type_invariant]
    spec fn well_formed(self) -> bool {
        valid_instant(self.secs as int, self.nanos as int)
    }

    /// Whole seconds since the epoch.
    pub closed spec fn seconds(self) -> int {
        self.secs as int
    }

    /// Nanoseconds within the second.
    pub closed spec fn nanoseconds(self) -> int {
        self.nanos as int
    }

    /// The instant with these seconds and nanoseconds, if the calendar has it.
    pub fn new(secs: i64, nanos: u32) -> (r: Option<Timestamp>)
        ensures
            r is Some <==> valid_instant(secs as int, nanos as int),
            r matches Some(t) ==> t.seconds() == secs && t.nanoseconds() == nanos,
    {
        if MIN_SECS <= secs && secs <= MAX_SECS && nanos < 2_000_000_000 && (nanos < 1_000_000_000
            || (secs % 60 == 59 || secs % 60 == -1)) {
            assert(nanos >= 1_000_000_000 ==> secs as int % 60 == 59);
            Some(Timestamp { secs, nanos })
        } else {
            None
        }
    }

    /// Whole seconds since the epoch.
    pub fn unix_secs(&self) -> (r: i64)
        ensures
            r == self.seconds(),
            MIN_SECS <= r <= MAX_SECS,
    {
        proof {
            use_type_invariant(self);
        }
        self.secs
    }

    /// Nanoseconds within the second.
    pub fn subsec_nanos(&self) -> (r: u32)
        ensures
            r == self.nanoseconds(),
            r < 2_000_000_000,
    {
        proof {
            use_type_invariant(self);
        }
        self.nanos
    }

    /// Whether this instant comes before `other`.
    pub fn is_before(&self, other: &Timestamp) -> (r: bool)
        ensures
            r == earlier(*self, *other),
    {
        self.secs < other.secs || (self.secs == other.secs && self.nanos < other.nanos)
    }

    /// The later of this instant and `other`.
    pub fn latest(&self, other: &Timestamp) -> (r: Timestamp)
        ensures
            r == later_of(*self, *other),
    {
        if self.is_before(other) {
            *other
        } else {
            *self
        }
    }
}

/// Whether `t` lies more than `secs` seconds before `now`. Going back from a leap
/// second starts at the second after it.
pub open spec fn older_than(t: Timestamp, now: Timestamp, secs: int) -> bool {
    let (limit, nanos) = if secs > 0 && now.nanoseconds() >= 1_000_000_000 {
        (now.seconds() + 1 - secs, now.nanoseconds() - 1_000_000_000)
    } else {
        (now.seconds() - secs, now.nanoseconds())
    };
    t.seconds() < limit || (t.seconds() == limit && t.nanoseconds() < nanos)
}

/// Whether `t` lies more than `secs` seconds before `now`.
pub fn is_older_than(t: &Timestamp, now: &Timestamp, secs: u32) -> (r: bool)
    ensures
        r == older_than(*t, *now, secs as int),
{
    let leap: bool = secs > 0 && now.subsec_nanos() >= 1_000_000_000;
    let limit: i64 = if leap {
        now.unix_secs() + 1 - secs as i64
    } else {
        now.unix_secs() - secs as i64
    };
    let nanos: u32 = if leap {
        now.subsec_nanos() - 1_000_000_000
    } else {
        now.subsec_nanos()
    };
    t.unix_secs() < limit || (t.unix_secs() == limit && t.subsec_nanos() < nanos)
}

/// What `chrono::DateTime::to_rfc3339` writes for a UTC instant.
pub uninterp spec fn rfc3339_text(secs: int, nanos: int) -> Seq<char>;

/// Calls `chrono::DateTime::<Utc>::from_timestamp` and `to_rfc3339`. The text
/// is named, not described.
#[verifier::external_body]
pub(crate) fn rfc3339_of(secs: i64, nanos: u32) -> (r: String)
    requires
        valid_instant(secs as int, nanos as int),
    ensures
        r@ == rfc3339_text(secs as int, nanos as int),
{
    chrono::DateTime::<chrono::Utc>::from_timestamp(secs, nanos).unwrap().to_rfc3339()
}

/// The instant as RFC 3339 text.
pub fn to_rfc3339(t: &Timestamp) -> (r: String)
    ensures
        r@ == rfc3339_text(t.seconds(), t.nanoseconds()),
{
    proof {
        use_type_invariant(t);
    }
    rfc3339_of(t.secs, t.nanos)
}

/// The instant that `chrono::DateTime::parse_from_rfc3339` reads from a text,
/// as seconds and nanoseconds in UTC; `None` where it refuses the text.
pub uninterp spec fn rfc3339_instant(text: Seq<char>) -> Option<(int, int)>;

/// The view of a pair of seconds and nanoseconds.
pub open spec fn instant_view(r: Option<(i64, u32)>) -> Option<(int, int)> {
    match r {
        Some(p) => Some((p.0 as int, p.1 as int)),
        None => None,
    }
}

/// Calls `chrono::DateTime::parse_from_rfc3339`. What it reads is named; that
/// it names an instant of the calendar is stated, since the call hands out a
/// `DateTime`.
#[verifier::external_body]
pub(crate) fn rfc3339_read(s: &str) -> (r: Option<(i64, u32)>)
    ensures
        instant_view(r) == rfc3339_instant(s@),
        r matches Some(p) ==> valid_instant(p.0 as int, p.1 as int),
{
    match chrono::DateTime::parse_from_rfc3339(s) {
        Ok(dt) => Some((dt.timestamp(), dt.timestamp_subsec_nanos())),
        Err(_) => None,
    }
}

/// Whether an optional instant is the one with these seconds and nanoseconds.
pub open spec fn is_instant(r: Option<Timestamp>, p: Option<(int, int)>) -> bool {
    match p {
        Some(q) => r matches Some(t) && t.seconds() == q.0 && t.nanoseconds() == q.1,
        None => r is None,
    }
}

/// Reads an instant from RFC 3339 text.
pub fn parse_rfc3339(s: &str) -> (r: Option<Timestamp>)
    ensures
        is_instant(r, rfc3339_instant(s@)),
{
    match rfc3339_read(s) {
        Some(p) => Timestamp::new(p.0, p.1),
        None => None,
    }
}

/// Midnight, in seconds since the epoch, of the day that
/// `chrono::NaiveDate::parse_from_str` reads from a text under a pattern.
pub uninterp spec fn date_midnight(text: Seq<char>, pattern: Seq<char>) -> Option<int>;

/// The view of optional seconds.
pub open spec fn secs_view(r: Option<i64>) -> Option<int> {
    match r {
        Some(n) => Some(n as int),
        None => None,
    }
}

/// Calls `chrono::NaiveDate::parse_from_str`. The day it reads is named; stated
/// is that the whole day lies in the calendar and starts at a multiple of 86400
/// seconds.
#[verifier::external_body]
pub(crate) fn date_read(s: &str, pattern: &str) -> (r: Option<i64>)
    ensures
        secs_view(r) == date_midnight(s@, pattern@),
        r matches Some(n) ==> MIN_SECS <= n && n + 86_399 <= MAX_SECS && n % 86_400 == 0,
{
    match chrono::NaiveDate::parse_from_str(s, pattern) {
        Ok(date) => Some(date.and_time(chrono::NaiveTime::MIN).and_utc().timestamp()),
        Err(_) => None,
    }
}

/// What `chrono` writes for an instant under a `strftime` pattern.
pub uninterp spec fn strftime_text(secs: int, nanos: int, pattern: Seq<char>) -> Seq<char>;

/// Calls `chrono::DateTime::<Utc>::format` with one of the patterns `%Y-%m-%d`,
/// `%Y%m%d` and `%Y-%m-%d %H:%M`. The text is named, not described.
#[verifier::external_body]
pub(crate) fn strftime_of(secs: i64, nanos: u32, pattern: &str) -> (r: String)
    requires
        valid_instant(secs as int, nanos as int),
        pattern@ == "%Y-%m-%d"@ || pattern@ == "%Y%m%d"@ || pattern@ == "%Y-%m-%d %H:%M"@,
    ensures
        r@ == strftime_text(secs as int, nanos as int, pattern@),
{
    chrono::DateTime::<chrono::Utc>::from_timestamp(secs, nanos).unwrap().format(pattern).to_string()
}

/// The text of an instant under a `strftime` pattern.
pub open spec fn formatted(t: Timestamp, pattern: Seq<char>) -> Seq<char> {
    strftime_text(t.seconds(), t.nanoseconds(), pattern)
}

/// The day of an instant, as `2026-04-24`.
pub fn format_date(t: &Timestamp) -> (r: String)
    ensures
        r@ == formatted(*t, "%Y-%m-%d"@),
{
    proof {
        use_type_invariant(t);
    }
    strftime_of(t.secs, t.nanos, "%Y-%m-%d")
}

/// The day of an instant, as `20260424`.
pub fn format_compact_date(t: &Timestamp) -> (r: String)
    ensures
        r@ == formatted(*t, "%Y%m%d"@),
{
    proof {
        use_type_invariant(t);
    }
    strftime_of(t.secs, t.nanos, "%Y%m%d")
}

/// The minute of an instant, as `2026-04-24 12:00`.
pub fn format_minute(t: &Timestamp) -> (r: String)
    ensures
        r@ == formatted(*t, "%Y-%m-%d %H:%M"@),
{
    proof {
        use_type_invariant(t);
    }
    strftime_of(t.secs, t.nanos, "%Y-%m-%d %H:%M")
}

/// The number of whole seconds in a span of nanoseconds, rounded toward zero.
pub open spec fn toward_zero(nanos: int) -> int {
    if nanos >= 0 {
        nanos / 1_000_000_000
    } else {
        -((-nanos) / 1_000_000_000)
    }
}

/// What a leap second adds to the span from `b` to `a`: the earlier of the two
/// times of day counts for a second of its own where it lies in one.
pub open spec fn leap_seconds(a_secs: int, a_nanos: int, b_secs: int, b_nanos: int) -> int {
    if a_secs % 86_400 > b_secs % 86_400 && b_nanos >= 1_000_000_000 {
        1
    } else if a_secs % 86_400 < b_secs % 86_400 && a_nanos >= 1_000_000_000 {
        -1
    } else {
        0
    }
}

/// Whole seconds from `b` to `a`, rounded toward zero.
pub open spec fn whole_seconds(a_secs: int, a_nanos: int, b_secs: int, b_nanos: int) -> int {
    toward_zero(
        (a_secs - b_secs + leap_seconds(a_secs, a_nanos, b_secs, b_nanos)) * 1_000_000_000 + a_nanos
            - b_nanos,
    )
}

/// Calls `chrono::DateTime::signed_duration_since`, which subtracts the two
/// instants and counts leap seconds by the times of day, and
/// `TimeDelta::num_seconds`, which rounds toward zero.
#[verifier::external_body]
pub(crate) fn seconds_between(a_secs: i64, a_nanos: u32, b_secs: i64, b_nanos: u32) -> (r: i64)
    requires
        valid_instant(a_secs as int, a_nanos as int),
        valid_instant(b_secs as int, b_nanos as int),
    ensures
        r == whole_seconds(a_secs as int, a_nanos as int, b_secs as int, b_nanos as int),
{
    let a = chrono::DateTime::<chrono::Utc>::from_timestamp(a_secs, a_nanos).unwrap();
    let b = chrono::DateTime::<chrono::Utc>::from_timestamp(b_secs, b_nanos).unwrap();
    a.signed_duration_since(b).num_seconds()
}

/// Whole seconds from `b` to `a`.
pub open spec fn span_secs(a: Timestamp, b: Timestamp) -> int {
    whole_seconds(a.seconds(), a.nanoseconds(), b.seconds(), b.nanoseconds())
}

/// Whole seconds from `b` to `a`, rounded toward zero.
pub fn elapsed_secs(a: &Timestamp, b: &Timestamp) -> (r: i64)
    ensures
        r == span_secs(*a, *b),
{
    proof {
        use_type_invariant(a);
        use_type_invariant(b);
    }
    seconds_between(a.secs, a.nanos, b.secs, b.nanos)
}

/// The start of the day, or its last second, as an instant.
pub open spec fn day_bound(midnight: Option<int>, end: bool) -> Option<(int, int)> {
    match midnight {
        Some(n) => Some((if end { n + 86_399 } else { n }, 0)),
        None => None,
    }
}

/// What a date argument means: an RFC 3339 instant, or else a day `YYYY-MM-DD`,
/// taken at its start or at its last second.
pub open spec fn date_argument(text: Seq<char>, end: bool) -> Option<(int, int)> {
    match rfc3339_instant(text) {
        Some(p) => Some(p),
        None => day_bound(date_midnight(text, "%Y-%m-%d"@), end),
    }
}

/// Reads a date argument, a bare day standing for its first second.
pub fn parse_dt_start(s: &str) -> (r: Option<Timestamp>)
    ensures
        is_instant(r, date_argument(s@, false)),
{
    if let Some(p) = rfc3339_read(s) {
        return Timestamp::new(p.0, p.1);
    }
    match date_read(s, "%Y-%m-%d") {
        Some(n) => Timestamp::new(n, 0),
        None => None,
    }
}

/// Reads a date argument, a bare day standing for its last second.
pub fn parse_dt_end(s: &str) -> (r: Option<Timestamp>)
    ensures
        is_instant(r, date_argument(s@, true)),
{
    if let Some(p) = rfc3339_read(s) {
        return Timestamp::new(p.0, p.1);
    }
    match date_read(s, "%Y-%m-%d") {
        Some(n) => Timestamp::new(n + 86_399, 0),
        None => None,
    }
}

} // verus!
