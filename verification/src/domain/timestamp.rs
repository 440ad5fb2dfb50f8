//! Points in time, as the engine needs them: ordered, and grouped by day.

use vstd::prelude::*;

verus! {

/// The first second that a `Timestamp` can hold: 0001-01-01T00:00:00Z.
pub const MIN_SECS: i64 = -62_135_596_800;

/// The last second that a `Timestamp` can hold: 9999-12-31T23:59:59Z.
pub const MAX_SECS: i64 = 253_402_300_799;

/// The number of nanoseconds in a second.
pub const NANOS_PER_SEC: u32 = 1_000_000_000;

/// The number of seconds in a day.
pub const SECS_PER_DAY: i64 = 86_400;

/// Whether a count of seconds since 1970-01-01T00:00:00Z and a nanosecond
/// part denote a point in time that a `Timestamp` can hold.
pub open spec fn in_range(secs: int, nanos: int) -> bool {
    MIN_SECS <= secs <= MAX_SECS && 0 <= nanos < NANOS_PER_SEC
}

/// The calendar date, in UTC, of a second since 1970-01-01T00:00:00Z,
/// written as year, month and day with hyphens between them.
pub uninterp spec fn date_text(secs: int) -> Seq<char>;

/// The calendar date of a point in time given in nanoseconds since
/// 1970-01-01T00:00:00Z.
pub open spec fn day_of(nanos: int) -> Seq<char> {
    date_text(nanos / (NANOS_PER_SEC as int))
}

/// A point in time between the years 1 and 9999, with nanosecond
/// resolution. Its view is the number of nanoseconds since
/// 1970-01-01T00:00:00Z, so that an earlier point has a smaller view.
#[derive(Clone, Copy, Debug, PartialEq, Eq, PartialOrd, Ord, Hash)]
pub struct Timestamp {
    secs: i64,
    nanos: u32,
}

impl View for Timestamp {
    type V = int;

    closed spec fn view(&self) -> int {
        self.secs * NANOS_PER_SEC + self.nanos
    }
}

/// `chrono::Utc::now`, `DateTime::timestamp` and
/// `DateTime::timestamp_subsec_nanos`: the clock's reading as seconds since
/// 1970-01-01T00:00:00Z and nanoseconds. Nothing is claimed of the reading.
#[verifier::external_body]
fn clock_reading() -> (r: (i64, u32)) {
    let now = chrono::Utc::now();
    (now.timestamp(), now.timestamp_subsec_nanos())
}

/// `chrono::DateTime::from_timestamp` and `DateTime::format` with the
/// pattern `%Y-%m-%d`: the UTC calendar date of the given second, where
/// `from_timestamp` takes the second. It takes every second between the
/// years 1 and 9999.
#[verifier::external_body]
fn format_date(secs: i64) -> (r: Option<String>)
    ensures
        r matches Some(date) ==> date@ == date_text(secs as int),
        MIN_SECS <= secs <= MAX_SECS ==> r is Some,
{
    chrono::DateTime::from_timestamp(secs, 0).map(|t| t.format("%Y-%m-%d").to_string())
}

/// The moment that a text of the form `YYYY-MM-DD` denotes: midnight UTC
/// of that day, as seconds and nanoseconds. `None` for any other text.
pub uninterp spec fn parsed_day(text: Seq<char>) -> Option<(i64, u32)>;

/// The moment that a text of the form `YYYY-MM-DD HH:MM:SS +ZZZZ` denotes.
pub uninterp spec fn parsed_zoned(text: Seq<char>) -> Option<(i64, u32)>;

/// The moment that a text of the form `YYYY-MM-DD HH:MM:SS` denotes, taken
/// as UTC.
pub uninterp spec fn parsed_datetime(text: Seq<char>) -> Option<(i64, u32)>;

/// The moment that a text in the notation of RFC 3339 denotes.
pub uninterp spec fn parsed_rfc3339(text: Seq<char>) -> Option<(i64, u32)>;

/// `chrono::NaiveDate::parse_from_str` with the pattern `%Y-%m-%d`, then
/// `and_hms_opt(0, 0, 0)`, `and_utc` and `timestamp`: midnight UTC of the
/// day that the text denotes.
#[verifier::external_body]
fn parse_day(text: &str) -> (r: Option<(i64, u32)>)
    ensures
        r == parsed_day(text@),
{
    chrono::NaiveDate::parse_from_str(text, "%Y-%m-%d").ok().and_then(
        |d| d.and_hms_opt(0, 0, 0),
    ).map(|t| (t.and_utc().timestamp(), t.and_utc().timestamp_subsec_nanos()))
}

/// `chrono::DateTime::parse_from_str` with the pattern
/// `%Y-%m-%d %H:%M:%S %z`, then `timestamp` and `timestamp_subsec_nanos`.
#[verifier::external_body]
fn parse_zoned(text: &str) -> (r: Option<(i64, u32)>)
    ensures
        r == parsed_zoned(text@),
{
    chrono::DateTime::parse_from_str(text, "%Y-%m-%d %H:%M:%S %z").ok().map(
        |t| (t.timestamp(), t.timestamp_subsec_nanos()),
    )
}

/// `chrono::NaiveDateTime::parse_from_str` with the pattern
/// `%Y-%m-%d %H:%M:%S`, then `and_utc`, `timestamp` and
/// `timestamp_subsec_nanos`.
#[verifier::external_body]
fn parse_datetime(text: &str) -> (r: Option<(i64, u32)>)
    ensures
        r == parsed_datetime(text@),
{
    chrono::NaiveDateTime::parse_from_str(text, "%Y-%m-%d %H:%M:%S").ok().map(
        |t| (t.and_utc().timestamp(), t.and_utc().timestamp_subsec_nanos()),
    )
}

/// `chrono::DateTime::parse_from_rfc3339`, then `timestamp` and
/// `timestamp_subsec_nanos`.
#[verifier::external_body]
fn parse_rfc3339(text: &str) -> (r: Option<(i64, u32)>)
    ensures
        r == parsed_rfc3339(text@),
{
    chrono::DateTime::parse_from_rfc3339(text).ok().map(
        |t| (t.timestamp(), t.timestamp_subsec_nanos()),
    )
}

/// The notations of a moment that can be read.
#[derive(Clone, Copy, Debug, PartialEq, Eq, Structural)]
pub enum Notation {
    /// `YYYY-MM-DD`: midnight UTC of that day.
    Day,
    /// `YYYY-MM-DD HH:MM:SS +ZZZZ`.
    Zoned,
    /// `YYYY-MM-DD HH:MM:SS`, taken as UTC.
    DateTime,
    /// RFC 3339.
    Rfc3339,
}

/// What a text denotes in a notation, as seconds and nanoseconds.
pub open spec fn denoted(text: Seq<char>, notation: Notation) -> Option<(i64, u32)> {
    match notation {
        Notation::Day => parsed_day(text),
        Notation::Zoned => parsed_zoned(text),
        Notation::DateTime => parsed_datetime(text),
        Notation::Rfc3339 => parsed_rfc3339(text),
    }
}

/// The moment in range that a reading of seconds and nanoseconds is.
pub open spec fn moment_of(reading: Option<(i64, u32)>) -> Option<int> {
    match reading {
        Some((secs, nanos)) => if in_range(secs as int, nanos as int) {
            Some(secs * NANOS_PER_SEC + nanos)
        } else {
            None
        },
        None => None,
    }
}

/// Of two moments the one with fewer whole seconds is the earlier.
proof fn lemma_order(a_secs: int, a_nanos: int, b_secs: int, b_nanos: int)
    requires
        0 <= a_nanos < NANOS_PER_SEC,
        0 <= b_nanos < NANOS_PER_SEC,
    ensures
        a_secs < b_secs ==> a_secs * NANOS_PER_SEC + a_nanos < b_secs * NANOS_PER_SEC + b_nanos,
{
    assert(a_secs < b_secs ==> a_secs * 1_000_000_000 + a_nanos < b_secs * 1_000_000_000
        + b_nanos) by (nonlinear_arith)
        requires
            0 <= a_nanos < 1_000_000_000,
            0 <= b_nanos < 1_000_000_000,
    ;
}

/// Days taken off the seconds of a moment are taken off the moment.
proof fn lemma_days_off(secs: int, nanos: int, days: int)
    ensures
        (secs - days * SECS_PER_DAY) * NANOS_PER_SEC + nanos == secs * NANOS_PER_SEC + nanos - days
            * SECS_PER_DAY * NANOS_PER_SEC,
{
    assert((secs - days * 86_400) * 1_000_000_000 + nanos == secs * 1_000_000_000 + nanos - days
        * 86_400 * 1_000_000_000) by (nonlinear_arith);
}

impl Timestamp {
    /// The moment that `text` denotes in `notation`, where it denotes one
    /// that is in range.
    pub fn parse(text: &str, notation: Notation) -> (r: Option<Timestamp>)
        ensures
            r is Some <==> moment_of(denoted(text@, notation)) is Some,
            r matches Some(t) ==> Some(t@) == moment_of(denoted(text@, notation)),
    {
        let reading = match notation {
            Notation::Day => parse_day(text),
            Notation::Zoned => parse_zoned(text),
            Notation::DateTime => parse_datetime(text),
            Notation::Rfc3339 => parse_rfc3339(text),
        };
        match reading {
            Some((secs, nanos)) => Timestamp::new(secs, nanos),
            None => None,
        }
    }

    #[verifier::type_invariant]
    spec fn well_formed(self) -> bool {
        in_range(self.secs as int, self.nanos as int)
    }

    /// The whole seconds since 1970-01-01T00:00:00Z.
    pub closed spec fn spec_secs(self) -> int {
        self.secs as int
    }

    /// The nanoseconds since the last whole second.
    pub closed spec fn spec_nanos(self) -> int {
        self.nanos as int
    }

    /// The point in time `secs` seconds and `nanos` nanoseconds after
    /// 1970-01-01T00:00:00Z, or `None` where that is out of range.
    pub fn new(secs: i64, nanos: u32) -> (r: Option<Timestamp>)
        ensures
            r is Some <==> in_range(secs as int, nanos as int),
            r matches Some(t) ==> t.spec_secs() == secs && t.spec_nanos() == nanos && t@ == secs
                * NANOS_PER_SEC + nanos,
    {
        if MIN_SECS <= secs && secs <= MAX_SECS && nanos < NANOS_PER_SEC {
            Some(Timestamp { secs, nanos })
        } else {
            None
        }
    }

    /// The point in range that is nearest to the given reading.
    pub fn clamped(secs: i64, nanos: u32) -> (r: Timestamp)
        ensures
            in_range(secs as int, nanos as int) ==> r.spec_secs() == secs && r.spec_nanos()
                == nanos,
            secs < MIN_SECS ==> r.spec_secs() == MIN_SECS && r.spec_nanos() == 0,
            secs > MAX_SECS ==> r.spec_secs() == MAX_SECS && r.spec_nanos() == NANOS_PER_SEC - 1,
            MIN_SECS <= secs <= MAX_SECS && nanos >= NANOS_PER_SEC ==> r.spec_secs() == secs
                && r.spec_nanos() == NANOS_PER_SEC - 1,
    {
        if secs < MIN_SECS {
            Timestamp { secs: MIN_SECS, nanos: 0 }
        } else if secs > MAX_SECS {
            Timestamp { secs: MAX_SECS, nanos: NANOS_PER_SEC - 1 }
        } else if nanos >= NANOS_PER_SEC {
            Timestamp { secs, nanos: NANOS_PER_SEC - 1 }
        } else {
            Timestamp { secs, nanos }
        }
    }

    /// The present moment, as the system clock gives it.
    pub fn now() -> (r: Timestamp) {
        let (secs, nanos) = clock_reading();
        Timestamp::clamped(secs, nanos)
    }

    /// The whole seconds since 1970-01-01T00:00:00Z.
    pub fn secs(&self) -> (r: i64)
        ensures
            r == self.spec_secs(),
            MIN_SECS <= r <= MAX_SECS,
    {
        proof {
            use_type_invariant(self);
        }
        self.secs
    }

    /// The nanoseconds since the last whole second.
    pub fn nanos(&self) -> (r: u32)
        ensures
            r == self.spec_nanos(),
            r < NANOS_PER_SEC,
    {
        proof {
            use_type_invariant(self);
        }
        self.nanos
    }

    /// Whether `self` is strictly earlier than `other`.
    pub fn is_before(&self, other: &Timestamp) -> (r: bool)
        ensures
            r == (self@ < other@),
    {
        proof {
            use_type_invariant(self);
            use_type_invariant(other);
            assert(self.secs < other.secs ==> self.secs * 1_000_000_000 + self.nanos
                < other.secs * 1_000_000_000 + other.nanos) by (nonlinear_arith)
                requires
                    self.nanos < 1_000_000_000,
                    other.nanos < 1_000_000_000,
            ;
            assert(other.secs < self.secs ==> other.secs * 1_000_000_000 + other.nanos
                < self.secs * 1_000_000_000 + self.nanos) by (nonlinear_arith)
                requires
                    self.nanos < 1_000_000_000,
                    other.nanos < 1_000_000_000,
            ;
        }
        self.secs < other.secs || (self.secs == other.secs && self.nanos < other.nanos)
    }

    /// The first moment of the UTC day that `self` lies in.
    pub fn start_of_day(&self) -> (r: Timestamp)
        ensures
            r@ == self@ - self@ % (SECS_PER_DAY * NANOS_PER_SEC),
            r@ <= self@,
    {
        proof {
            use_type_invariant(self);
        }
        // Counted from the first second in range, which begins a day.
        let offset: u64 = (self.secs - MIN_SECS) as u64;
        let into_day: i64 = (offset % 86_400) as i64;
        let secs: i64 = self.secs - into_day;
        assert(self.secs % 86_400 == into_day) by (nonlinear_arith)
            requires
                offset == self.secs + 719_162 * 86_400,
                into_day == offset % 86_400,
        ;
        assert(self@ % 86_400_000_000_000 == into_day * 1_000_000_000 + self.nanos)
            by (nonlinear_arith)
            requires
                self@ == self.secs * 1_000_000_000 + self.nanos,
                into_day == self.secs % 86_400,
                0 <= self.nanos < 1_000_000_000,
        ;
        assert(secs * 1_000_000_000 == self.secs * 1_000_000_000 - into_day * 1_000_000_000)
            by (nonlinear_arith)
            requires
                secs == self.secs - into_day,
        ;
        Timestamp { secs, nanos: 0 }
    }

    /// Whether `self` lies more than `days` days before `now`.
    pub fn is_older_than(&self, now: &Timestamp, days: u32) -> (r: bool)
        ensures
            r == (self@ < now@ - days * SECS_PER_DAY * NANOS_PER_SEC),
    {
        proof {
            use_type_invariant(self);
            use_type_invariant(now);
        }
        let span: i64 = (days as i64) * SECS_PER_DAY;
        let secs: i64 = now.secs - span;
        proof {
            lemma_days_off(now.secs as int, now.nanos as int, days as int);
            lemma_order(self.secs as int, self.nanos as int, secs as int, now.nanos as int);
            lemma_order(secs as int, now.nanos as int, self.secs as int, self.nanos as int);
        }
        self.secs < secs || (self.secs == secs && self.nanos < now.nanos)
    }

    /// Whether `self` lies `days` days or more before `now`.
    pub fn age_at_least(&self, now: &Timestamp, days: u32) -> (r: bool)
        ensures
            r == (now@ - self@ >= days * SECS_PER_DAY * NANOS_PER_SEC),
    {
        proof {
            use_type_invariant(self);
            use_type_invariant(now);
        }
        let span: i64 = (days as i64) * SECS_PER_DAY;
        let secs: i64 = now.secs - span;
        proof {
            lemma_days_off(now.secs as int, now.nanos as int, days as int);
            lemma_order(self.secs as int, self.nanos as int, secs as int, now.nanos as int);
            lemma_order(secs as int, now.nanos as int, self.secs as int, self.nanos as int);
        }
        self.secs < secs || (self.secs == secs && self.nanos <= now.nanos)
    }

    /// The moment `days` days before `self`, or the earliest moment in
    /// range where that would lie before it.
    pub fn days_earlier(&self, days: u32) -> (r: Timestamp)
        ensures
            r@ == if self@ - days * SECS_PER_DAY * NANOS_PER_SEC >= MIN_SECS * NANOS_PER_SEC {
                self@ - days * SECS_PER_DAY * NANOS_PER_SEC
            } else {
                MIN_SECS * NANOS_PER_SEC
            },
    {
        proof {
            use_type_invariant(self);
        }
        let span: i64 = (days as i64) * SECS_PER_DAY;
        let secs: i64 = self.secs - span;
        proof {
            lemma_days_off(self.secs as int, self.nanos as int, days as int);
            lemma_order(secs as int, self.nanos as int, MIN_SECS as int, 0);
            lemma_order(MIN_SECS as int, 0, secs as int, self.nanos as int);
        }
        if secs < MIN_SECS {
            Timestamp { secs: MIN_SECS, nanos: 0 }
        } else {
            Timestamp { secs, nanos: self.nanos }
        }
    }

    /// The whole seconds from `self` to `later`, or zero where `later` is
    /// the earlier of the two.
    pub fn seconds_until(&self, later: &Timestamp) -> (r: u64)
        ensures
            later@ >= self@ ==> r == (later@ - self@) / (NANOS_PER_SEC as int),
            later@ < self@ ==> r == 0,
    {
        proof {
            use_type_invariant(self);
            use_type_invariant(later);
        }
        if later.is_before(self) {
            return 0;
        }
        let whole: i64 = later.secs - self.secs;
        assert(whole >= 0) by (nonlinear_arith)
            requires
                whole == later.secs - self.secs,
                later.secs * 1_000_000_000 + later.nanos >= self.secs * 1_000_000_000
                    + self.nanos,
                self.nanos < 1_000_000_000,
                later.nanos < 1_000_000_000,
        ;
        let r: u64 = if later.nanos >= self.nanos {
            whole as u64
        } else {
            assert(whole >= 1) by (nonlinear_arith)
                requires
                    whole == later.secs - self.secs,
                    later.secs * 1_000_000_000 + later.nanos >= self.secs * 1_000_000_000
                        + self.nanos,
                    later.nanos < self.nanos,
                    self.nanos < 1_000_000_000,
            ;
            (whole - 1) as u64
        };
        assert(r == (later@ - self@) / 1_000_000_000) by (nonlinear_arith)
            requires
                later@ - self@ == whole * 1_000_000_000 + (later.nanos - self.nanos),
                later.nanos >= self.nanos ==> r == whole,
                later.nanos < self.nanos ==> r == whole - 1,
                self.nanos < 1_000_000_000,
                later.nanos < 1_000_000_000,
        ;
        r
    }

    /// The calendar date of `self` in UTC, as `YYYY-MM-DD`.
    pub fn date_bucket(&self) -> (r: String)
        ensures
            r@ == day_of(self@),
    {
        proof {
            use_type_invariant(self);
        }
        match format_date(self.secs) {
            Some(date) => date,
            None => {
                assert(false);
                String::new()
            },
        }
    }
}

} // verus!
