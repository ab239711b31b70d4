//! Instants in UTC, held as a Unix timestamp, and the chrono calls made on them.
use vstd::prelude::*;

use crate::text::decimal;

verus! {

/// The earliest second chrono's `DateTime<Utc>` represents (January 1, 262143 BCE).
pub const MIN_UNIX_SECS: i64 = -8334601228800i64;

/// The last second chrono's `DateTime<Utc>` represents (December 31, 262142 CE).
pub const MAX_UNIX_SECS: i64 = 8210266876799i64;

/// The pairs `(secs, nanos)` that `DateTime::<Utc>::from_timestamp` accepts:
/// a second in chrono's range and a fraction below two seconds, where a
/// fraction of a second or more (a leap second) needs the 59th second of a minute.
pub open spec fn chrono_instant(secs: i64, nanos: u32) -> bool {
    &&& MIN_UNIX_SECS <= secs <= MAX_UNIX_SECS
    &&& nanos < 2_000_000_000
    &&& nanos >= 1_000_000_000 ==> (secs as int) % 60 == 59
}

/// An instant in UTC: seconds since the Unix epoch and the nanoseconds into
/// that second, as chrono's `DateTime<Utc>` gives them.
#[derive(Clone, Copy, Debug, PartialEq, Eq)]
pub struct Timestamp {
    secs: i64,
    nanos: u32,
}

impl Timestamp {
    /// Seconds since the Unix epoch.
    pub closed spec fn unix_secs(self) -> i64 {
        self.secs
    }

    /// Nanoseconds into the second.
    pub closed spec fn subsec_nanos(self) -> u32 {
        self.nanos
    }

    /// The instant is one that chrono represents: every timestamp is one.
    #[verifier::type_invariant]
    pub closed spec fn is_instant(self) -> bool {
        chrono_instant(self.secs, self.nanos)
    }

    /// The second of an instant lies in chrono's range.
    pub proof fn lemma_instant_range(self)
        requires
            self.is_instant(),
        ensures
            MIN_UNIX_SECS <= self.unix_secs() <= MAX_UNIX_SECS,
            self.subsec_nanos() < 2_000_000_000,
    {
    }

    /// The instant `secs` seconds and `nanos` nanoseconds after the Unix
    /// epoch, where chrono represents it.
    pub fn from_unix(secs: i64, nanos: u32) -> (r: Option<Timestamp>)
        ensures
            r is Some <==> chrono_instant(secs, nanos),
            r matches Some(t) ==> t.unix_secs() == secs && t.subsec_nanos() == nanos,
    {
        if chrono_accepts(secs, nanos) {
            Some(Timestamp { secs, nanos })
        } else {
            None
        }
    }

    /// Seconds since the Unix epoch.
    pub fn secs(&self) -> (r: i64)
        ensures
            r == self.unix_secs(),
    {
        self.secs
    }

    /// The instant in RFC 3339, as chrono writes it; it reads back as the
    /// instant for the years 0 to 9999.
    pub fn to_rfc3339(&self) -> (r: String)
        ensures
            r@ == spec_rfc3339(*self),
            four_digit_year(*self) ==> spec_parse_rfc3339(r@) == Some(*self),
    {
        proof {
            use_type_invariant(self);
        }
        rfc3339(self)
    }

    /// Nanoseconds into the second.
    pub fn nanos(&self) -> (r: u32)
        ensures
            r == self.subsec_nanos(),
    {
        self.nanos
    }
}

/// `DateTime::<Utc>::from_timestamp(secs, nanos).is_some()`: chrono's source
/// accepts exactly the pairs of `chrono_instant`.
#[verifier::external_body]
fn chrono_accepts(secs: i64, nanos: u32) -> (r: bool)
    ensures
        r == chrono_instant(secs, nanos),
{
    chrono::DateTime::<chrono::Utc>::from_timestamp(secs, nanos).is_some()
}

/// `Utc::now()`: the current time. Nothing is stated of the value; chrono
/// documents that any `DateTime<Utc>` gives back a pair that
/// `from_timestamp` accepts, as the type invariant asks.
#[verifier::external_body]
pub(crate) fn now() -> Timestamp {
    let d = chrono::Utc::now();
    Timestamp { secs: d.timestamp(), nanos: d.timestamp_subsec_nanos() }
}

/// The `published` and `updated` instants of a feed-rs entry
/// (`DateTime<Utc>::timestamp` and `timestamp_subsec_nanos` of each), as
/// the library holds instants. Nothing is stated of the values; as for
/// `now`, each is a pair that `from_timestamp` accepts.
#[verifier::external_body]
pub(crate) fn entry_times(e: &feed_rs::model::Entry) -> (Option<Timestamp>, Option<Timestamp>) {
    let at = |d: &chrono::DateTime<chrono::Utc>| Timestamp { secs: d.timestamp(), nanos: d.timestamp_subsec_nanos() };
    (e.published.as_ref().map(at), e.updated.as_ref().map(at))
}

/// What `DateTime::<Utc>::to_rfc3339` writes for the instant.
pub uninterp spec fn spec_rfc3339(t: Timestamp) -> Seq<char>;

/// The first second of the year 0.
pub const FIRST_FOUR_DIGIT_SECS: i64 = -62167219200i64;

/// The last second of the year 9999.
pub const LAST_FOUR_DIGIT_SECS: i64 = 253402300799i64;

/// The instant lies in the years 0 to 9999, whose number RFC 3339 writes
/// with four digits.
pub open spec fn four_digit_year(t: Timestamp) -> bool {
    FIRST_FOUR_DIGIT_SECS <= t.unix_secs() <= LAST_FOUR_DIGIT_SECS
}

/// `DateTime::<Utc>::to_rfc3339`: its text is named `spec_rfc3339`. For a
/// year from 0 to 9999 chrono writes the year in four digits, a leap second
/// as second `60`, every digit of a nonzero fraction and the offset
/// `+00:00`, and `DateTime::parse_from_rfc3339` reads each of these back:
/// there the text reads back as the instant.
#[verifier::external_body]
pub(crate) fn rfc3339(t: &Timestamp) -> (r: String)
    requires
        t.is_instant(),
    ensures
        r@ == spec_rfc3339(*t),
        four_digit_year(*t) ==> spec_parse_rfc3339(r@) == Some(*t),
{
    chrono::DateTime::<chrono::Utc>::from_timestamp(t.secs, t.nanos).expect("a chrono instant").to_rfc3339()
}

/// What `DateTime::parse_from_rfc3339` followed by `with_timezone(&Utc)` gives for the text.
pub uninterp spec fn spec_parse_rfc3339(s: Seq<char>) -> Option<Timestamp>;

/// `DateTime::parse_from_rfc3339(s).ok()` taken to UTC: the result is named
/// `spec_parse_rfc3339` of the text.
#[verifier::external_body]
pub(crate) fn parse_rfc3339(s: &str) -> (r: Option<Timestamp>)
    ensures
        r == spec_parse_rfc3339(s@),
{
    chrono::DateTime::parse_from_rfc3339(s).ok().map(|d| d.with_timezone(&chrono::Utc)).map(
        |d| Timestamp { secs: d.timestamp(), nanos: d.timestamp_subsec_nanos() },
    )
}

/// The proleptic Gregorian `(year, month, day)` of the day `days` days after
/// January 1, 1970 (before it where negative), by Hinnant's civil-from-days
/// rule.
pub open spec fn civil_date(days: int) -> (int, int, int) {
    let z = days + 719468;
    let era = z / 146097;
    let doe = z - era * 146097;
    let yoe = (doe - doe / 1460 + doe / 36524 - doe / 146096) / 365;
    let doy = doe - (365 * yoe + yoe / 4 - yoe / 100);
    let mp = (5 * doy + 2) / 153;
    let d = doy - (153 * mp + 2) / 5 + 1;
    let m = if mp < 10 { mp + 3 } else { mp - 9 };
    (yoe + era * 400 + if m <= 2 { 1int } else { 0int }, m, d)
}

/// The digits `s`, with zeros in front up to `width` characters.
pub open spec fn zero_padded(s: Seq<char>, width: int) -> Seq<char> {
    if s.len() < width {
        Seq::new((width - s.len()) as nat, |i: int| '0') + s
    } else {
        s
    }
}

/// A year as chrono's `%Y` writes it: at least four digits, with a sign
/// before years below 0 and above 9999.
pub open spec fn year_text(y: int) -> Seq<char> {
    let digits = zero_padded(decimal((if y < 0 { -y } else { y }) as nat), 4);
    if y < 0 {
        seq!['-'] + digits
    } else if y > 9999 {
        seq!['+'] + digits
    } else {
        digits
    }
}

/// What `DateTime::<Utc>::format("%Y-%m-%d")` writes for the instant: the
/// UTC date of its second, the month and the day in two digits each.
pub open spec fn spec_ymd(t: Timestamp) -> Seq<char> {
    let (y, m, d) = civil_date(t.unix_secs() / 86400);
    year_text(y) + seq!['-'] + zero_padded(decimal(m as nat), 2) + seq!['-'] + zero_padded(
        decimal(d as nat),
        2,
    )
}

/// `DateTime::<Utc>::format("%Y-%m-%d")`: the text `spec_ymd` states, as
/// chrono's `write_year` and `write_two` write the date that
/// `from_timestamp` gives (`secs.div_euclid(86400)` days after the epoch).
#[verifier::external_body]
pub(crate) fn format_ymd(t: &Timestamp) -> (r: String)
    requires
        t.is_instant(),
    ensures
        r@ == spec_ymd(*t),
{
    chrono::DateTime::<chrono::Utc>::from_timestamp(t.secs, t.nanos).expect("a chrono instant").format(
        "%Y-%m-%d",
    ).to_string()
}

/// `TimeDelta::try_hours(hours)` gives a duration: `hours` hours are a number
/// of seconds within chrono's bound of `i64::MAX / 1000` either way.
pub open spec fn hours_in_delta_range(hours: i64) -> bool {
    -9_223_372_036_854_775 <= hours * 3600 <= 9_223_372_036_854_775
}

/// The instant `hours` hours before `t`, as seconds and nanoseconds, where
/// chrono forms it: `TimeDelta::try_hours(hours)` must give a duration, and the
/// result must lie in chrono's range. A leap second (nanoseconds of a second or
/// more) is left for the next second when moving back, for the preceding one
/// when moving forward, and kept when `hours` is zero.
pub open spec fn sub_hours_parts(t: Timestamp, hours: i64) -> Option<(i64, u32)> {
    let leap = t.subsec_nanos() >= 1_000_000_000;
    let secs = t.unix_secs() + (if leap && hours > 0 { 1int } else { 0int }) - 3600 * hours;
    let nanos = if leap && hours != 0 { t.subsec_nanos() - 1_000_000_000 } else { t.subsec_nanos() as int };
    if hours_in_delta_range(hours) && MIN_UNIX_SECS <= secs <= MAX_UNIX_SECS {
        Some((secs as i64, nanos as u32))
    } else {
        None
    }
}

/// The parts of an optional instant.
pub open spec fn parts_of(r: Option<Timestamp>) -> Option<(i64, u32)> {
    match r {
        Some(t) => Some((t.unix_secs(), t.subsec_nanos())),
        None => None,
    }
}

/// `TimeDelta::try_hours` then `DateTime::<Utc>::checked_sub_signed`: the
/// instant `hours` hours earlier, as chrono's source computes it
/// (`NaiveTime::overflowing_add_signed`, `NaiveDate::add_days`).
#[verifier::external_body]
pub(crate) fn checked_sub_hours(t: &Timestamp, hours: i64) -> (r: Option<Timestamp>)
    requires
        t.is_instant(),
    ensures
        parts_of(r) == sub_hours_parts(*t, hours),
{
    let d = chrono::DateTime::<chrono::Utc>::from_timestamp(t.secs, t.nanos).expect("a chrono instant");
    chrono::TimeDelta::try_hours(hours).and_then(|h| d.checked_sub_signed(h)).map(
        |d| Timestamp { secs: d.timestamp(), nanos: d.timestamp_subsec_nanos() },
    )
}

} // verus!
