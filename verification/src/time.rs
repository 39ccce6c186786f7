//! Instants in UTC, and the `chrono` functions that read and write them.
use crate::text::{digit_char, nat_text};
use vstd::prelude::*;

verus! {

/// An instant in UTC: seconds since 1970-01-01T00:00:00Z and the nanoseconds
/// since the last whole second (up to two seconds' worth during a leap second),
/// as `chrono::DateTime<Utc>::timestamp` and `timestamp_subsec_nanos` give them.
#[derive(Clone, Copy, Debug, PartialEq, Eq, Structural)]
pub struct Timestamp {
    pub secs: i64,
    pub nanos: u32,
}

/// First second that `chrono::DateTime<Utc>` can hold (January 1, 262144 BCE).
pub open spec fn min_instant_secs() -> int {
    -8334601228800
}

/// Last second that `chrono::DateTime<Utc>` can hold (December 31, 262142 CE).
pub open spec fn max_instant_secs() -> int {
    8210266876799
}

/// The pairs that `chrono::DateTime::from_timestamp` accepts: a second in range and
/// a nanosecond part below one second, or below two seconds in the last second of a minute.
pub open spec fn instant_valid(secs: int, nanos: int) -> bool {
    &&& min_instant_secs() <= secs <= max_instant_secs()
    &&& 0 <= nanos
    &&& (nanos < 1_000_000_000 || (nanos < 2_000_000_000 && secs % 60 == 59))
}

impl Timestamp {
    /// The instant stands for a `chrono::DateTime<Utc>`.
    pub open spec fn valid(self) -> bool {
        instant_valid(self.secs as int, self.nanos as int)
    }

    /// The instant `secs` seconds and `nanos` nanoseconds after the epoch.
    pub fn new(secs: i64, nanos: u32) -> (r: Timestamp)
        ensures
            r == (Timestamp { secs, nanos }),
    {
        Timestamp { secs, nanos }
    }

    /// `self >= other` in time.
    pub open spec fn spec_at_or_after(self, other: Timestamp) -> bool {
        self.secs > other.secs || (self.secs == other.secs && self.nanos >= other.nanos)
    }

    /// Whether `self` is not earlier than `other`.
    pub fn at_or_after(&self, other: &Timestamp) -> (r: bool)
        ensures
            r == self.spec_at_or_after(*other),
    {
        self.secs > other.secs || (self.secs == other.secs && self.nanos >= other.nanos)
    }

    /// Seconds of this instant since midnight UTC of its day.
    pub open spec fn second_of_day(self) -> int {
        (self.secs as int) % 86400
    }

    /// Hour of the day (0 to 23), as `%H` prints it.
    pub open spec fn spec_hour(self) -> int {
        self.second_of_day() / 3600
    }

    /// Hour of the day (0 to 23) in UTC.
    pub fn hour(&self) -> (r: u32)
        ensures
            r as int == self.spec_hour(),
            r < 24,
    {
        let s = self.secs % 86400;
        let s = if s < 0 { s + 86400 } else { s };
        (s / 3600) as u32
    }
}

/// The instant that `chrono::DateTime::from_timestamp(secs, nanos)` gives.
pub open spec fn instant_from(secs: int, nanos: int) -> Option<Timestamp> {
    if instant_valid(secs, nanos) {
        Some(Timestamp { secs: secs as i64, nanos: nanos as u32 })
    } else {
        None
    }
}

/// The instant that `chrono::DateTime::from_timestamp_millis(millis)` gives.
pub open spec fn instant_from_millis(millis: int) -> Option<Timestamp> {
    instant_from(millis / 1000, (millis % 1000) * 1_000_000)
}

/// The instant that `chrono::DateTime::parse_from_rfc3339` reads from a text.
pub uninterp spec fn rfc3339_instant(s: Seq<char>) -> Option<Timestamp>;

/// The instant that `chrono::NaiveDateTime::parse_from_str(s, fmt)` reads, taken as UTC.
pub uninterp spec fn naive_utc_instant(s: Seq<char>, fmt: Seq<char>) -> Option<Timestamp>;

/// The proleptic Gregorian `(year, month, day)` of the day `z` days after
/// 1970-01-01 (the civil-from-days computation on eras of 400 years).
pub open spec fn civil_from_days(z: int) -> (int, int, int) {
    let z2 = z + 719468;
    let era = z2 / 146097;
    let doe = z2 - era * 146097;
    let yoe = (doe - doe / 1460 + doe / 36524 - doe / 146096) / 365;
    let doy = doe - (365 * yoe + yoe / 4 - yoe / 100);
    let mp = (5 * doy + 2) / 153;
    let d = doy - (153 * mp + 2) / 5 + 1;
    let m = if mp < 10 {
        mp + 3
    } else {
        mp - 9
    };
    (yoe + era * 400 + if m <= 2 {
        1int
    } else {
        0int
    }, m, d)
}

/// Two decimal digits, the first of them possibly zero.
pub open spec fn two_digits(n: int) -> Seq<char> {
    seq![digit_char((n / 10) as nat), digit_char((n % 10) as nat)]
}

/// A natural number in at least four digits, padded with zeros.
pub open spec fn four_digits(n: nat) -> Seq<char> {
    if n < 10 {
        seq!['0', '0', '0'] + nat_text(n)
    } else if n < 100 {
        seq!['0', '0'] + nat_text(n)
    } else if n < 1000 {
        seq!['0'] + nat_text(n)
    } else {
        nat_text(n)
    }
}

/// A year as `%Y` writes it: four digits from 0 to 9999, otherwise a sign and
/// at least four digits.
pub open spec fn year_text(y: int) -> Seq<char> {
    if 0 <= y <= 9999 {
        four_digits(y as nat)
    } else if y < 0 {
        seq!['-'] + four_digits((-y) as nat)
    } else {
        seq!['+'] + four_digits(y as nat)
    }
}

/// `%Y-%m-%d` of an instant.
pub open spec fn date_text(t: Timestamp) -> Seq<char> {
    let (y, m, d) = civil_from_days(t.secs as int / 86400);
    year_text(y) + seq!['-'] + two_digits(m) + seq!['-'] + two_digits(d)
}

/// `%H:%M:%S` of an instant; a leap second is the 60th second of its minute.
pub open spec fn clock_text(t: Timestamp) -> Seq<char> {
    let sod = t.second_of_day();
    let leap = if t.nanos >= 1_000_000_000 {
        1int
    } else {
        0int
    };
    two_digits(sod / 3600) + seq![':'] + two_digits((sod % 3600) / 60) + seq![':'] + two_digits(
        sod % 60 + leap,
    )
}

/// The text that `chrono`'s `format(fmt)` writes for an instant, for the
/// formats the library uses.
pub open spec fn formatted_instant(t: Timestamp, fmt: Seq<char>) -> Seq<char> {
    if fmt == "%Y"@ {
        year_text(civil_from_days(t.secs as int / 86400).0)
    } else if fmt == "%Y-%m-%d"@ {
        date_text(t)
    } else if fmt == "%H:%M:%S UTC"@ {
        clock_text(t) + " UTC"@
    } else if fmt == "%Y-%m-%d %H:%M:%S UTC"@ {
        date_text(t) + seq![' '] + clock_text(t) + " UTC"@
    } else if fmt == "%H"@ {
        two_digits(t.second_of_day() / 3600)
    } else {
        Seq::empty()
    }
}

/// The format strings the library writes instants with.
pub open spec fn known_time_format(fmt: Seq<char>) -> bool {
    ||| fmt == "%Y"@
    ||| fmt == "%Y-%m-%d"@
    ||| fmt == "%H:%M:%S UTC"@
    ||| fmt == "%Y-%m-%d %H:%M:%S UTC"@
    ||| fmt == "%H"@
}

/// `chrono::DateTime::from_timestamp`: the instant of the pair when chrono can
/// hold it (see `instant_valid`), else `None`.
#[verifier::external_body]
pub(crate) fn instant_from_secs(secs: i64, nanos: u32) -> (r: Option<Timestamp>)
    ensures
        r == instant_from(secs as int, nanos as int),
{
    match chrono::DateTime::from_timestamp(secs, nanos) {
        Some(dt) => Some(Timestamp { secs: dt.timestamp(), nanos: dt.timestamp_subsec_nanos() }),
        None => None,
    }
}

/// `chrono::DateTime::from_timestamp_millis`: the instant `millis` milliseconds
/// after the epoch (whole seconds rounded down), when chrono can hold it.
#[verifier::external_body]
pub(crate) fn instant_from_millis_exec(millis: i64) -> (r: Option<Timestamp>)
    ensures
        r == instant_from_millis(millis as int),
{
    match chrono::DateTime::from_timestamp_millis(millis) {
        Some(dt) => Some(Timestamp { secs: dt.timestamp(), nanos: dt.timestamp_subsec_nanos() }),
        None => None,
    }
}

/// `chrono::DateTime::parse_from_rfc3339`, converted to UTC: the instant the
/// text reads as, named by `rfc3339_instant` (the grammar is not written out here).
#[verifier::external_body]
pub(crate) fn rfc3339_instant_exec(s: &str) -> (r: Option<Timestamp>)
    ensures
        r == rfc3339_instant(s@),
{
    match chrono::DateTime::parse_from_rfc3339(s) {
        Ok(dt) => Some(Timestamp { secs: dt.timestamp(), nanos: dt.timestamp_subsec_nanos() }),
        Err(_) => None,
    }
}

/// `chrono::NaiveDateTime::parse_from_str`, taken as UTC: the instant the text
/// reads as in the format, named by `naive_utc_instant`.
#[verifier::external_body]
pub(crate) fn naive_utc_instant_exec(s: &str, fmt: &str) -> (r: Option<Timestamp>)
    ensures
        r == naive_utc_instant(s@, fmt@),
{
    match chrono::NaiveDateTime::parse_from_str(s, fmt) {
        Ok(ndt) => {
            let dt = ndt.and_utc();
            Some(Timestamp { secs: dt.timestamp(), nanos: dt.timestamp_subsec_nanos() })
        },
        Err(_) => None,
    }
}

/// `chrono::Utc::now`: the current instant, whatever the clock reads; only that
/// chrono can hold it is stated.
#[verifier::external_body]
pub(crate) fn current_instant() -> (r: Timestamp)
    ensures
        r.valid(),
{
    let dt = chrono::Utc::now();
    Timestamp { secs: dt.timestamp(), nanos: dt.timestamp_subsec_nanos() }
}

/// `chrono::DateTime::format`, written out: the text `formatted_instant` states,
/// for the formats the library uses (chrono's `write_year`, `write_two` and
/// civil calendar).
#[verifier::external_body]
pub(crate) fn format_instant(t: Timestamp, fmt: &str) -> (r: String)
    requires
        t.valid(),
        known_time_format(fmt@),
    ensures
        r@ == formatted_instant(t, fmt@),
{
    match chrono::DateTime::from_timestamp(t.secs, t.nanos) {
        Some(dt) => dt.format(fmt).to_string(),
        None => String::new(),
    }
}

/// The instant `d` seconds before `t`, as `chrono`'s `checked_sub_signed` computes it.
/// Leaving a leap second (nanoseconds of a second or more) drops the extra second:
/// going back starts from the next whole second, going forward from the leap second's own.
pub open spec fn shifted_back(t: Timestamp, d: int) -> Option<Timestamp> {
    if t.nanos < 1_000_000_000 || d == 0 {
        instant_from(t.secs - d, t.nanos as int)
    } else if d > 0 {
        instant_from(t.secs + 1 - d, t.nanos - 1_000_000_000)
    } else {
        instant_from(t.secs - d, t.nanos - 1_000_000_000)
    }
}

/// `chrono::DateTime::checked_sub_signed` by `TimeDelta::seconds(d)`: the instant
/// `shifted_back` states, or `None` outside chrono's range. `d` is kept within
/// what `TimeDelta::seconds` accepts without a panic.
#[verifier::external_body]
pub(crate) fn instant_minus_seconds(t: Timestamp, d: i64) -> (r: Option<Timestamp>)
    requires
        t.valid(),
        -9223372036854775 <= d <= 9223372036854775,
    ensures
        r == shifted_back(t, d as int),
{
    match chrono::DateTime::from_timestamp(t.secs, t.nanos) {
        Some(dt) => match dt.checked_sub_signed(chrono::TimeDelta::seconds(d)) {
            Some(r) => Some(Timestamp { secs: r.timestamp(), nanos: r.timestamp_subsec_nanos() }),
            None => None,
        },
        None => None,
    }
}

} // verus!
