//! Reading the timestamps of raw logs.
use crate::text::{concat2, i64_reading, lemma_trim_idempotent, parse_i64_str, trim_str, trim_text};
use crate::time::{
    current_instant, format_instant, formatted_instant, instant_from, instant_from_millis,
    instant_from_millis_exec, instant_from_secs, naive_utc_instant, naive_utc_instant_exec,
    rfc3339_instant, rfc3339_instant_exec, Timestamp,
};
use vstd::prelude::*;

verus! {

/// ISO-like formats without a zone, read as UTC, and the Apache/Nginx format.
pub open spec fn iso_formats() -> Seq<Seq<char>> {
    seq![
        "%Y-%m-%dT%H:%M:%S%.f"@,
        "%Y-%m-%dT%H:%M:%S"@,
        "%Y-%m-%d %H:%M:%S%.f"@,
        "%Y-%m-%d %H:%M:%S"@,
        "%d/%b/%Y:%H:%M:%S %z"@,
    ]
}

/// Syslog formats, which carry no year; the year is written in front.
pub open spec fn syslog_formats() -> Seq<Seq<char>> {
    seq!["%Y %b %d %H:%M:%S%.f"@, "%Y %b %d %H:%M:%S"@, "%Y %b %e %H:%M:%S%.f"@, "%Y %b %e %H:%M:%S"@]
}

/// The instant read by the first of `formats` that reads `s`.
pub open spec fn first_naive_instant(s: Seq<char>, formats: Seq<Seq<char>>) -> Option<Timestamp>
    decreases formats.len(),
{
    if formats.len() == 0 {
        None
    } else {
        match naive_utc_instant(s, formats[0]) {
            Some(t) => Some(t),
            None => first_naive_instant(s, formats.drop_first()),
        }
    }
}

/// A positive whole number read as Unix time: in milliseconds above 10^12,
/// in seconds otherwise.
pub open spec fn epoch_instant(s: Seq<char>) -> Option<Timestamp> {
    match i64_reading(s) {
        Some(v) => if v > 1_000_000_000_000 {
            instant_from_millis(v as int)
        } else if v > 0 {
            instant_from(v as int, 0)
        } else {
            None
        },
        None => None,
    }
}

/// The instant a raw log timestamp stands for, with `year` written in front of
/// syslog timestamps: RFC 3339 first, then the ISO-like formats, then syslog,
/// then Unix time.
pub open spec fn timestamp_reading(raw: Seq<char>, year: Seq<char>) -> Option<Timestamp> {
    let t = trim_text(raw);
    if t.len() == 0 {
        None
    } else if rfc3339_instant(t) is Some {
        rfc3339_instant(t)
    } else if first_naive_instant(t, iso_formats()) is Some {
        first_naive_instant(t, iso_formats())
    } else if first_naive_instant(year + " "@ + t, syslog_formats()) is Some {
        first_naive_instant(year + " "@ + t, syslog_formats())
    } else {
        epoch_instant(t)
    }
}

/// Whether the reading of `raw` does not depend on the year.
pub open spec fn reading_needs_no_year(raw: Seq<char>) -> bool {
    let t = trim_text(raw);
    t.len() == 0 || rfc3339_instant(t) is Some || first_naive_instant(t, iso_formats()) is Some
}

/// The reading of `raw` in the year of the instant `now`.
pub open spec fn timestamp_reading_at(raw: Seq<char>, now: Timestamp) -> Option<Timestamp> {
    timestamp_reading(raw, formatted_instant(now, "%Y"@))
}

fn first_naive_exec(s: &str, formats: &Vec<&str>, from: usize) -> (r: Option<Timestamp>)
    requires
        from <= formats@.len(),
    ensures
        r == first_naive_instant(s@, formats@.skip(from as int).map_values(|f: &str| f@)),
    decreases formats@.len() - from,
{
    let ghost rest = formats@.skip(from as int).map_values(|f: &str| f@);
    if from == formats.len() {
        assert(rest.len() == 0);
        return None;
    }
    assert(rest[0] == formats@[from as int]@);
    assert(rest.drop_first() =~= formats@.skip(from + 1).map_values(|f: &str| f@));
    match naive_utc_instant_exec(s, formats[from]) {
        Some(t) => Some(t),
        None => first_naive_exec(s, formats, from + 1),
    }
}

/// Reads a raw log timestamp, with `year` written in front of syslog timestamps.
pub fn parse_timestamp_in_year(raw: &str, year: &str) -> (r: Option<Timestamp>)
    ensures
        r == timestamp_reading(raw@, year@),
{
    let trimmed = trim_str(raw);
    if trimmed.is_empty() {
        return None;
    }
    if let Some(t) = rfc3339_instant_exec(trimmed) {
        return Some(t);
    }
    let formats = vec![
        "%Y-%m-%dT%H:%M:%S%.f",
        "%Y-%m-%dT%H:%M:%S",
        "%Y-%m-%d %H:%M:%S%.f",
        "%Y-%m-%d %H:%M:%S",
        "%d/%b/%Y:%H:%M:%S %z",
    ];
    assert(formats@.skip(0).map_values(|f: &str| f@) =~= iso_formats());
    if let Some(t) = first_naive_exec(trimmed, &formats, 0) {
        return Some(t);
    }
    let with_space = concat2(year, " ");
    let syslog_str = concat2(with_space.as_str(), trimmed);
    let syslog_fmts = vec![
        "%Y %b %d %H:%M:%S%.f",
        "%Y %b %d %H:%M:%S",
        "%Y %b %e %H:%M:%S%.f",
        "%Y %b %e %H:%M:%S",
    ];
    assert(syslog_fmts@.skip(0).map_values(|f: &str| f@) =~= syslog_formats());
    if let Some(t) = first_naive_exec(syslog_str.as_str(), &syslog_fmts, 0) {
        return Some(t);
    }
    match parse_i64_str(trimmed) {
        Some(val) => {
            if val > 1_000_000_000_000 {
                instant_from_millis_exec(val)
            } else if val > 0 {
                instant_from_secs(val, 0)
            } else {
                None
            }
        },
        None => None,
    }
}

/// Reads a raw log timestamp: RFC 3339, ISO-like forms taken as UTC, the
/// Apache/Nginx form, syslog forms (in the current year), or a positive whole
/// Unix time in seconds or milliseconds. Decimal fractions of Unix time are
/// not read here.
pub fn parse_timestamp(raw: &str) -> (r: Option<Timestamp>)
    ensures
        exists|now: Timestamp| now.valid() && r == #[trigger] timestamp_reading_at(raw@, now),
        reading_needs_no_year(raw@) ==> r == timestamp_reading(raw@, Seq::empty()),
{
    let trimmed = trim_str(raw);
    let epoch = Timestamp { secs: 0, nanos: 0 };
    if trimmed.is_empty() || rfc3339_instant_exec(trimmed).is_some() {
        let r = parse_timestamp_in_year(raw, "");
        assert(epoch.valid() && r == timestamp_reading_at(raw@, epoch));
        return r;
    }
    let formats = vec![
        "%Y-%m-%dT%H:%M:%S%.f",
        "%Y-%m-%dT%H:%M:%S",
        "%Y-%m-%d %H:%M:%S%.f",
        "%Y-%m-%d %H:%M:%S",
        "%d/%b/%Y:%H:%M:%S %z",
    ];
    assert(formats@.skip(0).map_values(|f: &str| f@) =~= iso_formats());
    if first_naive_exec(trimmed, &formats, 0).is_some() {
        let r = parse_timestamp_in_year(raw, "");
        assert(epoch.valid() && r == timestamp_reading_at(raw@, epoch));
        return r;
    }
    let now = current_instant();
    let year = format_instant(now, "%Y");
    let r = parse_timestamp_in_year(raw, year.as_str());
    assert(now.valid() && r == timestamp_reading_at(raw@, now));
    r
}

/// Surrounding white space does not change what a timestamp reads as.
pub proof fn law_timestamp_reading_ignores_padding(raw: Seq<char>, year: Seq<char>)
    ensures
        timestamp_reading(trim_text(raw), year) == timestamp_reading(raw, year),
{
    lemma_trim_idempotent(raw);
}

} // verus!
