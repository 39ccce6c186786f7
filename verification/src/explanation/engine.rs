//! The decisions of the explanation commands: which window a report covers
//! and which entity a name designates.
use crate::behavior::temporal::window_start;
use crate::domain::Entity;
use crate::errors::LafufuError;
use crate::text::{
    concat2, ends_with_str, ends_with_text, eq_ignore_ascii_case_str, eq_ignore_ascii_case_text,
    i64_reading, parse_i64_str, trim_end_char_str, trim_end_char_text,
};
use crate::time::{instant_minus_seconds, Timestamp};
use vstd::prelude::*;

verus! {

/// The length in seconds of a window written like `24h` or `7d`: a count of
/// hours or days; a count that does not read as an `i64` stands for 24 hours
/// or 7 days; anything else stands for 24 hours.
pub open spec fn window_secs(since: Seq<char>) -> int {
    if ends_with_text(since, "h"@) {
        match i64_reading(trim_end_char_text(since, 'h')) {
            Some(h) => h * 3600,
            None => 24int * 3600,
        }
    } else if ends_with_text(since, "d"@) {
        match i64_reading(trim_end_char_text(since, 'd')) {
            Some(d) => d * 86400,
            None => 7int * 86400,
        }
    } else {
        24int * 3600
    }
}

/// The start of the window `since` that ends at `now`; `None` where the window
/// is too long for a `chrono::TimeDelta` or starts before the first instant
/// `chrono` can hold.
pub fn window_since(since: &str, now: Timestamp) -> (r: Option<Timestamp>)
    requires
        now.valid(),
    ensures
        r == window_start(now, window_secs(since@)),
{
    let secs: i128 = if ends_with_str(since, "h") {
        match parse_i64_str(trim_end_char_str(since, 'h')) {
            Some(h) => h as i128 * 3600,
            None => 24 * 3600,
        }
    } else if ends_with_str(since, "d") {
        match parse_i64_str(trim_end_char_str(since, 'd')) {
            Some(d) => d as i128 * 86400,
            None => 7 * 86400,
        }
    } else {
        24 * 3600
    };
    if secs < -9223372036854775 || secs > 9223372036854775 {
        None
    } else {
        instant_minus_seconds(now, secs as i64)
    }
}

/// Whether an entity's canonical name is `name`, ignoring ASCII case.
pub open spec fn named(e: Entity, name: Seq<char>) -> bool {
    eq_ignore_ascii_case_text(e.canonical_name@, name)
}

/// The first entity whose canonical name is `name` (ignoring ASCII case), by
/// its position; an analysis error when none is.
pub fn find_entity_by_name(entities: &[Entity], name: &str) -> (r: Result<usize, LafufuError>)
    ensures
        match r {
            Ok(i) => i < entities@.len() && named(entities@[i as int], name@) && forall|j: int|
                0 <= j < i ==> !named(#[trigger] entities@[j], name@),
            Err(e) => (forall|j: int| 0 <= j < entities@.len() ==> !named(#[trigger] entities@[j], name@))
                && (e matches LafufuError::Analysis(m) && m@ == "Entity '"@ + name@ + "' not found in storage"@),
        },
{
    let mut i: usize = 0;
    while i < entities.len()
        invariant
            i <= entities@.len(),
            forall|j: int| 0 <= j < i ==> !named(#[trigger] entities@[j], name@),
        decreases entities@.len() - i,
    {
        if eq_ignore_ascii_case_str(entities[i].canonical_name.as_str(), name) {
            return Ok(i);
        }
        i += 1;
    }
    let m = concat2("Entity '", name);
    Err(LafufuError::Analysis(concat2(m.as_str(), "' not found in storage")))
}

} // verus!
