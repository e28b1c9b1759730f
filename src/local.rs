//! Sightings as recorded, with Unix timestamps, dated in the machine's time
//! zone and aggregated.

use crate::calendar::{datable, local_day_number, utc_day, MAX_TIMESTAMP};
use crate::grid::{aggregate, frames_model, series_model, CountGrid, DatedSighting, Subject};
use vstd::prelude::*;

verus! {

/// A recorded sighting: the subject seen and the Unix time (in seconds) when.
#[derive(Clone, Copy, Debug, PartialEq, Eq, Structural)]
pub struct Sighting {
    pub subject: u64,
    pub seen_at: i64,
}

/// Why a grid could not be made.
#[derive(Clone, Copy, Debug, PartialEq, Eq, Structural)]
pub enum GridError {
    /// This timestamp lies out of the range that is given a calendar date.
    InvalidTimestamp(i64),
}

/// Whether `day` can be the local date of the instant `seen_at`: the UTC date
/// or one of its neighbours, as a time zone's offset is less than a day.
pub open spec fn is_local_day(seen_at: int, day: int) -> bool {
    utc_day(seen_at) - 1 <= day <= utc_day(seen_at) + 1
}

/// Whether `dated` holds the sightings of `sightings`, in order, each with a
/// possible local date of its timestamp.
pub open spec fn dates_of(dated: Seq<DatedSighting>, sightings: Seq<Sighting>) -> bool {
    &&& dated.len() == sightings.len()
    &&& forall|k: int|
        0 <= k < sightings.len() ==> (#[trigger] dated[k]).subject == sightings[k].subject && is_local_day(
            sightings[k].seen_at as int,
            dated[k].day as int,
        )
}

/// The local calendar day of the instant `seen_at`, if it has one.
fn local_day(seen_at: i64) -> (r: Option<i32>)
    ensures
        r is Some <==> datable(seen_at as int),
        r matches Some(d) ==> is_local_day(seen_at as int, d as int),
{
    if seen_at < -MAX_TIMESTAMP || seen_at > MAX_TIMESTAMP {
        None
    } else {
        local_day_number(seen_at)
    }
}

/// Whether every sighting's timestamp is in the datable range.
pub open spec fn all_datable(sightings: Seq<Sighting>) -> bool {
    forall|k: int| 0 <= k < sightings.len() ==> datable((#[trigger] sightings[k]).seen_at as int)
}

/// Whether the sighting at position `k` is the first whose timestamp is out of
/// the datable range.
pub open spec fn first_undatable(sightings: Seq<Sighting>, k: int) -> bool {
    &&& 0 <= k < sightings.len()
    &&& !datable(sightings[k].seen_at as int)
    &&& forall|j: int| 0 <= j < k ==> datable((#[trigger] sightings[j]).seen_at as int)
}

/// Dates each sighting by its local calendar day. It succeeds exactly when
/// every timestamp is in the datable range, and otherwise fails with the first
/// timestamp out of it.
pub fn date_sightings(sightings: &Vec<Sighting>) -> (r: Result<Vec<DatedSighting>, GridError>)
    ensures
        r is Ok <==> all_datable(sightings@),
        r matches Ok(d) ==> dates_of(d@, sightings@),
        r matches Err(GridError::InvalidTimestamp(t)) ==> exists|k: int|
            first_undatable(sightings@, k) && (#[trigger] sightings[k]).seen_at == t,
{
    let mut dated: Vec<DatedSighting> = Vec::new();
    let mut k: usize = 0;
    while k < sightings.len()
        invariant
            k <= sightings.len(),
            dates_of(dated@, sightings@.subrange(0, k as int)),
            forall|x: int| 0 <= x < k ==> datable((#[trigger] sightings@[x]).seen_at as int),
        decreases sightings.len() - k,
    {
        let s = sightings[k];
        match local_day(s.seen_at) {
            Some(day) => {
                dated.push(DatedSighting { subject: s.subject, day });
            },
            None => {
                assert(first_undatable(sightings@, k as int));
                return Err(GridError::InvalidTimestamp(s.seen_at));
            },
        }
        k += 1;
        assert forall|x: int| 0 <= x < k implies #[trigger] sightings@.subrange(0, k as int)[x] == sightings@[x] by {}
    }
    assert(sightings@.subrange(0, k as int) =~= sightings@);
    Ok(dated)
}

/// The count grid of `sightings` for `subjects` at the instant `now`, every
/// timestamp read as a date in the machine's time zone. It succeeds exactly
/// when `now` and every sighting's timestamp are in the datable range, and
/// otherwise fails with the first timestamp (`now` first) out of it.
pub fn weekly_grid(subjects: &Vec<Subject>, sightings: &Vec<Sighting>, now: i64) -> (r: Result<CountGrid, GridError>)
    ensures
        r matches Ok(g) ==> exists|dated: Seq<DatedSighting>, today: int|
            dates_of(dated, sightings@) && is_local_day(now as int, today) && g@.0 == series_model(subjects@)
                && g@.1 == frames_model(subjects@, dated, today),
        r is Ok <==> datable(now as int) && all_datable(sightings@),
        r matches Err(GridError::InvalidTimestamp(t)) ==> (!datable(now as int) && t == now) || (datable(now as int)
            && exists|k: int| first_undatable(sightings@, k) && (#[trigger] sightings[k]).seen_at == t),
{
    let today = match local_day(now) {
        Some(d) => d,
        None => {
            return Err(GridError::InvalidTimestamp(now));
        },
    };
    let dated = match date_sightings(sightings) {
        Ok(d) => d,
        Err(e) => {
            return Err(e);
        },
    };
    let g = aggregate(subjects, &dated, today);
    assert(dates_of(dated@, sightings@) && is_local_day(now as int, today as int));
    Ok(g)
}

} // verus!
