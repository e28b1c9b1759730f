//! General properties of the count grid, proved over its model.

use crate::calendar::week_of;
use crate::grid::{
    axis_len, day_count, earliest_week, frames_model, lemma_day_count_bounded,
    lemma_earliest_week_bound, lemma_subject_days_contains, lemma_subject_days_finite,
    lemma_week_days_push, series_model, subject_days, tracks, week_counts, week_days, CountGrid,
    DatedSighting, Subject,
};
use crate::label::week_label;
use vstd::prelude::*;

verus! {

/// The earliest week is the week of some sighting.
pub proof fn lemma_earliest_week_attained(obs: Seq<DatedSighting>)
    requires
        obs.len() > 0,
    ensures
        exists|k: int| 0 <= k < obs.len() && week_of((#[trigger] obs[k]).day as int) == earliest_week(obs),
    decreases obs.len(),
{
    if obs.len() == 1 {
        assert(week_of(obs[0].day as int) == earliest_week(obs));
    } else {
        let rest = obs.drop_last();
        lemma_earliest_week_attained(rest);
        if week_of(obs.last().day as int) >= earliest_week(rest) {
            let k = choose|k: int| 0 <= k < rest.len() && week_of((#[trigger] rest[k]).day as int) == earliest_week(rest);
            assert(obs[k] == rest[k]);
        } else {
            assert(obs[obs.len() - 1] == obs.last());
        }
    }
}

/// The week axis is gap-free: it runs from the earliest week of a sighting
/// (the least week of any sighting) up to the current week, one week per
/// frame, so it has as many frames as the distance between the two weeks plus
/// one.
pub proof fn lemma_week_axis_contiguous(subjects: Seq<Subject>, obs: Seq<DatedSighting>, today: int)
    requires
        obs.len() > 0,
        earliest_week(obs) <= week_of(today),
    ensures
        forall|k: int| 0 <= k < obs.len() ==> earliest_week(obs) <= week_of((#[trigger] obs[k]).day as int),
        exists|k: int| 0 <= k < obs.len() && week_of((#[trigger] obs[k]).day as int) == earliest_week(obs),
        frames_model(subjects, obs, today).len() == week_of(today) - earliest_week(obs) + 1,
        forall|j: int|
            0 <= j < frames_model(subjects, obs, today).len() ==> (#[trigger] frames_model(subjects, obs, today)[j]).0
                == earliest_week(obs) + j,
        frames_model(subjects, obs, today).last().0 == week_of(today),
{
    assert forall|k: int| 0 <= k < obs.len() implies earliest_week(obs) <= week_of((#[trigger] obs[k]).day as int) by {
        lemma_earliest_week_bound(obs, k);
    }
    lemma_earliest_week_attained(obs);
}

/// A tracked subject that was never seen counts zero in every week.
pub proof fn lemma_unseen_subject_counts_zero(subjects: Seq<Subject>, obs: Seq<DatedSighting>, today: int, id: u64)
    requires
        tracks(subjects, id),
        forall|k: int| 0 <= k < obs.len() ==> (#[trigger] obs[k]).subject != id,
    ensures
        forall|j: int|
            0 <= j < frames_model(subjects, obs, today).len() ==> (#[trigger] frames_model(subjects, obs, today)[j]).2.contains_key(id)
                && frames_model(subjects, obs, today)[j].2[id] == 0,
{
    assert forall|d: int| !subject_days(obs, id).contains(d) by {
        lemma_subject_days_contains(obs, id, d);
    }
    assert forall|w: int| day_count(obs, id, w) == 0 by {
        assert(week_days(obs, id, w) =~= Set::<int>::empty());
    }
}

/// The grid is a function of its inputs: two grids made from the same
/// subjects, sightings and current day are the same.
pub proof fn lemma_grid_determined(
    g1: CountGrid,
    g2: CountGrid,
    subjects: Seq<Subject>,
    obs: Seq<DatedSighting>,
    today: int,
)
    requires
        g1@.0 == series_model(subjects),
        g1@.1 == frames_model(subjects, obs, today),
        g2@.0 == series_model(subjects),
        g2@.1 == frames_model(subjects, obs, today),
    ensures
        g1@ == g2@,
{
}

/// Counting is by distinct days: one more sighting of a subject on a day on
/// which it was already seen leaves the grid as it was.
pub proof fn lemma_same_day_counts_once(subjects: Seq<Subject>, obs: Seq<DatedSighting>, today: int, o: DatedSighting)
    requires
        exists|k: int| 0 <= k < obs.len() && (#[trigger] obs[k]).subject == o.subject && obs[k].day == o.day,
    ensures
        frames_model(subjects, obs.push(o), today) == frames_model(subjects, obs, today),
{
    let more = obs.push(o);
    let k = choose|k: int| 0 <= k < obs.len() && (#[trigger] obs[k]).subject == o.subject && obs[k].day == o.day;
    lemma_earliest_week_bound(obs, k);
    assert(more.drop_last() =~= obs);
    assert(more.last() == o);
    if obs.len() == 1 {
        assert(more.len() == 2);
    }
    assert(earliest_week(more) == earliest_week(obs));
    lemma_subject_days_contains(obs, o.subject, o.day as int);
    assert forall|id: u64, w: int| #[trigger] week_days(more, id, w) == week_days(obs, id, w) by {
        lemma_week_days_push(obs, o, id, w);
        if o.subject == id && week_of(o.day as int) == w {
            assert(week_days(obs, id, w).contains(o.day as int));
            assert(week_days(obs, id, w).insert(o.day as int) =~= week_days(obs, id, w));
        }
    }
    assert forall|w: int| #[trigger] week_counts(subjects, more, w) == week_counts(subjects, obs, w) by {
        assert(week_counts(subjects, more, w) =~= week_counts(subjects, obs, w));
    }
    assert(frames_model(subjects, more, today) =~= frames_model(subjects, obs, today));
}

/// A sighting in the current week is counted in the last frame of the axis,
/// the one labelled "This week", and its day is among the days of no other
/// frame.
pub proof fn lemma_current_week_is_this_week(subjects: Seq<Subject>, obs: Seq<DatedSighting>, today: int, k: int)
    requires
        0 <= k < obs.len(),
        week_of(obs[k].day as int) == week_of(today),
        tracks(subjects, obs[k].subject),
    ensures
        frames_model(subjects, obs, today).len() > 0,
        frames_model(subjects, obs, today).last().0 == week_of(today),
        frames_model(subjects, obs, today).last().1 == "This week"@,
        frames_model(subjects, obs, today).last().2[obs[k].subject] >= 1,
        forall|j: int|
            0 <= j < frames_model(subjects, obs, today).len() - 1 ==> !week_days(
                obs,
                obs[k].subject,
                (#[trigger] frames_model(subjects, obs, today)[j]).0,
            ).contains(obs[k].day as int),
{
    let id = obs[k].subject;
    let d = obs[k].day as int;
    lemma_earliest_week_bound(obs, k);
    lemma_subject_days_contains(obs, id, d);
    lemma_subject_days_finite(obs, id);
    lemma_day_count_bounded(obs, id, week_of(today));
    assert(week_days(obs, id, week_of(today)).contains(d));
    assert(day_count(obs, id, week_of(today)) >= 1);
    let n = axis_len(obs, today);
    assert(week_label((n - 1 - (n - 1)) as nat) == "This week"@);
}

/// Two sightings of one subject on one day count as a single day of that
/// day's week.
pub proof fn lemma_same_day_pair_counts_one(a: DatedSighting, b: DatedSighting)
    requires
        a.subject == b.subject,
        a.day == b.day,
    ensures
        day_count(seq![a, b], a.subject, week_of(a.day as int)) == 1,
{
    let id = a.subject;
    let one = seq![a];
    let obs = one.push(b);
    assert(obs =~= seq![a, b]);
    assert(one.len() == 1 && one.last() == a);
    assert(one.drop_last() =~= Seq::<DatedSighting>::empty());
    assert(subject_days(one.drop_last(), id) == Set::<int>::empty());
    assert(subject_days(one, id) == Set::<int>::empty().insert(a.day as int));
    assert(obs.drop_last() =~= one && obs.last() == b);
    assert(subject_days(obs, id) == subject_days(one, id).insert(b.day as int));
    assert(subject_days(obs, id) =~= set![a.day as int]);
    assert(week_days(obs, a.subject, week_of(a.day as int)) =~= set![a.day as int]);
}

} // verus!
