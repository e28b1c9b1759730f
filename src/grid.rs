//! The weekly count grid: for every tracked subject and every week from the
//! first sighting's week to the current week, the number of distinct days in
//! that week on which the subject was seen.

use crate::calendar::{has_date, iso_week_number, iso_week_of, week_of, week_of_day, week_start};
use crate::count_map::{count_entries, count_for, insert_count, new_count_map, no_counts};
use crate::label::{week_label, week_label_text};
use intmap::IntMap;
use vstd::prelude::*;
use vstd::set_lib::{lemma_int_range, lemma_len_subset, set_int_range};

verus! {

/// A tracked subject (a species): its identifier and display name.
pub struct Subject {
    pub id: u64,
    pub name: String,
}

/// A sighting of a subject, dated by the local calendar day (a day number, see
/// the `calendar` module) on which it happened.
#[derive(Clone, Copy, Debug, PartialEq, Eq, Structural)]
pub struct DatedSighting {
    pub subject: u64,
    pub day: i32,
}

/// The set of days on which subject `id` was seen.
pub open spec fn subject_days(obs: Seq<DatedSighting>, id: u64) -> Set<int>
    decreases obs.len(),
{
    if obs.len() == 0 {
        Set::empty()
    } else {
        let rest = subject_days(obs.drop_last(), id);
        if obs.last().subject == id {
            rest.insert(obs.last().day as int)
        } else {
            rest
        }
    }
}

/// The days of week `week` on which subject `id` was seen.
pub open spec fn week_days(obs: Seq<DatedSighting>, id: u64, week: int) -> Set<int> {
    subject_days(obs, id).filter(|d: int| week_of(d) == week)
}

/// How many distinct days of week `week` subject `id` was seen on.
pub open spec fn day_count(obs: Seq<DatedSighting>, id: u64, week: int) -> nat {
    week_days(obs, id, week).len()
}

/// Whether some subject of `subjects` has identifier `id`.
pub open spec fn tracks(subjects: Seq<Subject>, id: u64) -> bool {
    exists|i: int| 0 <= i < subjects.len() && (#[trigger] subjects[i]).id == id
}

/// The counts of week `week`, keyed by subject identifier.
pub open spec fn week_counts(subjects: Seq<Subject>, obs: Seq<DatedSighting>, week: int) -> Map<u64, i32> {
    Map::new(|id: u64| tracks(subjects, id), |id: u64| day_count(obs, id, week) as i32)
}

/// The earliest week in which any sighting falls (0 when there is none).
pub open spec fn earliest_week(obs: Seq<DatedSighting>) -> int
    decreases obs.len(),
{
    if obs.len() == 0 {
        0
    } else if obs.len() == 1 {
        week_of(obs[0].day as int)
    } else {
        let rest = earliest_week(obs.drop_last());
        let w = week_of(obs.last().day as int);
        if w < rest {
            w
        } else {
            rest
        }
    }
}

/// The number of weeks on the axis: from the earliest sighting's week to the
/// week of day `today`, both included; none without sightings.
pub open spec fn axis_len(obs: Seq<DatedSighting>, today: int) -> nat {
    if obs.len() == 0 || earliest_week(obs) > week_of(today) {
        0
    } else {
        (week_of(today) - earliest_week(obs) + 1) as nat
    }
}

/// A series of the chart, as (identifier, name, visible).
pub type SeriesView = (u64, Seq<char>, bool);

/// A week of the chart, as (week, label, counts by subject identifier).
pub type FrameView = (int, Seq<char>, Map<u64, i32>);

/// The series of the grid: one per subject, in order, all visible.
pub open spec fn series_model(subjects: Seq<Subject>) -> Seq<SeriesView> {
    subjects.map_values(|s: Subject| (s.id, s.name@, true))
}

/// The week axis of the grid, oldest week first, each week with its label and
/// its counts.
pub open spec fn frames_model(subjects: Seq<Subject>, obs: Seq<DatedSighting>, today: int) -> Seq<FrameView> {
    let n = axis_len(obs, today);
    Seq::new(
        n,
        |j: int|
            (
                earliest_week(obs) + j,
                week_label((n - 1 - j) as nat),
                week_counts(subjects, obs, earliest_week(obs) + j),
            ),
    )
}

// ---------------------------------------------------------------------------
// Facts about the model.

/// A subject is seen on finitely many days.
pub proof fn lemma_subject_days_finite(obs: Seq<DatedSighting>, id: u64)
    ensures
        subject_days(obs, id).finite(),
    decreases obs.len(),
{
    if obs.len() > 0 {
        lemma_subject_days_finite(obs.drop_last(), id);
    }
}

/// A day is among a subject's days exactly when a sighting of it on that day exists.
pub proof fn lemma_subject_days_contains(obs: Seq<DatedSighting>, id: u64, d: int)
    ensures
        subject_days(obs, id).contains(d) <==> exists|k: int|
            0 <= k < obs.len() && (#[trigger] obs[k]).subject == id && obs[k].day == d,
    decreases obs.len(),
{
    if obs.len() > 0 {
        let rest = obs.drop_last();
        lemma_subject_days_contains(rest, id, d);
        if subject_days(obs, id).contains(d) {
            if subject_days(rest, id).contains(d) {
                let k = choose|k: int| 0 <= k < rest.len() && (#[trigger] rest[k]).subject == id && rest[k].day == d;
                assert(obs[k] == rest[k]);
            } else {
                assert(obs[obs.len() - 1] == obs.last());
            }
        }
        if exists|k: int| 0 <= k < obs.len() && (#[trigger] obs[k]).subject == id && obs[k].day == d {
            let k = choose|k: int| 0 <= k < obs.len() && (#[trigger] obs[k]).subject == id && obs[k].day == d;
            if k < obs.len() - 1 {
                assert(rest[k] == obs[k]);
            }
        }
    }
}

/// A subject is seen on at most the seven days of a week.
pub proof fn lemma_day_count_bounded(obs: Seq<DatedSighting>, id: u64, week: int)
    ensures
        week_days(obs, id, week).finite(),
        day_count(obs, id, week) <= 7,
{
    let days = week_days(obs, id, week);
    let range = set_int_range(7 * week + 1, 7 * week + 8);
    lemma_int_range(7 * week + 1, 7 * week + 8);
    assert forall|d: int| days.contains(d) implies range.contains(d) by {
        assert(week_of(d) == week);
        assert(7 * week + 1 <= d < 7 * week + 8);
    }
    lemma_len_subset(days, range);
}

/// How the days of a week change when one more sighting is taken in.
pub proof fn lemma_week_days_push(obs: Seq<DatedSighting>, o: DatedSighting, id: u64, week: int)
    ensures
        week_days(obs.push(o), id, week) == (if o.subject == id && week_of(o.day as int) == week {
            week_days(obs, id, week).insert(o.day as int)
        } else {
            week_days(obs, id, week)
        }),
{
    let next = obs.push(o);
    assert(next.drop_last() =~= obs);
    assert(next.last() == o);
    if o.subject == id && week_of(o.day as int) == week {
        assert(week_days(next, id, week) =~= week_days(obs, id, week).insert(o.day as int));
    } else {
        assert(week_days(next, id, week) =~= week_days(obs, id, week));
    }
}

/// The earliest week is no later than the week of any sighting.
pub proof fn lemma_earliest_week_bound(obs: Seq<DatedSighting>, k: int)
    requires
        0 <= k < obs.len(),
    ensures
        earliest_week(obs) <= week_of(obs[k].day as int),
    decreases obs.len(),
{
    if obs.len() > 1 && k < obs.len() - 1 {
        lemma_earliest_week_bound(obs.drop_last(), k);
        assert(obs.drop_last()[k] == obs[k]);
    }
}

// ---------------------------------------------------------------------------
// The grid.

/// Whether the sighting at position `k` repeats the subject and day of an
/// earlier one.
pub open spec fn seen_before(obs: Seq<DatedSighting>, k: int) -> bool {
    exists|e: int| 0 <= e < k && (#[trigger] obs[e]).subject == obs[k].subject && obs[e].day == obs[k].day
}

/// A series of the chart: one tracked subject.
pub struct Series {
    pub id: u64,
    pub name: String,
    pub visible: bool,
}

/// One week of the chart: its week number, display label, and the count of
/// each tracked subject, keyed by subject identifier.
pub struct WeekFrame {
    pub week: i32,
    pub label: String,
    pub counts: IntMap<i32>,
}

/// The aggregation result: the series, and the weeks oldest first.
pub struct CountGrid {
    pub series: Vec<Series>,
    pub frames: Vec<WeekFrame>,
}

impl WeekFrame {
    /// The count of subject `id` in this week, if the subject is tracked.
    pub fn count(&self, id: u64) -> (r: Option<i32>)
        ensures
            r == (if count_entries(self.counts).contains_key(id) {
                Some(count_entries(self.counts)[id])
            } else {
                None
            }),
    {
        count_for(&self.counts, id)
    }

    /// The ISO-8601 year and week number of this week, when its first day has a
    /// calendar date.
    pub fn iso_week(&self) -> (r: Option<(i32, u32)>)
        ensures
            has_date(week_start(self.week as int)) ==> r is Some,
            r matches Some(p) ==> (p.0 as int, p.1 as int) == iso_week_of(week_start(self.week as int)),
    {
        let start: i64 = 7 * self.week as i64 + 1;
        if start < i32::MIN as i64 || start > i32::MAX as i64 {
            None
        } else {
            iso_week_number(start as i32)
        }
    }
}

impl View for CountGrid {
    type V = (Seq<SeriesView>, Seq<FrameView>);

    open spec fn view(&self) -> (Seq<SeriesView>, Seq<FrameView>) {
        (
            self.series@.map_values(|s: Series| (s.id, s.name@, s.visible)),
            self.frames@.map_values(|f: WeekFrame| (f.week as int, f.label@, count_entries(f.counts))),
        )
    }
}

/// For each sighting, whether it is the first one of its subject on its day.
pub fn first_sightings(obs: &Vec<DatedSighting>) -> (r: Vec<bool>)
    ensures
        r.len() == obs.len(),
        forall|k: int| 0 <= k < obs.len() ==> r[k] == !seen_before(obs@, k),
{
    let mut r: Vec<bool> = Vec::new();
    let mut k: usize = 0;
    while k < obs.len()
        invariant
            k <= obs.len(),
            r.len() == k,
            forall|i: int| 0 <= i < k ==> r[i] == !seen_before(obs@, i),
        decreases obs.len() - k,
    {
        let o = obs[k];
        let mut seen = false;
        let mut e: usize = 0;
        while e < k
            invariant
                k < obs.len(),
                e <= k,
                o == obs@[k as int],
                seen == exists|x: int| 0 <= x < e && (#[trigger] obs@[x]).subject == o.subject && obs@[x].day == o.day,
            decreases k - e,
        {
            if obs[e].subject == o.subject && obs[e].day == o.day {
                seen = true;
            }
            e += 1;
        }
        r.push(!seen);
        k += 1;
    }
    r
}

/// The earliest week in which a sighting falls.
fn earliest_sighting_week(obs: &Vec<DatedSighting>) -> (w: i32)
    requires
        obs.len() > 0,
    ensures
        w == earliest_week(obs@),
{
    let mut w = week_of_day(obs[0].day);
    let mut k: usize = 1;
    assert(obs@.subrange(0, 1).len() == 1 && obs@.subrange(0, 1)[0] == obs@[0]);
    while k < obs.len()
        invariant
            1 <= k <= obs.len(),
            w == earliest_week(obs@.subrange(0, k as int)),
        decreases obs.len() - k,
    {
        let v = week_of_day(obs[k].day);
        assert(obs@.subrange(0, k + 1).drop_last() =~= obs@.subrange(0, k as int));
        if v < w {
            w = v;
        }
        k += 1;
    }
    assert(obs@.subrange(0, obs.len() as int) =~= obs@);
    w
}

/// The row of subject `id`: its count in each of `weeks` weeks from week `first_week`.
fn subject_row(obs: &Vec<DatedSighting>, first: &Vec<bool>, id: u64, first_week: i32, weeks: usize) -> (row: Vec<i32>)
    requires
        first.len() == obs.len(),
        forall|k: int| 0 <= k < obs.len() ==> first[k] == !seen_before(obs@, k),
        first_week + weeks <= i32::MAX + 1,
    ensures
        row.len() == weeks,
        forall|j: int| 0 <= j < weeks ==> row[j] == day_count(obs@, id, first_week + j),
{
    let mut row: Vec<i32> = Vec::new();
    let mut j: usize = 0;
    while j < weeks
        invariant
            j <= weeks,
            row.len() == j,
            forall|i: int| 0 <= i < j ==> row[i] == 0,
        decreases weeks - j,
    {
        row.push(0);
        j += 1;
    }
    let mut k: usize = 0;
    proof {
        assert forall|i: int| 0 <= i < weeks implies row[i] == day_count(obs@.subrange(0, 0), id, first_week + i) by {
            assert(obs@.subrange(0, 0) =~= Seq::<DatedSighting>::empty());
            assert(subject_days(obs@.subrange(0, 0), id) =~= Set::<int>::empty());
            assert(week_days(obs@.subrange(0, 0), id, first_week + i) =~= Set::<int>::empty());
        }
    }
    while k < obs.len()
        invariant
            k <= obs.len(),
            first.len() == obs.len(),
            forall|x: int| 0 <= x < obs.len() ==> first[x] == !seen_before(obs@, x),
            first_week + weeks <= i32::MAX + 1,
            row.len() == weeks,
            forall|i: int| 0 <= i < weeks ==> row[i] == day_count(obs@.subrange(0, k as int), id, first_week + i),
        decreases obs.len() - k,
    {
        let o = obs[k];
        let prefix = Ghost(obs@.subrange(0, k as int));
        let next = Ghost(obs@.subrange(0, k + 1));
        assert(next@ =~= prefix@.push(o));
        let w = week_of_day(o.day);
        proof {
            lemma_subject_days_finite(prefix@, id);
            lemma_subject_days_contains(prefix@, id, o.day as int);
            if o.subject == id {
                if subject_days(prefix@, id).contains(o.day as int) {
                    let e = choose|e: int| 0 <= e < prefix@.len() && (#[trigger] prefix@[e]).subject == id && prefix@[e].day == o.day;
                    assert(obs@[e] == prefix@[e]);
                    assert(seen_before(obs@, k as int));
                } else {
                    assert forall|e: int| 0 <= e < k implies !((#[trigger] obs@[e]).subject == id && obs@[e].day == o.day) by {
                        assert(prefix@[e] == obs@[e]);
                    }
                }
            }
        }
        if o.subject == id && first[k] && first_week <= w && (w as i64) < first_week as i64 + weeks as i64 {
            let j = (w as i64 - first_week as i64) as usize;
            proof {
                lemma_day_count_bounded(next@, id, w as int);
                lemma_week_days_push(prefix@, o, id, w as int);
                lemma_day_count_bounded(prefix@, id, w as int);
            }
            row.set(j, row[j] + 1);
        }
        proof {
            assert forall|i: int| 0 <= i < weeks implies row[i] == day_count(next@, id, first_week + i) by {
                lemma_week_days_push(prefix@, o, id, first_week + i);
            }
        }
        k += 1;
    }
    assert(obs@.subrange(0, obs.len() as int) =~= obs@);
    row
}

/// The counts of week `week` for the first `n` subjects, keyed by subject identifier.
spec fn counts_of_first(subjects: Seq<Subject>, obs: Seq<DatedSighting>, week: int, n: int) -> Map<u64, i32> {
    Map::new(
        |id: u64| exists|i: int| 0 <= i < n && (#[trigger] subjects[i]).id == id,
        |id: u64| day_count(obs, id, week) as i32,
    )
}

/// The count map of one week, from the subjects' rows.
fn week_count_map(
    subjects: &Vec<Subject>,
    obs: Ghost<Seq<DatedSighting>>,
    rows: &Vec<Vec<i32>>,
    week: Ghost<int>,
    j: usize,
) -> (m: IntMap<i32>)
    requires
        rows.len() == subjects.len(),
        forall|i: int| 0 <= i < rows.len() ==> j < (#[trigger] rows[i]).len() && rows[i][j as int] == day_count(obs@, subjects[i].id, week@),
    ensures
        count_entries(m) == week_counts(subjects@, obs@, week@),
{
    let cap: usize = if subjects.len() < 4096 { subjects.len() } else { 4096 };
    let mut m = new_count_map(cap);
    let mut i: usize = 0;
    assert(count_entries(m) =~= counts_of_first(subjects@, obs@, week@, 0));
    while i < subjects.len()
        invariant
            i <= subjects.len(),
            rows.len() == subjects.len(),
            forall|x: int| 0 <= x < rows.len() ==> j < (#[trigger] rows[x]).len() && rows[x][j as int] == day_count(obs@, subjects[x].id, week@),
            count_entries(m) == counts_of_first(subjects@, obs@, week@, i as int),
        decreases subjects.len() - i,
    {
        let id = subjects[i].id;
        let c = rows[i][j];
        proof {
            lemma_day_count_bounded(obs@, id, week@);
        }
        insert_count(&mut m, id, c);
        proof {
            let next = counts_of_first(subjects@, obs@, week@, i + 1);
            assert forall|k: u64| next.contains_key(k) implies count_entries(m).contains_key(k) by {
                let x = choose|x: int| 0 <= x < i + 1 && (#[trigger] subjects@[x]).id == k;
                if x < i {
                    assert(counts_of_first(subjects@, obs@, week@, i as int).contains_key(k));
                }
            }
            assert forall|k: u64| count_entries(m).contains_key(k) implies next.contains_key(k) by {
                if k != id {
                    assert(counts_of_first(subjects@, obs@, week@, i as int).contains_key(k));
                    let x = choose|x: int| 0 <= x < i && (#[trigger] subjects@[x]).id == k;
                    assert(0 <= x < i + 1);
                } else {
                    assert(subjects@[i as int].id == k);
                }
            }
            assert(count_entries(m) =~= next);
        }
        i += 1;
    }
    assert(count_entries(m) =~= week_counts(subjects@, obs@, week@));
    m
}

/// The count grid of `sightings` for `subjects`, with day `today` falling in
/// the current week: one visible series per subject, and one frame per week
/// from the earliest sighting's week to the current week, oldest first, each
/// labelled and holding every subject's count of distinct days.
pub fn aggregate(subjects: &Vec<Subject>, sightings: &Vec<DatedSighting>, today: i32) -> (g: CountGrid)
    ensures
        g@.0 == series_model(subjects@),
        g@.1 == frames_model(subjects@, sightings@, today as int),
{
    let mut series: Vec<Series> = Vec::new();
    let mut i: usize = 0;
    while i < subjects.len()
        invariant
            i <= subjects.len(),
            series.len() == i,
            forall|x: int|
                0 <= x < i ==> (#[trigger] series[x]).id == subjects[x].id && series[x].name@ == subjects[x].name@
                    && series[x].visible,
        decreases subjects.len() - i,
    {
        series.push(Series { id: subjects[i].id, name: subjects[i].name.clone(), visible: true });
        i += 1;
    }
    let ghost obs = sightings@;
    let mut frames: Vec<WeekFrame> = Vec::new();
    if sightings.len() > 0 {
        let first_week = earliest_sighting_week(sightings);
        let last_week = week_of_day(today);
        if first_week <= last_week {
            let weeks = (last_week as i64 - first_week as i64 + 1) as usize;
            let first = first_sightings(sightings);
            let mut rows: Vec<Vec<i32>> = Vec::new();
            let mut r: usize = 0;
            while r < subjects.len()
                invariant
                    r <= subjects.len(),
                    obs == sightings@,
                    rows.len() == r,
                    first.len() == sightings.len(),
                    forall|k: int| 0 <= k < sightings.len() ==> first[k] == !seen_before(obs, k),
                    weeks == last_week - first_week + 1,
                    forall|x: int|
                        0 <= x < r ==> (#[trigger] rows[x]).len() == weeks && forall|y: int|
                            0 <= y < weeks ==> rows[x][y] == day_count(obs, subjects[x].id, first_week + y),
                decreases subjects.len() - r,
            {
                let row = subject_row(sightings, &first, subjects[r].id, first_week, weeks);
                rows.push(row);
                r += 1;
            }
            let mut j: usize = 0;
            while j < weeks
                invariant
                    j <= weeks,
                    obs == sightings@,
                    weeks == last_week - first_week + 1,
                    rows.len() == subjects.len(),
                    forall|x: int|
                        0 <= x < rows.len() ==> (#[trigger] rows[x]).len() == weeks && forall|y: int|
                            0 <= y < weeks ==> rows[x][y] == day_count(obs, subjects[x].id, first_week + y),
                    frames.len() == j,
                    forall|x: int|
                        0 <= x < j ==> (#[trigger] frames[x]).week == first_week + x && frames[x].label@ == week_label(
                            (weeks - 1 - x) as nat,
                        ) && count_entries(frames[x].counts) == week_counts(subjects@, obs, first_week + x),
                decreases weeks - j,
            {
                let counts = week_count_map(subjects, Ghost(obs), &rows, Ghost(first_week + j), j);
                let label = week_label_text((weeks - 1 - j) as u64);
                let week = (first_week as i64 + j as i64) as i32;
                frames.push(WeekFrame { week, label, counts });
                j += 1;
            }
        }
    }
    let g = CountGrid { series, frames };
    assert(g@.0 =~= series_model(subjects@));
    assert(g@.1 =~= frames_model(subjects@, sightings@, today as int));
    g
}

} // verus!
