use bird_counter::calendar::{week_of_day, MAX_TIMESTAMP};
use bird_counter::grid::{aggregate, first_sightings, CountGrid, DatedSighting, Subject};
use bird_counter::label::{decimal_text, week_label_text};
use bird_counter::local::{date_sightings, weekly_grid, GridError, Sighting};
use chrono::{Datelike, NaiveDate};

fn day(y: i32, m: u32, d: u32) -> i32 {
    NaiveDate::from_ymd_opt(y, m, d).unwrap().num_days_from_ce()
}

fn noon_utc(y: i32, m: u32, d: u32) -> i64 {
    NaiveDate::from_ymd_opt(y, m, d)
        .unwrap()
        .and_hms_opt(12, 0, 0)
        .unwrap()
        .and_utc()
        .timestamp()
}

fn subject(id: u64, name: &str) -> Subject {
    Subject { id, name: name.to_string() }
}

fn seen(subject: u64, day: i32) -> DatedSighting {
    DatedSighting { subject, day }
}

fn labels(g: &CountGrid) -> Vec<String> {
    g.frames.iter().map(|f| f.label.clone()).collect()
}

fn counts_of(g: &CountGrid, id: u64) -> Vec<Option<i32>> {
    g.frames.iter().map(|f| f.count(id)).collect()
}

#[test]
fn robin_over_two_weeks() {
    let subjects = vec![subject(1, "Robin")];
    // Week W runs from Monday 2024-06-03; week W-1 from Monday 2024-05-27.
    let obs = vec![
        seen(1, day(2024, 6, 3)),
        seen(1, day(2024, 6, 4)),
        seen(1, day(2024, 5, 27)),
    ];
    let g = aggregate(&subjects, &obs, day(2024, 6, 6));
    assert_eq!(g.frames.len(), 2);
    assert_eq!(labels(&g), vec!["Last week".to_string(), "This week".to_string()]);
    assert_eq!(counts_of(&g, 1), vec![Some(1), Some(2)]);
    assert_eq!(g.frames[1].week, g.frames[0].week + 1);
    assert_eq!(g.series.len(), 1);
    assert_eq!(g.series[0].id, 1);
    assert_eq!(g.series[0].name, "Robin");
    assert!(g.series[0].visible);
}

#[test]
fn no_sightings_gives_empty_axis() {
    let subjects = vec![subject(1, "Robin")];
    let g = aggregate(&subjects, &Vec::new(), day(2024, 6, 6));
    assert_eq!(g.frames.len(), 0);
    assert_eq!(g.series.len(), 1);
}

#[test]
fn no_subjects_and_no_sightings() {
    let g = aggregate(&Vec::new(), &Vec::new(), day(2024, 6, 6));
    assert_eq!(g.frames.len(), 0);
    assert_eq!(g.series.len(), 0);
}

#[test]
fn axis_has_no_gaps() {
    let subjects = vec![subject(1, "Robin"), subject(2, "Wren")];
    // Three weeks before the current one, and nothing in between.
    let obs = vec![seen(2, day(2024, 5, 15))];
    let g = aggregate(&subjects, &obs, day(2024, 6, 6));
    assert_eq!(g.frames.len(), 4);
    for j in 1..4 {
        assert_eq!(g.frames[j].week, g.frames[0].week + j as i32);
    }
    assert_eq!(g.frames[3].week, week_of_day(day(2024, 6, 6)));
    assert_eq!(
        labels(&g),
        vec!["4".to_string(), "3".to_string(), "Last week".to_string(), "This week".to_string()]
    );
    assert_eq!(counts_of(&g, 2), vec![Some(1), Some(0), Some(0), Some(0)]);
}

#[test]
fn unseen_subject_counts_zero() {
    let subjects = vec![subject(1, "Robin"), subject(2, "Wren")];
    let obs = vec![seen(1, day(2024, 5, 20)), seen(1, day(2024, 6, 5))];
    let g = aggregate(&subjects, &obs, day(2024, 6, 6));
    assert_eq!(g.frames.len(), 3);
    assert_eq!(counts_of(&g, 2), vec![Some(0), Some(0), Some(0)]);
    assert_eq!(counts_of(&g, 1), vec![Some(1), Some(0), Some(1)]);
}

#[test]
fn same_inputs_same_grid() {
    let subjects = vec![subject(1, "Robin"), subject(5, "Finch")];
    let obs = vec![
        seen(5, day(2024, 5, 28)),
        seen(1, day(2024, 6, 1)),
        seen(5, day(2024, 6, 4)),
        seen(5, day(2024, 6, 4)),
    ];
    let a = aggregate(&subjects, &obs, day(2024, 6, 6));
    let b = aggregate(&subjects, &obs, day(2024, 6, 6));
    assert_eq!(labels(&a), labels(&b));
    assert_eq!(a.frames.len(), b.frames.len());
    for j in 0..a.frames.len() {
        assert_eq!(a.frames[j].week, b.frames[j].week);
        assert_eq!(a.frames[j].counts, b.frames[j].counts);
    }
    assert_eq!(counts_of(&a, 1), vec![Some(1), Some(0)]);
    assert_eq!(counts_of(&a, 5), vec![Some(1), Some(1)]);
}

#[test]
fn same_day_counts_once() {
    let subjects = vec![subject(1, "Robin")];
    let obs = vec![seen(1, day(2024, 6, 4)), seen(1, day(2024, 6, 4))];
    let g = aggregate(&subjects, &obs, day(2024, 6, 6));
    assert_eq!(counts_of(&g, 1), vec![Some(1)]);
    let once = aggregate(&subjects, &obs[..1].to_vec(), day(2024, 6, 6));
    assert_eq!(once.frames[0].counts, g.frames[0].counts);
}

#[test]
fn whole_week_counts_seven() {
    let subjects = vec![subject(3, "Tit")];
    let mut obs = Vec::new();
    for d in 3..=9 {
        obs.push(seen(3, day(2024, 6, d)));
        obs.push(seen(3, day(2024, 6, d)));
    }
    let g = aggregate(&subjects, &obs, day(2024, 6, 9));
    assert_eq!(counts_of(&g, 3), vec![Some(7)]);
}

#[test]
fn sighting_today_is_this_week() {
    let subjects = vec![subject(1, "Robin")];
    let today = day(2024, 6, 6);
    let obs = vec![seen(1, day(2024, 4, 30)), seen(1, today)];
    let g = aggregate(&subjects, &obs, today);
    let last = g.frames.last().unwrap();
    assert_eq!(last.label, "This week");
    assert_eq!(last.week, week_of_day(today));
    assert_eq!(last.count(1), Some(1));
}

#[test]
fn future_sightings_only_give_empty_axis() {
    let subjects = vec![subject(1, "Robin")];
    let obs = vec![seen(1, day(2024, 7, 1))];
    let g = aggregate(&subjects, &obs, day(2024, 6, 6));
    assert_eq!(g.frames.len(), 0);
}

#[test]
fn sightings_outside_the_axis_are_not_counted() {
    let subjects = vec![subject(1, "Robin")];
    let obs = vec![seen(1, day(2024, 6, 4)), seen(1, day(2024, 7, 1))];
    let g = aggregate(&subjects, &obs, day(2024, 6, 6));
    assert_eq!(counts_of(&g, 1), vec![Some(1)]);
}

#[test]
fn untracked_subject_has_no_count() {
    let subjects = vec![subject(1, "Robin")];
    let obs = vec![seen(1, day(2024, 6, 4))];
    let g = aggregate(&subjects, &obs, day(2024, 6, 6));
    assert_eq!(g.frames[0].count(9), None);
}

#[test]
fn weeks_start_on_monday() {
    assert_eq!(week_of_day(1), 0);
    assert_eq!(week_of_day(7), 0);
    assert_eq!(week_of_day(8), 1);
    assert_eq!(week_of_day(0), -1);
    assert_eq!(week_of_day(-6), -1);
    assert_eq!(week_of_day(-7), -2);
    let sunday = week_of_day(day(2024, 6, 2));
    let monday = week_of_day(day(2024, 6, 3));
    assert_eq!(monday, sunday + 1);
    assert_eq!(week_of_day(day(2024, 6, 9)), monday);
    assert_eq!(week_of_day(day(2024, 6, 10)), monday + 1);
}

#[test]
fn frame_iso_week() {
    let subjects = vec![subject(1, "Robin")];
    let obs = vec![seen(1, day(2024, 12, 31))];
    let g = aggregate(&subjects, &obs, day(2025, 1, 2));
    assert_eq!(g.frames.len(), 1);
    assert_eq!(g.frames[0].iso_week(), Some((2025, 1)));
    let obs = vec![seen(1, day(2024, 6, 5))];
    let g = aggregate(&subjects, &obs, day(2024, 6, 5));
    assert_eq!(g.frames[0].iso_week(), Some((2024, 23)));
}

#[test]
fn labels_in_decimal() {
    assert_eq!(decimal_text(0), "0");
    assert_eq!(decimal_text(7), "7");
    assert_eq!(decimal_text(120), "120");
    assert_eq!(decimal_text(u64::MAX), u64::MAX.to_string());
    assert_eq!(week_label_text(0), "This week");
    assert_eq!(week_label_text(1), "Last week");
    assert_eq!(week_label_text(2), "3");
    assert_eq!(week_label_text(9), "10");
}

#[test]
fn first_sighting_of_each_day() {
    let obs = vec![seen(1, 10), seen(2, 10), seen(1, 10), seen(1, 11), seen(2, 10)];
    assert_eq!(first_sightings(&obs), vec![true, true, false, true, false]);
    assert_eq!(first_sightings(&Vec::new()), Vec::<bool>::new());
}

#[test]
fn grid_from_timestamps() {
    let subjects = vec![subject(1, "Robin")];
    let sightings = vec![
        Sighting { subject: 1, seen_at: noon_utc(2024, 6, 4) },
        Sighting { subject: 1, seen_at: noon_utc(2024, 6, 4) + 60 },
        Sighting { subject: 1, seen_at: noon_utc(2024, 6, 5) },
        Sighting { subject: 1, seen_at: noon_utc(2024, 5, 29) },
    ];
    let g = weekly_grid(&subjects, &sightings, noon_utc(2024, 6, 6)).unwrap();
    assert_eq!(labels(&g), vec!["Last week".to_string(), "This week".to_string()]);
    assert_eq!(counts_of(&g, 1), vec![Some(1), Some(2)]);
}

#[test]
fn timestamps_are_dated() {
    let sightings = vec![Sighting { subject: 4, seen_at: noon_utc(2024, 6, 4) }];
    let dated = date_sightings(&sightings).unwrap();
    assert_eq!(dated.len(), 1);
    assert_eq!(dated[0].subject, 4);
    let utc = day(2024, 6, 4);
    assert!(dated[0].day >= utc - 1 && dated[0].day <= utc + 1);
}

#[test]
fn timestamp_without_a_date_is_rejected() {
    let subjects = vec![subject(1, "Robin")];
    let sightings = vec![
        Sighting { subject: 1, seen_at: noon_utc(2024, 6, 4) },
        Sighting { subject: 1, seen_at: i64::MAX },
    ];
    assert_eq!(
        weekly_grid(&subjects, &sightings, noon_utc(2024, 6, 6)).err(),
        Some(GridError::InvalidTimestamp(i64::MAX))
    );
    assert_eq!(
        weekly_grid(&subjects, &Vec::new(), i64::MIN).err(),
        Some(GridError::InvalidTimestamp(i64::MIN))
    );
}

#[test]
fn datable_range_edges() {
    let at_edge = vec![Sighting { subject: 1, seen_at: MAX_TIMESTAMP }, Sighting { subject: 1, seen_at: -MAX_TIMESTAMP }];
    let dated = date_sightings(&at_edge).unwrap();
    assert_eq!(dated.len(), 2);
    assert!(dated[1].day < dated[0].day);
    let beyond = vec![Sighting { subject: 1, seen_at: MAX_TIMESTAMP + 1 }];
    assert_eq!(date_sightings(&beyond).err(), Some(GridError::InvalidTimestamp(MAX_TIMESTAMP + 1)));
    let before = vec![Sighting { subject: 1, seen_at: -MAX_TIMESTAMP - 1 }];
    assert_eq!(date_sightings(&before).err(), Some(GridError::InvalidTimestamp(-MAX_TIMESTAMP - 1)));
}

#[test]
fn now_out_of_range_is_reported_first() {
    let subjects = vec![subject(1, "Robin")];
    let sightings = vec![Sighting { subject: 1, seen_at: MAX_TIMESTAMP + 5 }];
    assert_eq!(
        weekly_grid(&subjects, &sightings, MAX_TIMESTAMP + 1).err(),
        Some(GridError::InvalidTimestamp(MAX_TIMESTAMP + 1))
    );
}

#[test]
fn first_out_of_range_sighting_is_reported() {
    let sightings = vec![
        Sighting { subject: 1, seen_at: noon_utc(2024, 6, 4) },
        Sighting { subject: 1, seen_at: -MAX_TIMESTAMP - 7 },
        Sighting { subject: 1, seen_at: MAX_TIMESTAMP + 7 },
    ];
    assert_eq!(date_sightings(&sightings).err(), Some(GridError::InvalidTimestamp(-MAX_TIMESTAMP - 7)));
}

#[test]
fn datable_inputs_give_a_grid() {
    let subjects = vec![subject(1, "Robin")];
    let sightings = vec![Sighting { subject: 1, seen_at: -MAX_TIMESTAMP }];
    let g = weekly_grid(&subjects, &sightings, -MAX_TIMESTAMP + 14 * 86_400).unwrap();
    assert!(g.frames.len() >= 2 && g.frames.len() <= 4);
    assert_eq!(g.frames.last().unwrap().label, "This week");
    assert!(weekly_grid(&subjects, &Vec::new(), 0).unwrap().frames.is_empty());
}

#[test]
fn iso_week_across_a_year_end() {
    let subjects = vec![subject(1, "Robin")];
    // Monday 2020-12-28 starts ISO week 53 of 2020.
    let obs = vec![seen(1, day(2020, 12, 28))];
    let g = aggregate(&subjects, &obs, day(2021, 1, 4));
    assert_eq!(g.frames.len(), 2);
    assert_eq!(g.frames[0].iso_week(), Some((2020, 53)));
    assert_eq!(g.frames[1].iso_week(), Some((2021, 1)));
}
