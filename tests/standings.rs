use aocgem::standings::{Completion, DayProgress, Member};
use aocgem::time::CivilDate;

const DEC1_2022: i64 = 1669870800;
const DAY: i64 = 86400;

fn star(ts: i64) -> Completion {
    Completion { get_star_ts: ts, star_index: 0 }
}

fn member(days: Vec<DayProgress>) -> Member {
    Member {
        id: 1,
        name: "someone".to_string(),
        global_score: 0,
        last_star_ts: 0,
        local_score: 0,
        stars: 0,
        completion_day_level: days,
    }
}

#[test]
fn no_stars_means_no_durations_on_any_day() {
    let m = member(vec![]);
    for day in 1..=25 {
        assert_eq!(m.completion_time(day, 2022), (None, None));
    }
    let m = member(vec![DayProgress { day: 3, part1: None, part2: Some(star(DEC1_2022 + 2 * DAY + 50)) }]);
    for day in 1..=25 {
        assert_eq!(m.completion_time(day, 2022), (None, None));
    }
    assert_eq!(m.total_completion_time(2022), Some(0));
    assert!(!m.completed_any(2022));
}

#[test]
fn total_sums_both_parts() {
    let m = member(vec![DayProgress {
        day: 1,
        part1: Some(star(DEC1_2022 + 90)),
        part2: Some(star(DEC1_2022 + 120)),
    }]);
    assert_eq!(m.completion_time(1, 2022), (Some(90), Some(30)));
    assert_eq!(m.total_completion_time(2022), Some(120));
    assert!(m.completed_any(2022));
}

#[test]
fn durations_are_measured_from_each_days_midnight() {
    let m = member(vec![
        DayProgress { day: 2, part1: Some(star(DEC1_2022 + DAY + 3600)), part2: None },
        DayProgress {
            day: 5,
            part1: Some(star(DEC1_2022 + 4 * DAY + 60)),
            part2: Some(star(DEC1_2022 + 5 * DAY)),
        },
    ]);
    assert_eq!(m.completion_time(2, 2022), (Some(3600), None));
    assert_eq!(m.completion_time(5, 2022), (Some(60), Some(DAY - 60)));
    assert_eq!(m.total_completion_time(2022), Some(3600 + DAY));
    let times = m.completion_times(2022);
    assert_eq!(times, vec![(2, Some(3600), None), (5, Some(60), Some(DAY - 60))]);
    let counts = m.day_star_counts(2022);
    assert_eq!(counts.len(), 25);
    assert_eq!(counts[1], 1);
    assert_eq!(counts[4], 2);
    assert_eq!(counts[0], 0);
}

#[test]
fn completion_duration_from_a_date() {
    let c = star(DEC1_2022 + 42);
    assert_eq!(c.duration(CivilDate { year: 2022, month: 12, day: 1 }), Some(42));
    assert_eq!(c.duration(CivilDate { year: 2022, month: 12, day: 40 }), None);
    assert_eq!(c.completion_time(), DEC1_2022 + 42);
}

#[test]
fn glyph_strip_and_duplicate_days() {
    let m = member(vec![
        DayProgress { day: 2, part1: Some(star(DEC1_2022 + DAY + 3600)), part2: None },
        DayProgress {
            day: 5,
            part1: Some(star(DEC1_2022 + 4 * DAY + 60)),
            part2: Some(star(DEC1_2022 + 5 * DAY)),
        },
    ]);
    assert!(m.is_well_formed());
    assert_eq!(m.day_glyphs(2022), "-+--*--------------------");
    let twice = member(vec![
        DayProgress { day: 2, part1: None, part2: None },
        DayProgress { day: 2, part1: None, part2: None },
    ]);
    assert!(!twice.is_well_formed());
    let far = member(vec![DayProgress { day: 1, part1: Some(star(9_000_000_000_000)), part2: None }]);
    assert!(!far.is_well_formed());
}
