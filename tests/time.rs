use aocgem::time::{est_midnight, to_reference_time, CivilDate, RefTime};

#[test]
fn december_midnights_are_a_day_apart() {
    for year in [1, 2015, 2022, 2024, 2100] {
        let mut previous = est_midnight(CivilDate { year, month: 12, day: 1 }).unwrap();
        for day in 2..=25 {
            let m = est_midnight(CivilDate { year, month: 12, day }).unwrap();
            assert_eq!(m - previous, 86400);
            previous = m;
        }
    }
}

#[test]
fn midnight_is_five_hours_after_utc_midnight() {
    assert_eq!(est_midnight(CivilDate { year: 2022, month: 12, day: 1 }), Some(1669870800));
    assert_eq!(est_midnight(CivilDate { year: 2022, month: 12, day: 26 }), Some(1672030800));
    assert_eq!(est_midnight(CivilDate { year: 1970, month: 1, day: 1 }), Some(18000));
}

#[test]
fn invalid_dates_have_no_midnight() {
    assert_eq!(est_midnight(CivilDate { year: 2022, month: 12, day: 32 }), None);
    assert_eq!(est_midnight(CivilDate { year: 2022, month: 2, day: 29 }), None);
    assert_eq!(est_midnight(CivilDate { year: 2022, month: 13, day: 1 }), None);
    assert!(est_midnight(CivilDate { year: 2024, month: 2, day: 29 }).is_some());
}

#[test]
fn reference_time_reads_the_contest_clock() {
    assert_eq!(
        to_reference_time(1670691600),
        Some(RefTime { year: 2022, month: 12, day: 10, seconds: 12 * 3600 })
    );
    assert_eq!(to_reference_time(0), Some(RefTime { year: 1969, month: 12, day: 31, seconds: 19 * 3600 }));
}

#[test]
fn readings_outside_the_bound_are_refused() {
    assert_eq!(to_reference_time(-8334601228800), None);
    assert_eq!(to_reference_time(8_000_000_000_001), None);
    assert!(to_reference_time(8_000_000_000_000).is_some());
    assert!(to_reference_time(-8_000_000_000_000).is_some());
}
