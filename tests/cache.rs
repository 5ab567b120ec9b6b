use aocgem::cache::{contest_phase, get_age, CachePolicy, CacheStep, ClockError, ContestPhase};
use aocgem::time::RefTime;

fn at(month: u32, day: u32, seconds: u32) -> RefTime {
    RefTime { year: 2022, month, day, seconds }
}

#[test]
fn active_contest_uses_the_quarter_hour_bound() {
    let policy = CachePolicy::new();
    let now = at(12, 10, 12 * 3600);
    assert_eq!(policy.step(&now, 2022, 1000), CacheStep::Fetch);
    assert_eq!(policy.step(&now, 2022, 500), CacheStep::Reuse);
}

#[test]
fn plan_reads_the_clock_first() {
    let policy = CachePolicy::new();
    // Dec 10 12:00 on the contest clock.
    assert_eq!(policy.plan(1670691600, 2022, 1000), Ok(CacheStep::Fetch));
    assert_eq!(policy.plan(1670691600, 2022, 500), Ok(CacheStep::Reuse));
    assert_eq!(policy.plan(i64::MAX, 2022, 5), Err(ClockError::OutOfRange));
}

#[test]
fn phases_of_the_calendar() {
    assert_eq!(contest_phase(&at(12, 10, 1800), 2022), ContestPhase::Burst);
    assert_eq!(contest_phase(&at(12, 10, 3600), 2022), ContestPhase::Burst);
    assert_eq!(contest_phase(&at(12, 10, 3601), 2022), ContestPhase::Active);
    assert_eq!(contest_phase(&at(12, 26, 100), 2022), ContestPhase::Idle);
    assert_eq!(contest_phase(&at(11, 30, 100), 2022), ContestPhase::Idle);
    assert_eq!(contest_phase(&at(12, 10, 100), 2021), ContestPhase::Idle);
}

#[test]
fn burst_and_idle_bounds() {
    let policy = CachePolicy::new();
    assert_eq!(policy.step(&at(12, 1, 10), 2022, 60), CacheStep::Reuse);
    assert_eq!(policy.step(&at(12, 1, 10), 2022, 61), CacheStep::Fetch);
    assert_eq!(policy.step(&at(1, 5, 10), 2022, 3600), CacheStep::Reuse);
    assert_eq!(policy.step(&at(1, 5, 10), 2022, 3601), CacheStep::Fetch);
    let strict = CachePolicy::bypassing_burst();
    assert_eq!(strict.step(&at(12, 1, 10), 2022, 0), CacheStep::Fetch);
    assert_eq!(strict.step(&at(12, 1, 7200), 2022, 60), CacheStep::Reuse);
    assert_eq!(strict.max_age(ContestPhase::Burst), None);
}

#[test]
fn missing_entries_are_always_stale() {
    let age = get_age(None, 1000).unwrap();
    assert_eq!(age, u64::MAX);
    assert_eq!(CachePolicy::new().step(&at(3, 3, 3), 2022, age), CacheStep::Fetch);
    assert_eq!(get_age(Some(400), 1000), Ok(600));
    assert_eq!(get_age(Some(1001), 1000), Err(ClockError::BeforeLastWrite));
}
