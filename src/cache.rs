//! Freshness of cached standings: how old a cached leaderboard may be before it
//! must be fetched again, by the phase of the contest calendar.

use vstd::prelude::*;

use crate::time::{ref_time_stamp, ref_time_wf, to_reference_time, RefTime, MAX_STAMP};

verus! {

/// How old a cached leaderboard may be, in seconds, in each phase of the
/// contest. No bound in the burst window means the cache is bypassed there.
#[derive(Clone, Copy, Debug, PartialEq, Eq, Structural)]
pub struct CachePolicy {
    pub burst_max_age: Option<u64>,
    pub active_max_age: u64,
    pub idle_max_age: u64,
}

/// Where the contest calendar stands for one contest year.
#[derive(Clone, Copy, Debug, PartialEq, Eq, Structural)]
pub enum ContestPhase {
    /// December 1 to 25, within the first hour after a puzzle unlocks.
    Burst,
    /// December 1 to 25, later in the day.
    Active,
    /// Any other time.
    Idle,
}

/// What to do with the cached copy.
#[derive(Clone, Copy, Debug, PartialEq, Eq, Structural)]
pub enum CacheStep {
    Reuse,
    Fetch,
}

/// The clock reads earlier than the cached file's last write, or outside the
/// calendar's range.
#[derive(Clone, Copy, Debug, PartialEq, Eq, Structural)]
pub enum ClockError {
    BeforeLastWrite,
    OutOfRange,
}

/// Length of the burst window after each unlock, in seconds.
pub const BURST_WINDOW_SECS: u32 = 3600;

pub open spec fn in_contest_days(now: RefTime, year: int) -> bool {
    now.year == year && now.month == 12 && 1 <= now.day <= 25
}

pub open spec fn phase_of(now: RefTime, year: int) -> ContestPhase {
    if in_contest_days(now, year) {
        if now.seconds <= BURST_WINDOW_SECS {
            ContestPhase::Burst
        } else {
            ContestPhase::Active
        }
    } else {
        ContestPhase::Idle
    }
}

pub open spec fn max_age_spec(policy: CachePolicy, phase: ContestPhase) -> Option<u64> {
    match phase {
        ContestPhase::Burst => policy.burst_max_age,
        ContestPhase::Active => Some(policy.active_max_age),
        ContestPhase::Idle => Some(policy.idle_max_age),
    }
}

/// A cached copy of age `age` may be reused at `now`.
pub open spec fn fresh_spec(policy: CachePolicy, now: RefTime, year: int, age: u64) -> bool {
    match max_age_spec(policy, phase_of(now, year)) {
        Some(m) => age <= m,
        None => false,
    }
}

/// The phase of contest `year` at the contest-clock reading `now`.
pub fn contest_phase(now: &RefTime, year: i32) -> (r: ContestPhase)
    ensures
        r == phase_of(*now, year as int),
{
    if now.year == year && now.month == 12 && 1 <= now.day && now.day <= 25 {
        if now.seconds <= BURST_WINDOW_SECS {
            ContestPhase::Burst
        } else {
            ContestPhase::Active
        }
    } else {
        ContestPhase::Idle
    }
}

/// Age of a cached file last written at `modified` (`None`: no file), at
/// `now`; both in seconds since the epoch. A missing file is infinitely old.
pub fn get_age(modified: Option<u64>, now: u64) -> (r: Result<u64, ClockError>)
    ensures
        modified.is_none() ==> r == Ok::<u64, ClockError>(u64::MAX),
        modified.is_some() && modified.unwrap() <= now ==> r == Ok::<u64, ClockError>((now - modified.unwrap()) as u64),
        modified.is_some() && modified.unwrap() > now ==> r == Err::<u64, ClockError>(ClockError::BeforeLastWrite),
{
    match modified {
        None => Ok(u64::MAX),
        Some(t) => {
            if t <= now {
                Ok(now - t)
            } else {
                Err(ClockError::BeforeLastWrite)
            }
        },
    }
}

impl CachePolicy {
    /// A burst window of one minute, a quarter of an hour during the contest
    /// days, an hour otherwise.
    pub fn new() -> (r: CachePolicy)
        ensures
            r == (CachePolicy { burst_max_age: Some(60), active_max_age: 900, idle_max_age: 3600 }),
    {
        CachePolicy { burst_max_age: Some(60), active_max_age: 900, idle_max_age: 3600 }
    }

    /// No cache in the burst window, one minute during the contest days, an
    /// hour otherwise.
    pub fn bypassing_burst() -> (r: CachePolicy)
        ensures
            r == (CachePolicy { burst_max_age: None, active_max_age: 60, idle_max_age: 3600 }),
    {
        CachePolicy { burst_max_age: None, active_max_age: 60, idle_max_age: 3600 }
    }

    /// The greatest age reusable in `phase`; `None` when nothing is.
    pub fn max_age(&self, phase: ContestPhase) -> (r: Option<u64>)
        ensures
            r == max_age_spec(*self, phase),
    {
        match phase {
            ContestPhase::Burst => self.burst_max_age,
            ContestPhase::Active => Some(self.active_max_age),
            ContestPhase::Idle => Some(self.idle_max_age),
        }
    }

    /// Whether a cached copy of age `age` may be reused at `now`.
    pub fn is_fresh(&self, now: &RefTime, year: i32, age: u64) -> (r: bool)
        ensures
            r == fresh_spec(*self, *now, year as int, age),
    {
        match self.max_age(contest_phase(now, year)) {
            Some(m) => age <= m,
            None => false,
        }
    }

    /// Decides, at the contest-clock reading `now`, between the cached copy of
    /// age `age` and a fetch from the origin.
    pub fn step(&self, now: &RefTime, year: i32, age: u64) -> (r: CacheStep)
        ensures
            r == (if fresh_spec(*self, *now, year as int, age) { CacheStep::Reuse } else { CacheStep::Fetch }),
    {
        if self.is_fresh(now, year, age) {
            CacheStep::Reuse
        } else {
            CacheStep::Fetch
        }
    }

    /// Decides at the instant `now` (seconds since the epoch) between the
    /// cached copy of age `age` and a fetch.
    pub fn plan(&self, now: i64, year: i32, age: u64) -> (r: Result<CacheStep, ClockError>)
        ensures
            r.is_ok() == (-MAX_STAMP <= now <= MAX_STAMP),
            r.is_ok() ==> exists|t: RefTime| ref_time_wf(t) && ref_time_stamp(t) == now
                && r == Ok::<CacheStep, ClockError>(
                    if fresh_spec(*self, t, year as int, age) { CacheStep::Reuse } else { CacheStep::Fetch },
                ),
            r.is_err() ==> r == Err::<CacheStep, ClockError>(ClockError::OutOfRange),
    {
        match to_reference_time(now) {
            Some(t) => Ok(self.step(&t, year, age)),
            None => Err(ClockError::OutOfRange),
        }
    }
}

/// A cached copy older than the active-contest bound is fetched again during
/// the contest days, and one within it is reused.
pub proof fn lemma_active_contest_refresh(policy: CachePolicy, now: RefTime, year: int, age: u64)
    requires
        in_contest_days(now, year),
        now.seconds > BURST_WINDOW_SECS,
    ensures
        fresh_spec(policy, now, year, age) == (age <= policy.active_max_age),
{
}

/// A missing cached file is never fresh.
pub proof fn lemma_missing_file_is_stale(policy: CachePolicy, now: RefTime, year: int)
    requires
        policy.burst_max_age.is_none() || policy.burst_max_age.unwrap() < u64::MAX,
        policy.active_max_age < u64::MAX,
        policy.idle_max_age < u64::MAX,
    ensures
        !fresh_spec(policy, now, year, u64::MAX),
{
}

} // verus!
