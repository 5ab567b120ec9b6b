//! A fetched leaderboard and the completion facts of each participant, with the
//! durations derived from them on the contest clock.

use vstd::prelude::*;

use crate::time::{est_midnight, midnight_spec, valid_date, CivilDate, MAX_STAMP};

verus! {

/// One scored star: the instant it was awarded.
#[derive(Clone, Copy, Debug, PartialEq, Eq, Structural)]
pub struct Completion {
    pub get_star_ts: i64,
    pub star_index: i32,
}

/// The stars of one participant on one day of the contest.
#[derive(Clone, Copy, Debug, PartialEq, Eq, Structural)]
pub struct DayProgress {
    pub day: u32,
    pub part1: Option<Completion>,
    pub part2: Option<Completion>,
}

/// One leaderboard entrant.
#[derive(Clone, Debug)]
pub struct Member {
    pub id: i32,
    pub name: String,
    pub global_score: i32,
    pub last_star_ts: i64,
    pub local_score: i32,
    pub stars: i32,
    pub completion_day_level: Vec<DayProgress>,
}

/// One fetched leaderboard snapshot.
#[derive(Clone, Debug)]
pub struct Leaderboard {
    pub event: String,
    pub owner_id: i32,
    pub members: Vec<Member>,
}

pub open spec fn stamp_ok(c: Completion) -> bool {
    -MAX_STAMP <= c.get_star_ts <= MAX_STAMP
}

pub open spec fn progress_wf(p: DayProgress) -> bool {
    (p.part1.is_some() ==> stamp_ok(p.part1.unwrap()))
    && (p.part2.is_some() ==> stamp_ok(p.part2.unwrap()))
}

pub open spec fn widen(o: Option<i64>) -> Option<int> {
    match o {
        Some(x) => Some(x as int),
        None => None,
    }
}

pub open spec fn or_zero(o: Option<int>) -> int {
    match o {
        Some(x) => x,
        None => 0,
    }
}

/// The two durations of one day: part one measured from that day's midnight on
/// the contest clock, part two from the part-one star. Nothing without a
/// part-one star, or on a day that December of `year` lacks.
pub open spec fn day_durations(p: DayProgress, year: int) -> (Option<int>, Option<int>) {
    if !valid_date(year, 12, p.day as int) {
        (None, None)
    } else {
        match p.part1 {
            None => (None, None),
            Some(a) => (
                Some(a.get_star_ts - midnight_spec(year, 12, p.day as int)),
                match p.part2 {
                    Some(b) => Some(b.get_star_ts - a.get_star_ts),
                    None => None,
                },
            ),
        }
    }
}

/// No two records name the same day.
pub open spec fn days_distinct(s: Seq<DayProgress>) -> bool {
    forall|i: int, j: int| 0 <= i < s.len() && 0 <= j < s.len() && i != j ==> (#[trigger] s[i]).day != (#[trigger] s[j]).day
}

/// The record kept for `day`: the first one in `s` that names it.
pub open spec fn day_record(s: Seq<DayProgress>, day: u32) -> Option<DayProgress>
    decreases s.len(),
{
    if s.len() == 0 {
        None
    } else if s[0].day == day {
        Some(s[0])
    } else {
        day_record(s.drop_first(), day)
    }
}

/// The durations recorded for `day`.
pub open spec fn durations_on(s: Seq<DayProgress>, day: u32, year: int) -> (Option<int>, Option<int>) {
    match day_record(s, day) {
        Some(p) => day_durations(p, year),
        None => (None, None),
    }
}

/// What one day adds to the total.
pub open spec fn day_contribution(p: DayProgress, year: int) -> int {
    or_zero(day_durations(p, year).0) + or_zero(day_durations(p, year).1)
}

/// The sum of every present duration over the records.
pub open spec fn total_spec(s: Seq<DayProgress>, year: int) -> int
    decreases s.len(),
{
    if s.len() == 0 {
        0
    } else {
        total_spec(s.drop_last(), year) + day_contribution(s.last(), year)
    }
}

/// Whether some record holds a counted part-one star.
pub open spec fn any_completed(s: Seq<DayProgress>, year: int) -> bool {
    exists|i: int| 0 <= i < s.len() && (#[trigger] day_durations(s[i], year)).0.is_some()
}

/// The number of stars shown for a day: one per present duration.
pub open spec fn star_count_of(d: (Option<int>, Option<int>)) -> int {
    (if d.0.is_some() { 1int } else { 0int }) + (if d.1.is_some() { 1int } else { 0int })
}

/// The glyph of a day in the overview strip: `-` unattempted, `+` part one
/// only, `*` both parts.
pub open spec fn glyph_of(stars: int) -> char {
    if stars == 1 {
        '+'
    } else if stars == 2 {
        '*'
    } else {
        '-'
    }
}

pub open spec fn in_i64(x: int) -> bool {
    i64::MIN <= x <= i64::MAX
}

/// Under the stamp bound the durations of a day stay well inside `i64`.
pub proof fn lemma_day_durations_bounded(p: DayProgress, year: int)
    requires
        progress_wf(p),
    ensures
        day_durations(p, year).0.is_some() ==> -0x8000_0000_0000 <= day_durations(p, year).0.unwrap() <= 0x8000_0000_0000,
        day_durations(p, year).1.is_some() ==> -0x8000_0000_0000 <= day_durations(p, year).1.unwrap() <= 0x8000_0000_0000,
        -0x1_0000_0000_0000 <= day_contribution(p, year) <= 0x1_0000_0000_0000,
{
    if valid_date(year, 12, p.day as int) {
        crate::time::lemma_days_from_civil_bounded(year, 12, p.day as int);
    }
}

/// Under the stamp bound the durations recorded for a day stay well inside `i64`.
pub proof fn lemma_durations_on_bounded(s: Seq<DayProgress>, day: u32, year: int)
    requires
        forall|i: int| 0 <= i < s.len() ==> progress_wf(#[trigger] s[i]),
    ensures
        durations_on(s, day, year).0.is_some() ==> -0x8000_0000_0000 <= durations_on(s, day, year).0.unwrap() <= 0x8000_0000_0000,
        durations_on(s, day, year).1.is_some() ==> -0x8000_0000_0000 <= durations_on(s, day, year).1.unwrap() <= 0x8000_0000_0000,
    decreases s.len(),
{
    if s.len() > 0 {
        if s[0].day == day {
            lemma_day_durations_bounded(s[0], year);
        } else {
            assert forall|i: int| 0 <= i < s.drop_first().len() implies progress_wf(#[trigger] s.drop_first()[i]) by {
                assert(s.drop_first()[i] == s[i + 1]);
            }
            lemma_durations_on_bounded(s.drop_first(), day, year);
        }
    }
}

/// The total of well-formed records is at most `len` times a per-day bound.
pub proof fn lemma_total_bounded(s: Seq<DayProgress>, year: int)
    requires
        forall|i: int| 0 <= i < s.len() ==> progress_wf(#[trigger] s[i]),
    ensures
        -(s.len() as int) * 0x1_0000_0000_0000 <= total_spec(s, year) <= (s.len() as int) * 0x1_0000_0000_0000,
    decreases s.len(),
{
    if s.len() > 0 {
        let t = s.drop_last();
        assert forall|i: int| 0 <= i < t.len() implies progress_wf(#[trigger] t[i]) by {
            assert(t[i] == s[i]);
        }
        lemma_total_bounded(t, year);
        lemma_day_durations_bounded(s.last(), year);
    }
}

/// A day without a part-one star has no durations, whatever the year.
pub proof fn lemma_no_star_no_duration(s: Seq<DayProgress>, day: u32, year: int)
    requires
        day_record(s, day).is_none() || day_record(s, day).unwrap().part1.is_none(),
    ensures
        durations_on(s, day, year) == (None::<int>, None::<int>),
{
}

impl Completion {
    /// The instant the star was awarded.
    pub fn completion_time(&self) -> (r: i64)
        ensures
            r == self.get_star_ts,
    {
        self.get_star_ts
    }

    /// Time from the contest-clock midnight of `start_date` to this star;
    /// `None` when `start_date` is no calendar date.
    pub fn duration(&self, start_date: CivilDate) -> (r: Option<i64>)
        requires
            stamp_ok(*self),
        ensures
            r.is_some() == valid_date(start_date.year as int, start_date.month as int, start_date.day as int),
            r.is_some() ==> r.unwrap() == self.get_star_ts - midnight_spec(
                start_date.year as int,
                start_date.month as int,
                start_date.day as int,
            ),
    {
        match est_midnight(start_date) {
            Some(midnight) => {
                proof {
                    crate::time::lemma_days_from_civil_bounded(
                        start_date.year as int,
                        start_date.month as int,
                        start_date.day as int,
                    );
                }
                Some(self.completion_time() - midnight)
            },
            None => None,
        }
    }
}

impl Member {
    /// At most one record per contest day, each within the stamp bound.
    pub open spec fn wf(&self) -> bool {
        &&& self.completion_day_level@.len() <= 25
        &&& forall|i: int| 0 <= i < self.completion_day_level@.len()
            ==> progress_wf(#[trigger] self.completion_day_level@[i])
        &&& days_distinct(self.completion_day_level@)
    }

    fn calc_completion_time(year: i32, day: u32, completion: &DayProgress) -> (r: (Option<i64>, Option<i64>))
        requires
            progress_wf(*completion),
            completion.day == day,
        ensures
            (widen(r.0), widen(r.1)) == day_durations(*completion, year as int),
    {
        let start_date = CivilDate { year, month: 12, day };
        match completion.part1 {
            Some(a) => {
                match a.duration(start_date) {
                    Some(x) => {
                        let y = match completion.part2 {
                            Some(b) => Some(b.completion_time() - a.completion_time()),
                            None => None,
                        };
                        (Some(x), y)
                    },
                    None => (None, None),
                }
            },
            None => (None, None),
        }
    }

    /// The two durations of `day` in contest `year`.
    pub fn completion_time(&self, day: u32, year: i32) -> (r: (Option<i64>, Option<i64>))
        requires
            self.wf(),
        ensures
            (widen(r.0), widen(r.1)) == durations_on(self.completion_day_level@, day, year as int),
    {
        let days = &self.completion_day_level;
        let mut i: usize = 0;
        assert(days@.subrange(0, days@.len() as int) =~= days@);
        while i < days.len()
            invariant
                self.wf(),
                days == &self.completion_day_level,
                0 <= i <= days.len(),
                day_record(days@, day) == day_record(days@.subrange(i as int, days@.len() as int), day),
            decreases days.len() - i,
        {
            let ghost rest = days@.subrange(i as int, days@.len() as int);
            assert(rest.drop_first() =~= days@.subrange(i + 1, days@.len() as int));
            if days[i].day == day {
                assert(rest[0] == days@[i as int]);
                return Self::calc_completion_time(year, day, &days[i]);
            }
            i += 1;
        }
        (None, None)
    }

    /// The durations of every recorded day, in record order.
    pub fn completion_times(&self, year: i32) -> (r: Vec<(u32, Option<i64>, Option<i64>)>)
        requires
            self.wf(),
        ensures
            r@.len() == self.completion_day_level@.len(),
            forall|i: int| 0 <= i < r@.len() ==> (#[trigger] r@[i]).0 == self.completion_day_level@[i].day
                && (widen(r@[i].1), widen(r@[i].2)) == day_durations(self.completion_day_level@[i], year as int),
    {
        let days = &self.completion_day_level;
        let mut times: Vec<(u32, Option<i64>, Option<i64>)> = Vec::new();
        let mut i: usize = 0;
        while i < days.len()
            invariant
                self.wf(),
                days == &self.completion_day_level,
                0 <= i <= days.len(),
                times@.len() == i,
                forall|k: int| 0 <= k < i ==> (#[trigger] times@[k]).0 == days@[k].day
                    && (widen(times@[k].1), widen(times@[k].2)) == day_durations(days@[k], year as int),
            decreases days.len() - i,
        {
            let (a, b) = Self::calc_completion_time(year, days[i].day, &days[i]);
            times.push((days[i].day, a, b));
            i += 1;
        }
        times
    }

    /// The sum of all present durations; `None` only when it leaves `i64`,
    /// which the bounds of a well-formed member rule out.
    pub fn total_completion_time(&self, year: i32) -> (r: Option<i64>)
        requires
            self.wf(),
        ensures
            r.is_some() == in_i64(total_spec(self.completion_day_level@, year as int)),
            r.is_some() ==> r.unwrap() == total_spec(self.completion_day_level@, year as int),
            r.is_some(),
    {
        proof {
            lemma_total_bounded(self.completion_day_level@, year as int);
        }
        let days = &self.completion_day_level;
        let mut total: i128 = 0;
        let mut i: usize = 0;
        while i < days.len()
            invariant
                self.wf(),
                days == &self.completion_day_level,
                0 <= i <= days.len(),
                total == total_spec(days@.subrange(0, i as int), year as int),
                -(i as int) * 0x1_0000_0000_0000 <= total <= (i as int) * 0x1_0000_0000_0000,
            decreases days.len() - i,
        {
            assert(days@.subrange(0, i + 1).drop_last() =~= days@.subrange(0, i as int));
            let (a, b) = Self::calc_completion_time(year, days[i].day, &days[i]);
            proof {
                if valid_date(year as int, 12, days@[i as int].day as int) {
                    crate::time::lemma_days_from_civil_bounded(year as int, 12, days@[i as int].day as int);
                }
            }
            if let Some(a) = a {
                total = total + a as i128;
            }
            if let Some(b) = b {
                total = total + b as i128;
            }
            i += 1;
        }
        assert(days@.subrange(0, days@.len() as int) =~= days@);
        if i64::MIN as i128 <= total && total <= i64::MAX as i128 {
            Some(total as i64)
        } else {
            None
        }
    }

    /// Whether the member is well formed: at most 25 day records, no day
    /// named twice, every star within the stamp bound.
    pub fn is_well_formed(&self) -> (r: bool)
        ensures
            r == self.wf(),
    {
        let days = &self.completion_day_level;
        if days.len() > 25 {
            return false;
        }
        let mut i: usize = 0;
        while i < days.len()
            invariant
                days == &self.completion_day_level,
                days@.len() <= 25,
                0 <= i <= days@.len(),
                forall|k: int| 0 <= k < i ==> progress_wf(#[trigger] days@[k]),
                forall|a: int, b: int| 0 <= a < i && 0 <= b < days@.len() && a != b
                    ==> (#[trigger] days@[a]).day != (#[trigger] days@[b]).day,
            decreases days@.len() - i,
        {
            if !(stamp_in_bounds(&days[i].part1) && stamp_in_bounds(&days[i].part2)) {
                return false;
            }
            let mut j: usize = 0;
            while j < days.len()
                invariant
                    days == &self.completion_day_level,
                    0 <= i < days@.len(),
                    0 <= j <= days@.len(),
                    forall|b: int| 0 <= b < j && b != i ==> days@[i as int].day != (#[trigger] days@[b]).day,
                decreases days@.len() - j,
            {
                if j != i && days[i].day == days[j].day {
                    return false;
                }
                j += 1;
            }
            i += 1;
        }
        true
    }

    /// Whether some day holds a counted part-one star.
    pub fn completed_any(&self, year: i32) -> (r: bool)
        requires
            self.wf(),
        ensures
            r == any_completed(self.completion_day_level@, year as int),
    {
        let days = &self.completion_day_level;
        let mut i: usize = 0;
        while i < days.len()
            invariant
                self.wf(),
                days == &self.completion_day_level,
                0 <= i <= days.len(),
                forall|k: int| 0 <= k < i ==> (#[trigger] day_durations(days@[k], year as int)).0.is_none(),
            decreases days.len() - i,
        {
            let (a, _) = Self::calc_completion_time(year, days[i].day, &days[i]);
            if a.is_some() {
                return true;
            }
            i += 1;
        }
        false
    }

    /// Stars shown per contest day 1 to 25 (0, 1 or 2), as the glyph strip of
    /// the overview uses them.
    pub fn day_star_counts(&self, year: i32) -> (r: Vec<u8>)
        requires
            self.wf(),
        ensures
            r@.len() == 25,
            forall|d: int| 0 <= d < 25 ==> (#[trigger] r@[d]) as int
                == star_count_of(durations_on(self.completion_day_level@, (d + 1) as u32, year as int)),
    {
        let mut counts: Vec<u8> = Vec::new();
        let mut day: u32 = 1;
        while day <= 25
            invariant
                self.wf(),
                1 <= day <= 26,
                counts@.len() == day - 1,
                forall|d: int| 0 <= d < day - 1 ==> (#[trigger] counts@[d]) as int
                    == star_count_of(durations_on(self.completion_day_level@, (d + 1) as u32, year as int)),
            decreases 26 - day,
        {
            let (a, b) = self.completion_time(day, year);
            let mut n: u8 = 0;
            if a.is_some() {
                n = n + 1;
            }
            if b.is_some() {
                n = n + 1;
            }
            counts.push(n);
            day += 1;
        }
        counts
    }
}

fn glyph_text(stars: u8) -> (r: &'static str)
    ensures
        r@ == seq![glyph_of(stars as int)],
{
    proof {
        reveal_strlit("+");
        reveal_strlit("*");
        reveal_strlit("-");
    }
    if stars == 1 {
        "+"
    } else if stars == 2 {
        "*"
    } else {
        "-"
    }
}

impl Member {
    /// The overview strip: one glyph per contest day 1 to 25.
    pub fn day_glyphs(&self, year: i32) -> (r: String)
        requires
            self.wf(),
        ensures
            r@.len() == 25,
            forall|d: int| 0 <= d < 25 ==> (#[trigger] r@[d]) == glyph_of(
                star_count_of(durations_on(self.completion_day_level@, (d + 1) as u32, year as int)),
            ),
    {
        let counts = self.day_star_counts(year);
        let mut strip = String::new();
        let mut i: usize = 0;
        while i < counts.len()
            invariant
                counts@.len() == 25,
                0 <= i <= 25,
                strip@.len() == i,
                forall|d: int| 0 <= d < i ==> (#[trigger] strip@[d]) == glyph_of(counts@[d] as int),
            decreases 25 - i,
        {
            let ghost before = strip@;
            strip.append(glyph_text(counts[i]));
            assert(strip@ =~= before.push(glyph_of(counts@[i as int] as int)));
            i += 1;
        }
        strip
    }
}

impl Leaderboard {
    pub open spec fn wf(&self) -> bool {
        forall|i: int| 0 <= i < self.members@.len() ==> (#[trigger] self.members@[i]).wf()
    }

    /// Whether every member is well formed: at most 25 day records, every star
    /// within the stamp bound.
    pub fn is_well_formed(&self) -> (r: bool)
        ensures
            r == self.wf(),
    {
        let mut i: usize = 0;
        while i < self.members.len()
            invariant
                0 <= i <= self.members@.len(),
                forall|k: int| 0 <= k < i ==> (#[trigger] self.members@[k]).wf(),
            decreases self.members@.len() - i,
        {
            if !self.members[i].is_well_formed() {
                return false;
            }
            i += 1;
        }
        true
    }
}

fn stamp_in_bounds(c: &Option<Completion>) -> (r: bool)
    ensures
        r == (c.is_some() ==> stamp_ok(c.unwrap())),
{
    match c {
        Some(x) => -MAX_STAMP <= x.get_star_ts && x.get_star_ts <= MAX_STAMP,
        None => true,
    }
}

} // verus!
