//! Orders leaderboard participants under a selectable sort key. Every ordering
//! is lexicographic over up to three slots, each ascending, with a missing value
//! after every present one.

use vstd::prelude::*;

use crate::standings::{
    any_completed, day_durations, durations_on, in_i64, or_zero, total_spec, Member,
};
use crate::time::{valid_date, MAX_YEAR, MIN_YEAR};
use crate::text::str_eq;

verus! {

/// One component of a sort key: a value, or nothing (which sorts last).
#[derive(Clone, Copy, Debug, PartialEq, Eq, Structural)]
pub struct SortSlot {
    pub missing: bool,
    pub value: i64,
}

/// A key compared slot by slot.
#[derive(Clone, Copy, Debug, PartialEq, Eq, Structural)]
pub struct RankKey {
    pub first: SortSlot,
    pub second: SortSlot,
    pub third: SortSlot,
}

/// The orderings of the overall table.
#[derive(Clone, Copy, Debug, PartialEq, Eq, Structural)]
pub enum SortKey {
    Local,
    Global,
    Stars,
    Time,
}

/// The orderings of the table of one day.
#[derive(Clone, Copy, Debug, PartialEq, Eq, Structural)]
pub enum DaySortKey {
    Part1,
    Part2,
    Total,
}

pub open spec fn slot_lt(a: SortSlot, b: SortSlot) -> bool {
    (!a.missing && b.missing) || (!a.missing && !b.missing && a.value < b.value)
}

pub open spec fn slot_eq(a: SortSlot, b: SortSlot) -> bool {
    (a.missing && b.missing) || (!a.missing && !b.missing && a.value == b.value)
}

/// `a` ranks strictly above `b`.
pub open spec fn key_lt(a: RankKey, b: RankKey) -> bool {
    slot_lt(a.first, b.first) || (slot_eq(a.first, b.first) && (slot_lt(a.second, b.second) || (
    slot_eq(a.second, b.second) && slot_lt(a.third, b.third))))
}

/// `order` lists every index of `keys` once, and no entry ranks strictly above
/// one listed before it.
pub open spec fn is_ranking(order: Seq<usize>, keys: Seq<RankKey>) -> bool {
    &&& order.len() == keys.len()
    &&& order.no_duplicates()
    &&& forall|k: int| 0 <= k < order.len() ==> (#[trigger] order[k]) < keys.len()
    &&& sorted_by(order, keys)
}

pub open spec fn sorted_by(order: Seq<usize>, keys: Seq<RankKey>) -> bool {
    forall|a: int, b: int|
        0 <= a < b < order.len() ==> !key_lt(#[trigger] keys[order[b] as int], #[trigger] keys[order[a] as int])
}

pub open spec fn present(v: int) -> SortSlot {
    SortSlot { missing: false, value: v as i64 }
}

pub open spec fn absent() -> SortSlot {
    SortSlot { missing: true, value: 0 }
}

pub open spec fn opt_slot(o: Option<int>) -> SortSlot {
    match o {
        Some(v) => present(v),
        None => absent(),
    }
}

/// The total time of a participant as a sort slot: missing without any counted
/// star.
pub open spec fn time_slot(m: Member, year: int) -> SortSlot {
    if any_completed(m.completion_day_level@, year) && in_i64(total_spec(m.completion_day_level@, year)) {
        present(total_spec(m.completion_day_level@, year))
    } else {
        absent()
    }
}

/// The key of a participant in the overall table: scores descending, then the
/// total time ascending.
pub open spec fn member_key(m: Member, year: int, key: SortKey) -> RankKey {
    match key {
        SortKey::Local => RankKey { first: present(-m.local_score), second: time_slot(m, year), third: absent() },
        SortKey::Global => RankKey {
            first: present(-m.global_score),
            second: present(-m.local_score),
            third: time_slot(m, year),
        },
        SortKey::Stars => RankKey {
            first: present(-m.stars),
            second: present(-m.local_score),
            third: time_slot(m, year),
        },
        SortKey::Time => RankKey { first: time_slot(m, year), second: absent(), third: absent() },
    }
}

/// The part-one time plus the part-two time (zero when missing); nothing
/// without part one.
pub open spec fn day_total(d: (Option<int>, Option<int>)) -> Option<int> {
    match d.0 {
        Some(a) => Some(a + or_zero(d.1)),
        None => None,
    }
}

/// The key of a participant in the table of `day`.
pub open spec fn day_key(m: Member, year: int, day: u32, key: DaySortKey) -> RankKey {
    let d = durations_on(m.completion_day_level@, day, year);
    match key {
        DaySortKey::Part1 => RankKey { first: opt_slot(d.0), second: opt_slot(d.1), third: absent() },
        DaySortKey::Part2 => RankKey { first: opt_slot(d.1), second: opt_slot(d.0), third: absent() },
        DaySortKey::Total => RankKey { first: opt_slot(day_total(d)), second: absent(), third: absent() },
    }
}

pub open spec fn member_keys(members: Seq<Member>, year: int, key: SortKey) -> Seq<RankKey> {
    members.map_values(|m: Member| member_key(m, year, key))
}

pub open spec fn day_keys(members: Seq<Member>, year: int, day: u32, key: DaySortKey) -> Seq<RankKey> {
    members.map_values(|m: Member| day_key(m, year, day, key))
}

pub open spec fn members_wf(members: Seq<Member>) -> bool {
    forall|i: int| 0 <= i < members.len() ==> (#[trigger] members[i]).wf()
}

proof fn lemma_key_lt_order(a: RankKey, b: RankKey, c: RankKey)
    ensures
        key_lt(a, b) ==> !key_lt(b, a),
        key_lt(a, b) && key_lt(b, c) ==> key_lt(a, c),
{
}

/// In the time ordering a participant without any counted star comes after
/// every participant with one, whatever the scores.
pub proof fn lemma_time_ranking_unfinished_last(
    members: Seq<Member>,
    year: int,
    order: Seq<usize>,
    a: int,
    b: int,
)
    requires
        members_wf(members),
        is_ranking(order, member_keys(members, year, SortKey::Time)),
        0 <= a < order.len(),
        0 <= b < order.len(),
        !any_completed(members[order[a] as int].completion_day_level@, year),
        any_completed(members[order[b] as int].completion_day_level@, year),
    ensures
        b < a,
{
    let mb = members[order[b] as int];
    assert(mb.wf());
    crate::standings::lemma_total_bounded(mb.completion_day_level@, year);
    let keys = member_keys(members, year, SortKey::Time);
    assert(key_lt(keys[order[b] as int], keys[order[a] as int]));
    if a < b {
        assert(!key_lt(keys[order[b] as int], keys[order[a] as int]));
    }
}

/// In the time ordering a participant without any star comes after every
/// participant with a part-one star on a contest day, whatever the scores,
/// in every year of the calendar's range.
pub proof fn lemma_time_ranking_starless_last(
    members: Seq<Member>,
    year: int,
    order: Seq<usize>,
    a: int,
    b: int,
    day_index: int,
)
    requires
        members_wf(members),
        is_ranking(order, member_keys(members, year, SortKey::Time)),
        MIN_YEAR <= year <= MAX_YEAR,
        0 <= a < order.len(),
        0 <= b < order.len(),
        forall|i: int| 0 <= i < members[order[a] as int].completion_day_level@.len() ==> (#[trigger] members[order[a] as int].completion_day_level@[i]).part1.is_none()
            && members[order[a] as int].completion_day_level@[i].part2.is_none(),
        0 <= day_index < members[order[b] as int].completion_day_level@.len(),
        members[order[b] as int].completion_day_level@[day_index].part1.is_some(),
        1 <= members[order[b] as int].completion_day_level@[day_index].day <= 25,
    ensures
        b < a,
{
    let sa = members[order[a] as int].completion_day_level@;
    let sb = members[order[b] as int].completion_day_level@;
    assert(valid_date(year, 12, sb[day_index].day as int));
    assert(day_durations(sb[day_index], year).0.is_some());
    assert(any_completed(sb, year));
    assert(!any_completed(sa, year)) by {
        assert forall|i: int| 0 <= i < sa.len() implies !(#[trigger] day_durations(sa[i], year)).0.is_some() by {
            assert(sa[i].part1.is_none());
        }
    }
    lemma_time_ranking_unfinished_last(members, year, order, a, b);
}

fn slot_less(a: SortSlot, b: SortSlot) -> (r: bool)
    ensures
        r == slot_lt(a, b),
{
    (!a.missing && b.missing) || (!a.missing && !b.missing && a.value < b.value)
}

fn slot_same(a: SortSlot, b: SortSlot) -> (r: bool)
    ensures
        r == slot_eq(a, b),
{
    (a.missing && b.missing) || (!a.missing && !b.missing && a.value == b.value)
}

/// Whether `a` ranks strictly above `b`.
pub fn key_less(a: &RankKey, b: &RankKey) -> (r: bool)
    ensures
        r == key_lt(*a, *b),
{
    slot_less(a.first, b.first) || (slot_same(a.first, b.first) && (slot_less(a.second, b.second) || (
    slot_same(a.second, b.second) && slot_less(a.third, b.third))))
}

/// Orders the indices of `keys` so that no entry ranks strictly above one
/// listed before it.
pub fn rank_keys(keys: &Vec<RankKey>) -> (r: Vec<usize>)
    ensures
        is_ranking(r@, keys@),
{
    let mut order: Vec<usize> = Vec::new();
    let mut i: usize = 0;
    while i < keys.len()
        invariant
            0 <= i <= keys.len(),
            order@.len() == i,
            order@.no_duplicates(),
            forall|k: int| 0 <= k < order@.len() ==> (#[trigger] order@[k]) < i,
            sorted_by(order@, keys@),
        decreases keys.len() - i,
    {
        let mut p: usize = 0;
        while p < order.len() && !key_less(&keys[i], &keys[order[p]])
            invariant
                0 <= i < keys.len(),
                0 <= p <= order@.len(),
                order@.len() == i,
                forall|k: int| 0 <= k < order@.len() ==> (#[trigger] order@[k]) < i,
                forall|k: int| 0 <= k < p ==> !key_lt(keys@[i as int], #[trigger] keys@[order@[k] as int]),
            decreases order@.len() - p,
        {
            p += 1;
        }
        let ghost old_order = order@;
        let ghost x = keys@[i as int];
        order.insert(p, i);
        proof {
            assert(order@ == old_order.insert(p as int, i));
            assert forall|a: int, b: int| 0 <= a < b < order@.len() implies !key_lt(
                #[trigger] keys@[order@[b] as int],
                #[trigger] keys@[order@[a] as int],
            ) by {
                if a == p && b > p {
                    let y = keys@[old_order[b - 1] as int];
                    let z = keys@[old_order[p as int] as int];
                    assert(key_lt(x, z));
                    lemma_key_lt_order(y, x, z);
                    if b - 1 > p {
                        assert(!key_lt(y, z));
                    }
                }
            }
            assert forall|k: int| 0 <= k < order@.len() implies (#[trigger] order@[k]) < i + 1 by {
                if k > p {
                    assert(order@[k] == old_order[k - 1]);
                }
            }
            assert(order@.no_duplicates()) by {
                assert forall|a: int, b: int| 0 <= a < b < order@.len() implies order@[a] != order@[b] by {
                    if a == p {
                        assert(order@[b] == old_order[b - 1]);
                    } else if b == p {
                        assert(order@[a] == old_order[a]);
                    }
                }
            }
        }
        i += 1;
    }
    order
}

impl SortKey {
    /// Reads a sort key: "global", "stars" and "time" name theirs, anything
    /// else is the local score.
    pub fn parse(s: &str) -> (r: SortKey)
        ensures
            r == (if s@ == "global"@ {
                SortKey::Global
            } else if s@ == "stars"@ {
                SortKey::Stars
            } else if s@ == "time"@ {
                SortKey::Time
            } else {
                SortKey::Local
            }),
    {
        if str_eq(s, "global") {
            SortKey::Global
        } else if str_eq(s, "stars") {
            SortKey::Stars
        } else if str_eq(s, "time") {
            SortKey::Time
        } else {
            SortKey::Local
        }
    }
}

impl DaySortKey {
    /// Reads a day sort key: "part1" and "part2" name theirs, anything else is
    /// the total.
    pub fn parse(s: &str) -> (r: DaySortKey)
        ensures
            r == (if s@ == "part1"@ {
                DaySortKey::Part1
            } else if s@ == "part2"@ {
                DaySortKey::Part2
            } else {
                DaySortKey::Total
            }),
    {
        if str_eq(s, "part1") {
            DaySortKey::Part1
        } else if str_eq(s, "part2") {
            DaySortKey::Part2
        } else {
            DaySortKey::Total
        }
    }
}

fn score_slot(score: i32) -> (r: SortSlot)
    ensures
        r == present(-score),
{
    SortSlot { missing: false, value: -(score as i64) }
}

fn option_slot(o: Option<i64>) -> (r: SortSlot)
    ensures
        r == opt_slot(crate::standings::widen(o)),
{
    match o {
        Some(v) => SortSlot { missing: false, value: v },
        None => SortSlot { missing: true, value: 0 },
    }
}

/// The key of `m` in the overall table.
pub fn member_rank_key(m: &Member, year: i32, key: SortKey) -> (r: RankKey)
    requires
        m.wf(),
    ensures
        r == member_key(*m, year as int, key),
{
    let time = if m.completed_any(year) {
        match m.total_completion_time(year) {
            Some(t) => SortSlot { missing: false, value: t },
            None => SortSlot { missing: true, value: 0 },
        }
    } else {
        SortSlot { missing: true, value: 0 }
    };
    let none = SortSlot { missing: true, value: 0 };
    match key {
        SortKey::Local => RankKey { first: score_slot(m.local_score), second: time, third: none },
        SortKey::Global => RankKey {
            first: score_slot(m.global_score),
            second: score_slot(m.local_score),
            third: time,
        },
        SortKey::Stars => RankKey {
            first: score_slot(m.stars),
            second: score_slot(m.local_score),
            third: time,
        },
        SortKey::Time => RankKey { first: time, second: none, third: none },
    }
}

/// The key of `m` in the table of `day`.
pub fn day_rank_key(m: &Member, year: i32, day: u32, key: DaySortKey) -> (r: RankKey)
    requires
        m.wf(),
    ensures
        r == day_key(*m, year as int, day, key),
{
    let (a, b) = m.completion_time(day, year);
    proof {
        crate::standings::lemma_durations_on_bounded(m.completion_day_level@, day, year as int);
    }
    let total = match a {
        Some(x) => Some(
            x + match b {
                Some(y) => y,
                None => 0,
            },
        ),
        None => None,
    };
    let none = SortSlot { missing: true, value: 0 };
    match key {
        DaySortKey::Part1 => RankKey { first: option_slot(a), second: option_slot(b), third: none },
        DaySortKey::Part2 => RankKey { first: option_slot(b), second: option_slot(a), third: none },
        DaySortKey::Total => RankKey { first: option_slot(total), second: none, third: none },
    }
}

/// Ranks the participants of the overall table: the result lists the indices
/// of `members` from the top.
pub fn rank_members(members: &Vec<Member>, year: i32, key: SortKey) -> (r: Vec<usize>)
    requires
        members_wf(members@),
    ensures
        is_ranking(r@, member_keys(members@, year as int, key)),
{
    let mut keys: Vec<RankKey> = Vec::new();
    let mut i: usize = 0;
    while i < members.len()
        invariant
            members_wf(members@),
            0 <= i <= members.len(),
            keys@.len() == i,
            forall|k: int| 0 <= k < i ==> #[trigger] keys@[k] == member_key(members@[k], year as int, key),
        decreases members.len() - i,
    {
        keys.push(member_rank_key(&members[i], year, key));
        i += 1;
    }
    assert(keys@ =~= member_keys(members@, year as int, key));
    rank_keys(&keys)
}

/// Ranks the participants of the table of `day`: the result lists the indices
/// of `members` from the top.
pub fn rank_day(members: &Vec<Member>, year: i32, day: u32, key: DaySortKey) -> (r: Vec<usize>)
    requires
        members_wf(members@),
    ensures
        is_ranking(r@, day_keys(members@, year as int, day, key)),
{
    let mut keys: Vec<RankKey> = Vec::new();
    let mut i: usize = 0;
    while i < members.len()
        invariant
            members_wf(members@),
            0 <= i <= members.len(),
            keys@.len() == i,
            forall|k: int| 0 <= k < i ==> #[trigger] keys@[k] == day_key(members@[k], year as int, day, key),
        decreases members.len() - i,
    {
        keys.push(day_rank_key(&members[i], year, day, key));
        i += 1;
    }
    assert(keys@ =~= day_keys(members@, year as int, day, key));
    rank_keys(&keys)
}

} // verus!
