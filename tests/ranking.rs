use aocgem::ranking::{rank_day, rank_members, DaySortKey, SortKey};
use aocgem::standings::{Completion, DayProgress, Member};

const DEC1_2022: i64 = 1669870800;

fn member(name: &str, local: i32, global: i32, stars: i32, seconds: Option<i64>) -> Member {
    let days = match seconds {
        Some(s) => vec![DayProgress {
            day: 1,
            part1: Some(Completion { get_star_ts: DEC1_2022 + s, star_index: 0 }),
            part2: None,
        }],
        None => vec![],
    };
    Member {
        id: 0,
        name: name.to_string(),
        global_score: global,
        last_star_ts: 0,
        local_score: local,
        stars,
        completion_day_level: days,
    }
}

fn names(members: &[Member], order: &[usize]) -> Vec<String> {
    order.iter().map(|&i| members[i].name.clone()).collect()
}

#[test]
fn local_ranking_breaks_ties_by_time() {
    let members = vec![
        member("A", 100, 0, 1, Some(500)),
        member("B", 100, 0, 1, Some(200)),
        member("C", 50, 0, 1, Some(1)),
    ];
    let order = rank_members(&members, 2022, SortKey::Local);
    assert_eq!(names(&members, &order), vec!["B", "A", "C"]);
}

#[test]
fn time_ranking_puts_participants_without_stars_last() {
    let members = vec![
        member("none", 1000, 1000, 0, None),
        member("slow", 1, 0, 1, Some(80000)),
        member("fast", 2, 0, 1, Some(10)),
    ];
    let order = rank_members(&members, 2022, SortKey::Time);
    assert_eq!(names(&members, &order), vec!["fast", "slow", "none"]);
}

#[test]
fn global_and_stars_rankings() {
    let members = vec![
        member("a", 10, 5, 3, Some(100)),
        member("b", 20, 5, 2, Some(100)),
        member("c", 20, 9, 2, Some(50)),
        member("d", 20, 5, 2, Some(40)),
    ];
    let order = rank_members(&members, 2022, SortKey::Global);
    assert_eq!(names(&members, &order), vec!["c", "d", "b", "a"]);
    let order = rank_members(&members, 2022, SortKey::Stars);
    assert_eq!(names(&members, &order), vec!["a", "d", "c", "b"]);
}

#[test]
fn sort_keys_parse() {
    assert_eq!(SortKey::parse("global"), SortKey::Global);
    assert_eq!(SortKey::parse("stars"), SortKey::Stars);
    assert_eq!(SortKey::parse("time"), SortKey::Time);
    assert_eq!(SortKey::parse("local"), SortKey::Local);
    assert_eq!(SortKey::parse("anything"), SortKey::Local);
    assert_eq!(DaySortKey::parse("part1"), DaySortKey::Part1);
    assert_eq!(DaySortKey::parse("part2"), DaySortKey::Part2);
    assert_eq!(DaySortKey::parse("total"), DaySortKey::Total);
}

fn day_member(name: &str, p1: Option<i64>, p2: Option<i64>) -> Member {
    let mut m = member(name, 0, 0, 0, None);
    m.completion_day_level = vec![DayProgress {
        day: 3,
        part1: p1.map(|s| Completion { get_star_ts: DEC1_2022 + 2 * 86400 + s, star_index: 0 }),
        part2: p2.map(|s| Completion { get_star_ts: DEC1_2022 + 2 * 86400 + s, star_index: 0 }),
    }];
    m
}

#[test]
fn day_rankings() {
    let members = vec![
        day_member("x", Some(100), Some(1000)),
        day_member("y", Some(300), Some(400)),
        day_member("z", None, None),
        day_member("w", Some(50), None),
    ];
    let order = rank_day(&members, 2022, 3, DaySortKey::Part1);
    assert_eq!(names(&members, &order), vec!["w", "x", "y", "z"]);
    let order = rank_day(&members, 2022, 3, DaySortKey::Part2);
    assert_eq!(names(&members, &order), vec!["y", "x", "w", "z"]);
    let order = rank_day(&members, 2022, 3, DaySortKey::Total);
    assert_eq!(names(&members, &order), vec!["w", "y", "x", "z"]);
}
