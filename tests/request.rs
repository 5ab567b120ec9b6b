use aocgem::cgi::{OkResponse, ResponseCode};
use aocgem::display::{average_seconds, clock_parts};
use aocgem::nav::{leaderboard, leaderboard_select, login, login_request, year_select};
use aocgem::query::Query;
use aocgem::request::{
    adjacent_days, confirm_publish, extract_session, is_contest_day, session_from_capture, Confirmation,
};

#[test]
fn session_is_taken_from_between_quotes() {
    assert_eq!(extract_session("session:\"abc123\""), "abc123");
    assert_eq!(extract_session("plainsession"), "plainsession");
    assert_eq!(extract_session("a\"b\"c\"d"), "b\"c");
    assert_eq!(session_from_capture("x", Some("y".to_string())), "y");
    assert_eq!(session_from_capture("x", None), "x");
}

#[test]
fn publish_needs_a_yes_in_any_case() {
    assert_eq!(confirm_publish(""), Confirmation::Ask);
    assert_eq!(confirm_publish("YES"), Confirmation::Confirmed);
    assert_eq!(confirm_publish("Yes"), Confirmation::Confirmed);
    assert_eq!(confirm_publish("no"), Confirmation::Declined);
    assert_eq!(confirm_publish("yess"), Confirmation::Declined);
}

#[test]
fn neighbouring_days() {
    assert_eq!(adjacent_days(1), vec![2]);
    assert_eq!(adjacent_days(25), vec![24]);
    assert_eq!(adjacent_days(7), vec![6, 8]);
    assert!(is_contest_day(1));
    assert!(is_contest_day(25));
    assert!(!is_contest_day(0));
    assert!(!is_contest_day(26));
}

#[test]
fn clock_fields_wrap_at_sixty() {
    assert_eq!(clock_parts(3 * 3600 + 25 * 60 + 7), (3, 25, 7));
    assert_eq!(clock_parts(61 * 3600), (1, 0, 0));
    assert_eq!(clock_parts(59), (0, 0, 59));
    assert_eq!(average_seconds(100, 0), 100);
    assert_eq!(average_seconds(100, 3), 33);
}

#[test]
fn navigation_pages() {
    let r = login();
    assert_eq!(r.status_code(), 20);
    assert!(r.body().contains("=> login Enter your session key"));

    assert_eq!(login_request("", "/cgi").code, ResponseCode::Input);
    assert_eq!(login_request("abc", "/cgi").meta(), "/cgi/abc/");

    assert_eq!(year_select("", "/cgi", "/abc/").code, ResponseCode::Input);
    assert_eq!(year_select("2022", "/cgi", "/abc/").meta(), "/cgi/abc/2022/");

    let page = leaderboard("/abc/2021/");
    assert!(page.body().contains("https://adventofcode.com/2021/leaderboard/private/view/123456"));

    assert_eq!(leaderboard_select("", "/cgi", "/abc/2021/leaderboard").code, ResponseCode::Input);
    assert_eq!(leaderboard_select("99", "/cgi", "/abc/2021/leaderboard").meta(), "/cgi/abc/2021/99/");
}

#[test]
fn results_turn_into_responses() {
    let ok: Result<i32, String> = Ok(4);
    assert_eq!(ok.ok_or_response(aocgem::cgi::Response::not_found()).unwrap(), 4);
    let failed: Result<i32, String> = Err("boom".to_string());
    let e = failed.ok_or_response(aocgem::cgi::Response::not_found()).unwrap_err();
    assert_eq!(e.text(), "boom");
    assert_eq!(e.into_response().status_code(), 51);
    let failed: Result<i32, String> = Err("late".to_string());
    let e = failed.ok_else_response(aocgem::cgi::Response::bad_request).unwrap_err();
    assert_eq!(e.get_response().unwrap().status_code(), 59);
}

#[test]
fn values_change_in_place() {
    let mut query = Query::parse("s=local&s=time&x").unwrap();
    *query.get_value_mut("s").unwrap() = "stars".to_string();
    assert_eq!(query.get_values("s").unwrap(), &vec!["stars", "time"]);
    query.get_values_mut("s").unwrap().push("more".to_string());
    assert_eq!(query.get_values("s").unwrap().len(), 3);
    *query.get_mut(0).unwrap() = "y".to_string();
    assert_eq!(query.first().unwrap(), "y");
    assert!(query.get_mut(1).is_none());
    assert!(query.get_value_mut("nothing").is_none());
}
