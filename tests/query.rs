use aocgem::cgi::{parse_query, Error, ResponseCode};
use aocgem::query::Query;

#[test]
fn test_single_item() {
    let query = Query::parse("Hello%20World").unwrap();

    assert_eq!(query.first().unwrap(), "Hello World");
}

#[test]
fn test_many_items() {
    let query = Query::parse("Hello&World").unwrap();

    assert_eq!(query.get(0).unwrap(), "Hello");
    assert_eq!(query.get(1).unwrap(), "World");
}

#[test]
fn test_single_named() {
    let query = Query::parse("Hello=World").unwrap();

    assert_eq!(query.get_value("Hello").unwrap(), "World");
}

#[test]
fn test_many_named() {
    let query = Query::parse("Hello=World&cheese=foo").unwrap();

    assert_eq!(query.get_value("Hello").unwrap(), "World");
    assert_eq!(query.get_value("cheese").unwrap(), "foo");
}

#[test]
fn test_many_names() {
    let query = Query::parse("Hello=World&Hello=foo").unwrap();

    assert_eq!(query.get_value("Hello").unwrap(), "World");
    assert_eq!(query.get_values("Hello").unwrap(), &vec!["World", "foo"]);
}

#[test]
fn test_display() {
    let mut query = Query::new();

    query.insert("Hello".into(), "cheese".into());
    query.insert("Hello".into(), "bar".into());
    query.push("Yeet".into());

    assert_eq!(query.to_string(), "Yeet&Hello=cheese&Hello=bar");
}

#[test]
fn parse_skips_empty_pieces_and_splits_at_first_equals() {
    let query = Query::parse("&a=b=c&&x&").unwrap();
    assert_eq!(query.get_value("a").unwrap(), "b=c");
    assert_eq!(query.first().unwrap(), "x");
    assert_eq!(query.get(1), None);
}

#[test]
fn parse_rejects_invalid_utf8_escape() {
    assert!(Query::parse("a=%FF").is_err());
    match parse_query("%C3") {
        Err(Error::Response(_, response)) => {
            assert_eq!(response.code, ResponseCode::BadRequest);
            assert_eq!(response.status_code(), 59);
        }
        _ => panic!("expected a bad request"),
    }
}

#[test]
fn to_string_percent_encodes() {
    let mut query = Query::new();
    query.push("a b".into());
    query.replace("k&", "v/w".into());
    assert_eq!(query.to_string(), "a%20b&k%26=v%2Fw");
}

#[test]
fn replace_keeps_a_single_value() {
    let mut query = Query::parse("s=local&s=time&c").unwrap();
    query.replace("s", "stars".into());
    assert_eq!(query.get_values("s").unwrap(), &vec!["stars"]);
    assert!(query.contains("c"));
    assert!(query.contains("s"));
    assert!(!query.contains("x"));
    assert!(query.contains_key("s"));
    assert!(!query.contains_key("c"));
}

#[test]
fn erase_takes_the_last_match() {
    let mut query = Query::parse("c&d&c").unwrap();
    assert_eq!(query.erase("c").unwrap(), "c");
    assert_eq!(query.to_string(), "c&d");
    assert_eq!(query.erase("z"), None);
}

#[test]
fn remove_takes_every_value() {
    let mut query = Query::parse("a=1&b=2&a=3").unwrap();
    assert_eq!(query.remove("a").unwrap(), vec!["1".to_string(), "3".to_string()]);
    assert_eq!(query.to_string(), "b=2");
    assert_eq!(query.remove("a"), None);
}
