use std::collections::HashSet;

use aocgem::origin::{classify_status, OriginError};
use aocgem::registry::{PublicLeaderboard, Registry, RegistryError};

fn is_token(t: &str) -> bool {
    t.len() == 16 && t.chars().all(|c| c.is_ascii_alphanumeric())
}

#[test]
fn publishing_twice_keeps_the_token() {
    let mut reg = Registry::new();
    let first = reg.publish("G1", "s1").unwrap();
    let second = reg.publish("G1", "s2").unwrap();
    assert_eq!(first, second);
    assert!(is_token(&first));
    assert_eq!(reg.records.len(), 1);
    let k = reg.resolve(&first).unwrap();
    assert_eq!(reg.records[k].session, "s2");
    assert_eq!(reg.records[k].id, "G1");
}

#[test]
fn renewing_an_unknown_token_changes_nothing() {
    let mut reg = Registry::new();
    let token = reg.publish("G1", "s1").unwrap();
    let before = reg.records.clone();
    assert_eq!(reg.renew("NoSuchToken00000", "s9"), Err(RegistryError::NotFound));
    assert_eq!(reg.records.len(), before.len());
    assert_eq!(reg.records[0].session, before[0].session);
    assert_eq!(reg.renew(&token, "s3"), Ok(()));
    assert_eq!(reg.records[0].session, "s3");
}

#[test]
fn tokens_stay_unique_over_many_publishes() {
    let mut reg = Registry::new();
    let mut seen = HashSet::new();
    for i in 0..10_000 {
        let token = reg.publish(&format!("group{i}"), "s").unwrap();
        assert!(is_token(&token));
        assert!(seen.insert(token));
    }
    assert_eq!(reg.records.len(), 10_000);
}

#[test]
fn lookups_by_group_and_token() {
    let mut reg = Registry::new();
    let a = reg.publish("A", "sa").unwrap();
    let b = reg.publish("B", "sb").unwrap();
    assert_ne!(a, b);
    assert_eq!(reg.find_pub_leaderboard(&"B".to_string()), Some(1));
    assert_eq!(reg.find_pub_leaderboard(&"C".to_string()), None);
    assert!(reg.pub_leaderboard_exists(&a));
    assert!(!reg.pub_leaderboard_exists(&"missing".to_string()));
}

#[test]
fn stored_records_with_shared_tokens_are_refused() {
    let a = PublicLeaderboard::new("tok", "A", "s");
    let b = PublicLeaderboard::new("tok", "B", "t");
    let c = PublicLeaderboard::new("other", "C", "u");
    assert!(Registry::from_records(vec![a.clone(), b]).is_none());
    assert!(Registry::from_records(vec![a, c]).is_some());
}

#[test]
fn origin_statuses() {
    assert_eq!(classify_status(200), Ok(()));
    assert_eq!(classify_status(404), Err(OriginError::NotFound));
    assert_eq!(classify_status(500), Err(OriginError::InvalidCredentials));
    assert_eq!(classify_status(302), Err(OriginError::InvalidCredentials));
    assert_eq!(OriginError::MalformedResponse.message(), "Invalid leaderboard id");
}

#[test]
fn a_drawn_token_is_used_only_when_free() {
    let mut reg = Registry::new();
    assert!(reg.publish_with_token("AAAAAAAAAAAAAAAA".to_string(), "G1", "s1"));
    assert!(!reg.publish_with_token("AAAAAAAAAAAAAAAA".to_string(), "G2", "s2"));
    assert_eq!(reg.records.len(), 1);
    assert!(reg.publish_with_token("BBBBBBBBBBBBBBBB".to_string(), "G2", "s2"));
    assert_eq!(reg.records[1].id, "G2");
    assert_eq!(reg.records[1].token, "BBBBBBBBBBBBBBBB");
    assert_eq!(reg.find_pub_leaderboard(&"G2".to_string()), Some(1));
}
