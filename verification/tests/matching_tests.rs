use tweet_trends::keytable::KeyTable;
use tweet_trends::messages::{contains_str, updates_for_message, StreamMessage, Tweet,
    UpdateMessage, Warning, WarningDetails};

fn sample_tweet() -> Tweet {
    Tweet {
        id_str: "1".to_string(),
        text: "thinking about art".to_string(),
        extended_tweet: None,
        lang: "en".to_string(),
    }
}

#[test]
fn index_of_finds_keys() {
    let table = KeyTable::new(&vec!["art".to_string(), "music".to_string()]);
    assert_eq!(table.len(), 2);
    assert_eq!(table.index_of("art"), Some(0));
    assert_eq!(table.index_of("music"), Some(1));
    assert_eq!(table.index_of("painting"), None);
}

#[test]
fn later_duplicate_key_wins() {
    let table = KeyTable::new(&vec!["art".to_string(), "music".to_string(), "art".to_string()]);
    assert_eq!(table.index_of("art"), Some(2));
}

#[test]
fn contains_finds_substrings() {
    assert!(contains_str("modern art show", "art"));
    assert!(contains_str("art", "art"));
    assert!(contains_str("cartography", "art"));
    assert!(!contains_str("muse", "music"));
    assert!(!contains_str("", "a"));
    assert!(contains_str("anything", ""));
}

#[test]
fn tweet_yields_one_update_per_matching_key() {
    let keys = vec!["art".to_string(), "music".to_string(), "love".to_string()];
    let message = StreamMessage::Tweet(sample_tweet());
    let raw = "{\"text\":\"I love art\"}";
    let updates = updates_for_message(&message, raw, &keys);
    assert_eq!(updates.len(), 2);
    assert!(matches!(&updates[0], UpdateMessage::NewTweet(k) if k == "art"));
    assert!(matches!(&updates[1], UpdateMessage::NewTweet(k) if k == "love"));
}

#[test]
fn non_tweet_messages_yield_nothing() {
    let keys = vec!["art".to_string()];
    let warning = StreamMessage::Warning(Warning {
        warning: WarningDetails { code: "FALLING_BEHIND".to_string(), percent_full: 60 },
    });
    assert_eq!(updates_for_message(&warning, "art everywhere", &keys).len(), 0);
    assert_eq!(updates_for_message(&StreamMessage::Other, "art", &keys).len(), 0);
}
