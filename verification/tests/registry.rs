use katze::error::MenuError;
use katze::json::{decode_mapping, encode_mapping};
use katze::registry::{
    delete_pattern, kind_of_key, scan_pattern, store_key, MenuKind, MenuRecord, MenuRegistry,
};
use katze::text::str_equal;

fn mapping(pairs: &[(&str, i32)]) -> Vec<(String, i32)> {
    pairs.iter().map(|(token, id)| (token.to_string(), *id)).collect()
}

#[test]
fn lookup_in_an_empty_registry_finds_nothing() {
    let registry = MenuRegistry::new();
    assert_eq!(registry.len(), 0);
    assert_eq!(registry.lookup(1, 2), Err(MenuError::MenuNotFound));
    assert_eq!(registry.active(1), None);
}

#[test]
fn open_then_lookup_returns_the_mapping() {
    let mut registry = MenuRegistry::new();
    registry.open(5, 100, MenuKind::MovieVotes, mapping(&[("1", 7), ("2", 9)]));
    assert_eq!(registry.lookup(5, 100), Ok(mapping(&[("1", 7), ("2", 9)])));
    assert_eq!(registry.active(5), Some(100));
    assert_eq!(registry.len(), 1);
}

#[test]
fn second_open_in_a_channel_retires_the_first() {
    let mut registry = MenuRegistry::new();
    registry.open(5, 100, MenuKind::MovieVotes, mapping(&[("1", 7)]));
    registry.open(5, 101, MenuKind::MovieVotes, mapping(&[("1", 8), ("2", 9)]));
    assert_eq!(registry.len(), 1);
    assert_eq!(registry.lookup(5, 100), Err(MenuError::MenuNotFound));
    assert_eq!(registry.lookup(5, 101), Ok(mapping(&[("1", 8), ("2", 9)])));
    assert_eq!(registry.active(5), Some(101));
}

#[test]
fn menus_of_other_channels_stay() {
    let mut registry = MenuRegistry::new();
    registry.open(5, 100, MenuKind::MovieVotes, mapping(&[("1", 7)]));
    registry.open(50, 200, MenuKind::MovieVotes, mapping(&[("1", 1)]));
    registry.open(5, 101, MenuKind::MovieVotes, mapping(&[("1", 8)]));
    assert_eq!(registry.len(), 2);
    assert_eq!(registry.lookup(50, 200), Ok(mapping(&[("1", 1)])));
    assert_eq!(registry.lookup(5, 101), Ok(mapping(&[("1", 8)])));
}

#[test]
fn lookup_needs_the_right_message() {
    let mut registry = MenuRegistry::new();
    registry.open(5, 100, MenuKind::MovieVotes, mapping(&[("1", 7)]));
    assert_eq!(registry.lookup(5, 99), Err(MenuError::MenuNotFound));
    assert_eq!(registry.lookup(6, 100), Err(MenuError::MenuNotFound));
}

#[test]
fn close_is_idempotent() {
    let mut registry = MenuRegistry::new();
    registry.open(5, 100, MenuKind::MovieVotes, mapping(&[("1", 7)]));
    registry.open(6, 200, MenuKind::MovieVotes, mapping(&[("1", 8)]));
    registry.close(5, 100);
    assert_eq!(registry.lookup(5, 100), Err(MenuError::MenuNotFound));
    assert_eq!(registry.len(), 1);
    registry.close(5, 100);
    assert_eq!(registry.len(), 1);
    assert_eq!(registry.lookup(6, 200), Ok(mapping(&[("1", 8)])));
}

#[test]
fn close_of_another_message_keeps_the_menu() {
    let mut registry = MenuRegistry::new();
    registry.open(5, 100, MenuKind::MovieVotes, mapping(&[("1", 7)]));
    registry.close(5, 101);
    assert_eq!(registry.active(5), Some(100));
}

#[test]
fn keys_follow_the_store_format() {
    assert_eq!(store_key(12, 345, MenuKind::MovieVotes), "reaction_menu:12:345:movie_votes");
    assert_eq!(store_key(0, u64::MAX, MenuKind::MovieVotes), "reaction_menu:0:18446744073709551615:movie_votes");
    let record = MenuRecord { location: 7, menu_id: 8, kind: MenuKind::MovieVotes, mapping: Vec::new() };
    assert_eq!(record.key(), "reaction_menu:7:8:movie_votes");
    assert_eq!(record.duplicate(), record);
}

#[test]
fn patterns_match_one_channel_or_one_message() {
    assert_eq!(delete_pattern(12), "reaction_menu:12:*");
    assert_eq!(scan_pattern(12, 345), "reaction_menu:12:345:*");
}

#[test]
fn kind_is_read_from_the_last_segment() {
    assert_eq!(kind_of_key("reaction_menu:12:345:movie_votes"), Some(MenuKind::MovieVotes));
    assert_eq!(kind_of_key("movie_votes"), Some(MenuKind::MovieVotes));
    assert_eq!(kind_of_key("reaction_menu:12:345:polls"), None);
    assert_eq!(kind_of_key("reaction_menu:12:345:"), None);
    assert_eq!(kind_of_key(""), None);
    assert_eq!(kind_of_key("reaction_menu:12:345:movie_votes:"), None);
}

#[test]
fn kind_names() {
    assert_eq!(MenuKind::MovieVotes.name(), "movie_votes");
    assert_eq!(MenuKind::parse("movie_votes"), Some(MenuKind::MovieVotes));
    assert_eq!(MenuKind::parse("movie_vote"), None);
    assert_eq!(MenuKind::parse(""), None);
}

#[test]
fn str_equal_compares_characters() {
    assert!(str_equal("", ""));
    assert!(str_equal("1\u{20e3}", "1\u{20e3}"));
    assert!(!str_equal("1", "1\u{20e3}"));
    assert!(!str_equal("ab", "ac"));
}

#[test]
fn mapping_is_stored_as_a_json_list_of_pairs() {
    assert_eq!(encode_mapping(&mapping(&[("1", 7), ("2", 9)])), Ok("[[\"1\",7],[\"2\",9]]".to_string()));
    assert_eq!(encode_mapping(&Vec::new()), Ok("[]".to_string()));
}

#[test]
fn stored_mapping_is_read_back() {
    assert_eq!(decode_mapping("[[\"1\",7],[\"2\",-9]]"), Ok(mapping(&[("1", 7), ("2", -9)])));
    assert_eq!(decode_mapping(" [ ] "), Ok(Vec::new()));
    let written = encode_mapping(&mapping(&[("1", 3), ("2", 4), ("3", 5)])).unwrap();
    assert_eq!(decode_mapping(&written), Ok(mapping(&[("1", 3), ("2", 4), ("3", 5)])));
}

#[test]
fn malformed_mapping_is_rejected() {
    assert_eq!(decode_mapping(""), Err(MenuError::MalformedMenuRecord));
    assert_eq!(decode_mapping("{\"1\":7}"), Err(MenuError::MalformedMenuRecord));
    assert_eq!(decode_mapping("[[\"1\",7]"), Err(MenuError::MalformedMenuRecord));
    assert_eq!(decode_mapping("[[\"1\",\"7\"]]"), Err(MenuError::MalformedMenuRecord));
    assert_eq!(decode_mapping("[[\"1\",2147483648]]"), Err(MenuError::MalformedMenuRecord));
    assert_eq!(decode_mapping("[[\"1\",7]] x"), Err(MenuError::MalformedMenuRecord));
}
