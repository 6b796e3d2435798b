use descriptor_setup::key::ExtendedKey;
use descriptor_setup::network::Network;
use descriptor_setup::path::hardened;
use descriptor_setup::slot::{
    check_for_duplicate, check_network_of, edit_alias_for_key_with_same_fingerprint,
    fingerprint_account_index_mappping, gather, has_colliding_alias, has_colliding_key,
    keys_aliases, DescriptorKey,
};

const TPUB: &str = "tpubDFAqEGNyad35aBCKUAXbQGDjdVhNueno5ZZVEn3sQbW5ci457gLR7HyTmHBg93oourBssgUxuWz1jX5uhc1qaqFo9VsybY1J5FuedLfm4dK";
const XPUB: &str = "xpub661MyMwAqRbcFtXgS5sYJABqqG9YLmC4Q1Rdap9gSE8NqtwybGhePY2gZ29ESFjqJoCu1Rupje8YtGqsefD265TMg7usUDFdp6W1EGMcet8";

fn key(fingerprint: &str, account: &str) -> ExtendedKey {
    ExtendedKey::parse(&format!("[{}/48'/1'/{}/2']{}", fingerprint, account, TPUB)).unwrap()
}

fn slot(name: &str, key: Option<ExtendedKey>) -> DescriptorKey {
    DescriptorKey { name: name.to_string(), key, ..DescriptorKey::default() }
}

fn flags(slots: &Vec<DescriptorKey>) -> Vec<(bool, bool)> {
    slots.iter().map(|s| (s.duplicate_key, s.duplicate_name)).collect()
}

#[test]
fn empty_slot_has_nothing() {
    let slot = DescriptorKey::default();
    assert_eq!(slot.name, "");
    assert!(slot.valid);
    assert_eq!(slot.key, None);
    assert!(!slot.duplicate_key);
    assert!(!slot.duplicate_name);
}

#[test]
fn check_network_marks_a_filled_slot() {
    let mut filled = slot("a", Some(key("aaaaaaaa", "0'")));
    filled.check_network(Network::Bitcoin);
    assert!(!filled.valid);
    filled.check_network(Network::Signet);
    assert!(filled.valid);
    let mut empty = DescriptorKey::default();
    empty.valid = false;
    empty.check_network(Network::Bitcoin);
    assert!(!empty.valid);
    let mut set = vec![slot("a", Some(key("aaaaaaaa", "0'"))), DescriptorKey::default(), slot("b", ExtendedKey::parse(XPUB))];
    check_network_of(&mut set, Network::Bitcoin);
    assert_eq!(set.iter().map(|s| s.valid).collect::<Vec<bool>>(), vec![false, true, true]);
    check_network_of(&mut set, Network::Testnet);
    assert_eq!(set.iter().map(|s| s.valid).collect::<Vec<bool>>(), vec![true, true, false]);
}

#[test]
fn same_key_in_two_slots_flags_both() {
    let mut primary = vec![slot("a", Some(key("aaaaaaaa", "0'"))), slot("b", Some(key("bbbbbbbb", "0'")))];
    let mut recovery = vec![slot("a", Some(key("aaaaaaaa", "0'")))];
    check_for_duplicate(&mut primary, &mut recovery);
    assert_eq!(flags(&primary), vec![(true, false), (false, false)]);
    assert_eq!(flags(&recovery), vec![(true, false)]);
}

#[test]
fn same_alias_for_two_devices_flags_both() {
    let mut primary = vec![slot("mine", Some(key("aaaaaaaa", "0'"))), slot("other", Some(key("cccccccc", "0'")))];
    let mut recovery = vec![slot("mine", Some(key("bbbbbbbb", "0'")))];
    check_for_duplicate(&mut primary, &mut recovery);
    assert_eq!(flags(&primary), vec![(false, true), (false, false)]);
    assert_eq!(flags(&recovery), vec![(false, true)]);
}

#[test]
fn same_alias_for_one_device_is_not_flagged() {
    let mut primary = vec![slot("mine", Some(key("aaaaaaaa", "0'")))];
    let mut recovery = vec![slot("mine", Some(key("aaaaaaaa", "1'")))];
    check_for_duplicate(&mut primary, &mut recovery);
    assert_eq!(flags(&primary), vec![(false, false)]);
    assert_eq!(flags(&recovery), vec![(false, false)]);
}

#[test]
fn flags_are_taken_back_when_the_collision_is_gone() {
    let mut primary = vec![slot("mine", Some(key("aaaaaaaa", "0'"))), slot("mine", Some(key("bbbbbbbb", "0'")))];
    let mut recovery = vec![slot("x", Some(key("aaaaaaaa", "0'")))];
    check_for_duplicate(&mut primary, &mut recovery);
    assert_eq!(flags(&primary), vec![(true, true), (false, true)]);
    assert_eq!(flags(&recovery), vec![(true, false)]);
    primary.remove(0);
    check_for_duplicate(&mut primary, &mut recovery);
    assert_eq!(flags(&primary), vec![(false, false)]);
    assert_eq!(flags(&recovery), vec![(false, false)]);
}

#[test]
fn empty_slots_do_not_collide() {
    let mut primary = vec![DescriptorKey::default(), DescriptorKey::default()];
    let mut recovery = vec![DescriptorKey::default(), slot("", Some(key("aaaaaaaa", "0'")))];
    check_for_duplicate(&mut primary, &mut recovery);
    assert_eq!(flags(&primary), vec![(false, false), (false, false)]);
    assert_eq!(flags(&recovery), vec![(false, false), (false, false)]);
}

#[test]
fn collisions_are_found_in_a_pool() {
    let primary = vec![slot("mine", Some(key("aaaaaaaa", "0'"))), slot("yours", Some(key("bbbbbbbb", "0'")))];
    let recovery = vec![slot("mine", Some(key("cccccccc", "0'"))), slot("yours", Some(key("bbbbbbbb", "0'")))];
    let pool = gather(&primary, &recovery);
    assert_eq!(pool.len(), 4);
    assert!(has_colliding_alias(&pool, &"mine".to_string()));
    assert!(!has_colliding_alias(&pool, &"yours".to_string()));
    assert!(!has_colliding_alias(&pool, &"nobody".to_string()));
    assert!(has_colliding_key(&pool, &key("bbbbbbbb", "0'")));
    assert!(!has_colliding_key(&pool, &key("aaaaaaaa", "0'")));
    assert!(!has_colliding_key(&pool, &key("dddddddd", "0'")));
}

#[test]
fn alias_goes_to_every_key_of_the_device() {
    let mut slots = vec![
        slot("old", Some(key("aaaaaaaa", "0'"))),
        slot("other", Some(key("bbbbbbbb", "0'"))),
        DescriptorKey::default(),
        slot("older", Some(key("aaaaaaaa", "1'"))),
    ];
    edit_alias_for_key_with_same_fingerprint(&mut slots, &"new".to_string(), 0xaaaaaaaa);
    assert_eq!(
        slots.iter().map(|s| s.name.clone()).collect::<Vec<String>>(),
        vec!["new", "other", "", "new"]
    );
}

#[test]
fn highest_account_is_kept_per_device() {
    let primary = vec![
        slot("a", Some(key("aaaaaaaa", "0'"))),
        slot("b", Some(key("bbbbbbbb", "5'"))),
        slot("a", Some(key("aaaaaaaa", "2'"))),
        DescriptorKey::default(),
    ];
    let recovery = vec![
        slot("a", Some(key("aaaaaaaa", "1'"))),
        slot("c", Some(key("cccccccc", "7"))),
        slot("d", ExtendedKey::parse(XPUB)),
        slot("e", ExtendedKey::parse(&format!("[eeeeeeee/84'/1'/9'/2']{}", TPUB))),
        slot("f", ExtendedKey::parse(&format!("[ffffffff/48'/1'/9']{}", TPUB))),
        slot("g", ExtendedKey::parse(&format!("[99999999/48'/1'/3'/2']{}/<0;1>/*", TPUB))),
    ];
    let mapping = fingerprint_account_index_mappping(&gather(&primary, &recovery));
    assert_eq!(mapping.len(), 3);
    assert_eq!(mapping.get(&0xaaaaaaaa), Some(&hardened(2)));
    assert_eq!(mapping.get(&0xbbbbbbbb), Some(&hardened(5)));
    assert_eq!(mapping.get(&0xcccccccc), Some(&7));
}

#[test]
fn hardened_account_is_higher_than_any_normal_one() {
    let primary = vec![slot("a", Some(key("aaaaaaaa", "9"))), slot("a", Some(key("aaaaaaaa", "1'")))];
    let recovery = vec![slot("a", Some(key("aaaaaaaa", "4")))];
    let mapping = fingerprint_account_index_mappping(&gather(&primary, &recovery));
    assert_eq!(mapping.get(&0xaaaaaaaa), Some(&hardened(1)));
}

#[test]
fn aliases_are_kept_per_device() {
    let primary = vec![slot("first", Some(key("aaaaaaaa", "0'"))), slot("b", Some(key("bbbbbbbb", "5'")))];
    let recovery = vec![DescriptorKey::default(), slot("last", Some(key("aaaaaaaa", "1'")))];
    let aliases = keys_aliases(&gather(&primary, &recovery));
    assert_eq!(aliases.len(), 2);
    assert_eq!(aliases.get(&0xaaaaaaaa), Some(&"last".to_string()));
    assert_eq!(aliases.get(&0xbbbbbbbb), Some(&"b".to_string()));
}
