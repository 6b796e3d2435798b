use std::collections::HashMap;
use std::str::FromStr;

use liana::miniscript::bitcoin::bip32::{DerivationPath, Fingerprint};

use descriptor_setup::network::Network;
use descriptor_setup::path::{
    child_index, generate_derivation_path, hardened, is_hardened, next_account_index, used_account,
    HARDENED_BIT,
};
use descriptor_setup::text::{key_text, parse_u16, push_decimal, push_fingerprint, push_path};

#[test]
fn standard_path_on_the_production_network() {
    let path = generate_derivation_path(Network::Bitcoin, hardened(3));
    assert_eq!(path, vec![0x8000_0030, 0x8000_0000, 0x8000_0003, 0x8000_0002]);
}

#[test]
fn standard_path_on_the_test_networks() {
    for network in [Network::Testnet, Network::Signet, Network::Regtest] {
        let path = generate_derivation_path(network, hardened(0));
        assert_eq!(path, vec![0x8000_0030, 0x8000_0001, 0x8000_0000, 0x8000_0002]);
    }
}

#[test]
fn standard_path_reads_as_text() {
    let mut text = String::from("m");
    push_path(&mut text, &generate_derivation_path(Network::Bitcoin, hardened(7)));
    assert_eq!(text, "m/48'/0'/7'/2'");
    let mut text = String::from("m");
    push_path(&mut text, &generate_derivation_path(Network::Signet, hardened(12)));
    assert_eq!(text, "m/48'/1'/12'/2'");
}

#[test]
fn standard_path_text_is_what_the_descriptor_library_reads() {
    for (network, account) in [(Network::Bitcoin, 0), (Network::Testnet, 5), (Network::Regtest, 2147483647)] {
        let path = generate_derivation_path(network, hardened(account));
        let mut text = String::from("m");
        push_path(&mut text, &path);
        let read = DerivationPath::from_str(&text).unwrap();
        let numbers: Vec<u32> = read.into_iter().map(|c| u32::from(*c)).collect();
        assert_eq!(numbers, path);
        assert_eq!(read.to_string(), text);
    }
}

#[test]
fn hardened_marks_the_top_bit() {
    assert_eq!(hardened(0), 0x8000_0000);
    assert_eq!(hardened(48), 0x8000_0030);
    assert!(is_hardened(hardened(1)));
    assert!(!is_hardened(1));
    assert_eq!(child_index(hardened(9)), 9);
    assert_eq!(child_index(9), 9);
    assert_eq!(HARDENED_BIT, 1 << 31);
}

#[test]
fn used_account_needs_the_policy_purpose_and_four_steps() {
    assert_eq!(used_account(&vec![hardened(48), hardened(0), hardened(3), hardened(2)]), Some(hardened(3)));
    assert_eq!(used_account(&vec![hardened(48), hardened(0), 3, hardened(2), 0]), Some(3));
    assert_eq!(used_account(&vec![hardened(48), hardened(0), hardened(3)]), None);
    assert_eq!(used_account(&vec![hardened(84), hardened(0), hardened(3), hardened(2)]), None);
    assert_eq!(used_account(&vec![48, hardened(0), hardened(3), hardened(2)]), None);
    assert_eq!(used_account(&vec![]), None);
}

#[test]
fn first_account_of_a_device_is_zero_hardened() {
    let accounts: HashMap<u32, u32> = HashMap::new();
    assert_eq!(next_account_index(&accounts, 0xf5acc2fd), Some(hardened(0)));
}

#[test]
fn next_account_follows_the_highest_one() {
    let mut accounts: HashMap<u32, u32> = HashMap::new();
    accounts.insert(0xf5acc2fd, hardened(0));
    accounts.insert(0x00000001, hardened(41));
    accounts.insert(0x00000002, 7);
    assert_eq!(next_account_index(&accounts, 0xf5acc2fd), Some(hardened(1)));
    assert_eq!(next_account_index(&accounts, 0x00000001), Some(hardened(42)));
    assert_eq!(next_account_index(&accounts, 0x00000002), Some(hardened(8)));
    assert_eq!(next_account_index(&accounts, 0x00000003), Some(hardened(0)));
}

#[test]
fn accounts_allocated_in_sequence_increase_by_one() {
    let mut accounts: HashMap<u32, u32> = HashMap::new();
    let mut expected = 0;
    while expected < 5 {
        let next = next_account_index(&accounts, 0xaabbccdd).unwrap();
        assert_eq!(next, hardened(expected));
        accounts.insert(0xaabbccdd, next);
        expected += 1;
    }
}

#[test]
fn no_account_is_left_after_the_last_index() {
    let mut accounts: HashMap<u32, u32> = HashMap::new();
    accounts.insert(1, hardened(0x7fff_ffff));
    accounts.insert(2, 0x7fff_ffff);
    accounts.insert(3, hardened(0x7fff_fffe));
    assert_eq!(next_account_index(&accounts, 1), None);
    assert_eq!(next_account_index(&accounts, 2), None);
    assert_eq!(next_account_index(&accounts, 3), Some(hardened(0x7fff_ffff)));
}

#[test]
fn fingerprint_is_written_as_eight_hex_digits() {
    let mut text = String::new();
    push_fingerprint(&mut text, 0xf5acc2fd);
    assert_eq!(text, "f5acc2fd");
    let mut text = String::from("[");
    push_fingerprint(&mut text, 0x0000000a);
    assert_eq!(text, "[0000000a");
    let mut text = String::new();
    push_fingerprint(&mut text, 0xffffffff);
    assert_eq!(text, "ffffffff");
}

#[test]
fn fingerprint_text_is_what_the_descriptor_library_writes() {
    for fingerprint in [0u32, 1, 0xf5acc2fd, 0x0a0b0c0d, 0xffffffff, 0x80000000] {
        let mut text = String::new();
        push_fingerprint(&mut text, fingerprint);
        assert_eq!(text, Fingerprint::from(fingerprint.to_be_bytes()).to_string());
    }
}

#[test]
fn decimal_has_no_leading_zeros() {
    for (n, expected) in [(0u32, "0"), (7, "7"), (10, "10"), (48, "48"), (1000, "1000"), (2147483647, "2147483647"), (4294967295, "4294967295")] {
        let mut text = String::new();
        push_decimal(&mut text, n);
        assert_eq!(text, expected);
    }
}

#[test]
fn path_text_marks_hardened_steps() {
    let mut text = String::new();
    push_path(&mut text, &vec![hardened(48), 1, hardened(0), 2]);
    assert_eq!(text, "/48'/1/0'/2");
    let mut text = String::from("m");
    push_path(&mut text, &vec![]);
    assert_eq!(text, "m");
}

#[test]
fn key_text_puts_the_origin_in_brackets() {
    let text = key_text(0xf5acc2fd, &vec![hardened(48), hardened(1), hardened(0), hardened(2)], "tpubD");
    assert_eq!(text, "[f5acc2fd/48'/1'/0'/2']tpubD");
}

#[test]
fn timelock_text_is_read_as_std_reads_it() {
    for text in [
        "", "0", "1", "1000", "65535", "65536", "99999", "0005", "+5", "+", "-1", "-0", " 5", "5 ",
        "5a", "a", "++5", "+-5", "1_000", "655350", "00065535", "000655350", "4294967296",
        "18446744073709551616", "٣", "1.0", "0x10",
    ] {
        assert_eq!(parse_u16(text), text.parse::<u16>().ok(), "{:?}", text);
    }
}

#[test]
fn timelock_text_examples() {
    assert_eq!(parse_u16("1000"), Some(1000));
    assert_eq!(parse_u16("65535"), Some(65535));
    assert_eq!(parse_u16("+42"), Some(42));
    assert_eq!(parse_u16("65536"), None);
    assert_eq!(parse_u16(""), None);
    assert_eq!(parse_u16("twelve"), None);
}
