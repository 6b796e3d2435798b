use std::str::FromStr;

use descriptor_setup::key::{check_key_network, device_key, ExtendedKey, KeyKind};
use descriptor_setup::network::Network;
use descriptor_setup::path::hardened;
use descriptor_setup::signer::Signer;
use liana::miniscript::bitcoin::bip32::{DerivationPath, ExtendedPrivKey, ExtendedPubKey};
use liana::miniscript::bitcoin::secp256k1::Secp256k1;
use liana::miniscript::bitcoin::Network as KeyNetwork;
use liana::miniscript::descriptor::DescriptorPublicKey;
use liana::signer::HotSigner;

const TPUB: &str = "tpubDFAqEGNyad35aBCKUAXbQGDjdVhNueno5ZZVEn3sQbW5ci457gLR7HyTmHBg93oourBssgUxuWz1jX5uhc1qaqFo9VsybY1J5FuedLfm4dK";
const TPUB_WITH_ORIGIN: &str = "[f5acc2fd/48'/1'/0'/2']tpubDFAqEGNyad35aBCKUAXbQGDjdVhNueno5ZZVEn3sQbW5ci457gLR7HyTmHBg93oourBssgUxuWz1jX5uhc1qaqFo9VsybY1J5FuedLfm4dK";
const XPUB: &str = "xpub661MyMwAqRbcFtXgS5sYJABqqG9YLmC4Q1Rdap9gSE8NqtwybGhePY2gZ29ESFjqJoCu1Rupje8YtGqsefD265TMg7usUDFdp6W1EGMcet8";
const MNEMONIC: &str = "abandon abandon abandon abandon abandon abandon abandon abandon abandon abandon abandon about";

#[test]
fn key_with_origin_is_read() {
    let key = ExtendedKey::parse(TPUB_WITH_ORIGIN).unwrap();
    assert_eq!(key.text, TPUB_WITH_ORIGIN);
    assert_eq!(key.kind, KeyKind::XPub);
    assert_eq!(key.fingerprint, 0xf5acc2fd);
    assert_eq!(key.origin, Some(vec![hardened(48), hardened(1), hardened(0), hardened(2)]));
    assert_eq!(key.xpub, Some(TPUB.to_string()));
    assert_eq!(key.mainnet, Some(false));
    assert!(key.has_device_origin());
}

#[test]
fn key_facts_are_those_of_the_descriptor_library() {
    for text in [
        TPUB_WITH_ORIGIN.to_string(),
        TPUB.to_string(),
        XPUB.to_string(),
        format!("[00000001/48h/0h/3h/2h]{}/0/*", XPUB),
        format!("[aabbccdd/48'/0'/1'/2']{}/<0;1>/*", XPUB),
        "020202020202020202020202020202020202020202020202020202020202020202".to_string(),
    ] {
        let key = ExtendedKey::parse(&text).unwrap();
        let outside = DescriptorPublicKey::from_str(&text).unwrap();
        assert_eq!(key.text, outside.to_string());
        assert_eq!(key.fingerprint.to_be_bytes(), outside.master_fingerprint().to_bytes());
        let (kind, origin, xkey) = match &outside {
            DescriptorPublicKey::Single(k) => (KeyKind::Single, k.origin.clone(), None),
            DescriptorPublicKey::XPub(k) => (KeyKind::XPub, k.origin.clone(), Some(k.xkey)),
            DescriptorPublicKey::MultiXPub(k) => (KeyKind::MultiXPub, k.origin.clone(), Some(k.xkey)),
        };
        assert_eq!(key.kind, kind);
        assert_eq!(
            key.origin,
            origin.map(|(_, path)| path.into_iter().map(|c| u32::from(*c)).collect::<Vec<u32>>())
        );
        assert_eq!(key.xpub, xkey.map(|x| x.to_string()));
        assert_eq!(key.mainnet, xkey.map(|x| x.network == KeyNetwork::Bitcoin));
    }
}

#[test]
fn key_text_is_canonical() {
    let key = ExtendedKey::parse(&format!("[F5ACC2FD/48h/1h/0h/2h]{}", TPUB)).unwrap();
    assert_eq!(key.text, TPUB_WITH_ORIGIN);
    assert!(key.same_as(&ExtendedKey::parse(TPUB_WITH_ORIGIN).unwrap()));
}

#[test]
fn key_without_origin_takes_the_fingerprint_of_the_key() {
    let key = ExtendedKey::parse(XPUB).unwrap();
    assert_eq!(key.kind, KeyKind::XPub);
    assert_eq!(key.origin, None);
    assert_eq!(key.mainnet, Some(true));
    assert!(!key.has_device_origin());
    let outside = ExtendedPubKey::from_str(XPUB).unwrap();
    assert_eq!(key.fingerprint.to_be_bytes(), outside.fingerprint().to_bytes());
}

#[test]
fn plain_public_key_is_a_single_key() {
    let key = ExtendedKey::parse(
        "[aabbccdd/0]020202020202020202020202020202020202020202020202020202020202020202",
    )
    .unwrap();
    assert_eq!(key.kind, KeyKind::Single);
    assert_eq!(key.fingerprint, 0xaabbccdd);
    assert_eq!(key.origin, Some(vec![0]));
    assert_eq!(key.xpub, None);
    assert_eq!(key.mainnet, None);
}

#[test]
fn multipath_key_is_told_apart() {
    let key = ExtendedKey::parse(&format!("{}/<0;1>/*", TPUB_WITH_ORIGIN)).unwrap();
    assert_eq!(key.kind, KeyKind::MultiXPub);
    assert_eq!(key.fingerprint, 0xf5acc2fd);
    assert!(!key.has_device_origin());
}

#[test]
fn text_that_is_no_key_is_refused() {
    for text in ["", "tpub", "not a key", "[f5acc2fd/48'/1'/0'/2']", "[f5acc2fd/48'/1'/0'/2'tpubD", "[zzzzzzzz]tpubDFAqEGNyad35aBCKUAXbQGDjdVhNueno5ZZVEn3sQbW5ci457gLR7HyTmHBg93oourBssgUxuWz1jX5uhc1qaqFo9VsybY1J5FuedLfm4dK"] {
        assert_eq!(ExtendedKey::parse(text), None, "{:?}", text);
    }
    let mut broken = TPUB_WITH_ORIGIN.to_string();
    broken.pop();
    broken.push('L');
    assert_eq!(ExtendedKey::parse(&broken), None);
}

#[test]
fn keys_are_the_same_by_their_content() {
    let a = ExtendedKey::parse(TPUB_WITH_ORIGIN).unwrap();
    let b = ExtendedKey::parse(TPUB_WITH_ORIGIN).unwrap();
    let c = ExtendedKey::parse(TPUB).unwrap();
    let d = ExtendedKey::parse(&format!("[f5acc2fd/48'/1'/1'/2']{}", TPUB)).unwrap();
    assert!(a.same_as(&b));
    assert!(!a.same_as(&c));
    assert!(!a.same_as(&d));
    assert!(c.same_as(&c));
    let mut e = a.duplicate();
    assert!(e.same_as(&a));
    assert_eq!(e, a);
    e.mainnet = Some(true);
    assert!(!e.same_as(&a));
    let mut f = a.duplicate();
    f.origin = None;
    assert!(!f.same_as(&a));
    let mut g = a.duplicate();
    g.xpub = None;
    assert!(!g.same_as(&a));
}

#[test]
fn key_suits_the_network_it_is_tagged_for() {
    let test_key = ExtendedKey::parse(TPUB_WITH_ORIGIN).unwrap();
    let main_key = ExtendedKey::parse(XPUB).unwrap();
    let plain_key = ExtendedKey::parse(
        "020202020202020202020202020202020202020202020202020202020202020202",
    )
    .unwrap();
    assert!(!check_key_network(&test_key, Network::Bitcoin));
    assert!(check_key_network(&test_key, Network::Testnet));
    assert!(check_key_network(&test_key, Network::Signet));
    assert!(check_key_network(&test_key, Network::Regtest));
    assert!(check_key_network(&main_key, Network::Bitcoin));
    assert!(!check_key_network(&main_key, Network::Testnet));
    assert!(!check_key_network(&main_key, Network::Signet));
    assert!(!check_key_network(&main_key, Network::Regtest));
    for network in [Network::Bitcoin, Network::Testnet, Network::Signet, Network::Regtest] {
        assert!(check_key_network(&plain_key, network));
    }
}

#[test]
fn device_key_carries_the_device_and_the_path() {
    let path = vec![hardened(48), hardened(1), hardened(0), hardened(2)];
    let key = device_key(0xf5acc2fd, &path, TPUB).unwrap();
    assert_eq!(key, ExtendedKey::parse(TPUB_WITH_ORIGIN).unwrap());
    assert_eq!(device_key(0xf5acc2fd, &path, "tpubnonsense"), None);
}

#[test]
fn signer_has_the_fingerprint_of_its_master_key() {
    let signer = Signer::new(MNEMONIC.to_string(), Network::Bitcoin).unwrap();
    let secp = Secp256k1::new();
    let seed = liana::miniscript::bitcoin::hashes::hex::FromHex::from_hex(
        "5eb00bbddcf069084889a8ab9155568165f5c453ccb85e70811aaed6f6da5fc19a5ac40b389cd370d086206dec8aa6c43daea6690f20ad3d8d48b2d2ce9e38e4",
    )
    .map(|seed: Vec<u8>| seed)
    .unwrap();
    let master = ExtendedPrivKey::new_master(KeyNetwork::Bitcoin, &seed).unwrap();
    assert_eq!(signer.fingerprint().to_be_bytes(), master.fingerprint(&secp).to_bytes());
    assert_eq!(signer.fingerprint(), 0x73c5da0a);
}

#[test]
fn signer_derives_keys_for_its_network() {
    let mut signer = Signer::new(MNEMONIC.to_string(), Network::Bitcoin).unwrap();
    let secp = Secp256k1::new();
    let outside = HotSigner::from_str(KeyNetwork::Bitcoin, MNEMONIC).unwrap();
    let path = vec![hardened(48), hardened(0), hardened(0), hardened(2)];
    let xpub = signer.get_extended_pubkey(&path);
    assert_eq!(
        xpub,
        outside.xpub_at(&DerivationPath::from_str("m/48'/0'/0'/2'").unwrap(), &secp).to_string()
    );
    assert!(xpub.starts_with("xpub"));
    let other = signer.get_extended_pubkey(&vec![hardened(48), hardened(0), hardened(1), hardened(2)]);
    assert!(other != xpub);
    let fingerprint = signer.fingerprint();
    signer.set_network(Network::Signet);
    assert_eq!(signer.fingerprint(), fingerprint);
    let test_xpub = signer.get_extended_pubkey(&path);
    assert!(test_xpub.starts_with("tpub"));
    assert_eq!(
        test_xpub,
        HotSigner::from_str(KeyNetwork::Signet, MNEMONIC)
            .unwrap()
            .xpub_at(&DerivationPath::from_str("m/48'/0'/0'/2'").unwrap(), &secp)
            .to_string()
    );
    assert_eq!(signer.network(), Network::Signet);
    signer.set_network(Network::Bitcoin);
    assert_eq!(signer.get_extended_pubkey(&path), xpub);
    assert_eq!(signer.mnemonic(), MNEMONIC);
}

#[test]
fn text_that_is_no_mnemonic_makes_no_signer() {
    assert!(Signer::new("abandon abandon abandon".to_string(), Network::Bitcoin).is_none());
    assert!(Signer::new("".to_string(), Network::Testnet).is_none());
    assert!(Signer::new(MNEMONIC.replace("about", "abandon"), Network::Bitcoin).is_none());
    let signer = Signer::new(
        "legal winner thank year wave sausage worth useful legal winner thank yellow".to_string(),
        Network::Regtest,
    )
    .unwrap();
    assert_eq!(signer.network(), Network::Regtest);
    assert!(signer.fingerprint() != 0x73c5da0a);
}
