use std::collections::HashMap;
use std::str::FromStr;

use descriptor_setup::command::{Command, XpubReply};
use descriptor_setup::context::Context;
use descriptor_setup::edit::{DescriptorKeyModal, EditXpubModal};
use descriptor_setup::hw::{position, DeviceKind, HardwareWallet};
use descriptor_setup::import::ImportDescriptor;
use descriptor_setup::key::ExtendedKey;
use descriptor_setup::message::{DefineDescriptor as Event, DefineKey, Error, Message};
use descriptor_setup::network::Network;
use descriptor_setup::participate::{HardwareWalletXpubs, ParticipateXpub, SignerXpubs};
use descriptor_setup::path::hardened;
use descriptor_setup::register::{BackupDescriptor, RegisterDescriptor};
use descriptor_setup::reply::{get_extended_pubkey, register_wallet, xpub_imported};
use descriptor_setup::signer::Signer;
use liana::miniscript::bitcoin::bip32::DerivationPath;
use liana::miniscript::bitcoin::secp256k1::Secp256k1;
use liana::miniscript::bitcoin::Network as KeyNetwork;
use liana::signer::HotSigner;

const TPUB: &str = "tpubDFAqEGNyad35aBCKUAXbQGDjdVhNueno5ZZVEn3sQbW5ci457gLR7HyTmHBg93oourBssgUxuWz1jX5uhc1qaqFo9VsybY1J5FuedLfm4dK";
const EXTERNAL: &str = "[f5acc2fd/48'/1'/0'/2']tpubDFAqEGNyad35aBCKUAXbQGDjdVhNueno5ZZVEn3sQbW5ci457gLR7HyTmHBg93oourBssgUxuWz1jX5uhc1qaqFo9VsybY1J5FuedLfm4dK";
const MNEMONIC: &str = "abandon abandon abandon abandon abandon abandon abandon abandon abandon abandon abandon about";

fn signer() -> Signer {
    Signer::new(MNEMONIC.to_string(), Network::Bitcoin).unwrap()
}

fn hot_xpub(network: KeyNetwork, path: &str) -> String {
    let signer = HotSigner::from_str(network, MNEMONIC).unwrap();
    signer.xpub_at(&DerivationPath::from_str(path).unwrap(), &Secp256k1::new()).to_string()
}

fn device(kind: DeviceKind, fingerprint: u32) -> HardwareWallet {
    HardwareWallet::Supported { kind, fingerprint }
}

fn failure(message: &str) -> Error {
    Error { message: message.to_string() }
}

fn modal(network: Network, accounts: &[(u32, u32)], aliases: &[(u32, &str)]) -> EditXpubModal {
    let accounts: HashMap<u32, u32> = accounts.iter().cloned().collect();
    let aliases: HashMap<u32, String> = aliases.iter().map(|(f, a)| (*f, a.to_string())).collect();
    EditXpubModal::new("slot".to_string(), None, 2, true, network, accounts, aliases, &signer())
}

#[test]
fn import_opens_on_what_the_slot_holds() {
    let signer = signer();
    let key = ExtendedKey::parse(EXTERNAL).unwrap();
    let modal = EditXpubModal::new(
        "alias".to_string(),
        Some(&key),
        1,
        false,
        Network::Signet,
        HashMap::new(),
        HashMap::new(),
        &signer,
    );
    assert_eq!(modal.form_name.value, "alias");
    assert!(modal.form_name.valid);
    assert_eq!(modal.form_xpub.value, EXTERNAL);
    assert!(modal.form_xpub.valid);
    assert_eq!((modal.key_index, modal.is_recovery, modal.network), (1, false, Network::Signet));
    assert!(!modal.chosen_signer && !modal.processing && !modal.edit_name);
    assert_eq!(modal.chosen_hw, None);
    assert!(modal.hws.is_empty());
    assert_eq!(modal.error, None);
    assert_eq!(modal.load(), Command::ListHardwareWallets);
    let own = ExtendedKey::parse(&format!("[73c5da0a/48'/1'/0'/2']{}", TPUB)).unwrap();
    let modal = EditXpubModal::new(
        "alias".to_string(),
        Some(&own),
        1,
        false,
        Network::Signet,
        HashMap::new(),
        HashMap::new(),
        &signer,
    );
    assert!(modal.chosen_signer);
}

#[test]
fn chosen_device_is_asked_for_its_next_account() {
    let signer = signer();
    let mut modal = modal(Network::Testnet, &[(0xaaaaaaaa, hardened(4))], &[]);
    modal.update(
        Message::ConnectedHardwareWallets(vec![
            HardwareWallet::Unsupported { kind: DeviceKind::Ledger },
            device(DeviceKind::Specter, 0xaaaaaaaa),
            device(DeviceKind::Coldcard, 0xbbbbbbbb),
        ]),
        &signer,
    );
    assert_eq!(modal.update(Message::Select(0), &signer), Command::Nothing);
    assert_eq!(modal.update(Message::Select(3), &signer), Command::Nothing);
    assert!(!modal.processing);
    assert_eq!(modal.chosen_hw, None);
    assert_eq!(
        modal.update(Message::Select(1), &signer),
        Command::GetExtendedPubkey {
            device: 1,
            fingerprint: 0xaaaaaaaa,
            path: vec![hardened(48), hardened(1), hardened(5), hardened(2)],
            reply: XpubReply::Import,
        }
    );
    assert!(modal.processing);
    assert!(DescriptorKeyModal::processing(&modal));
    assert_eq!(modal.chosen_hw, Some(1));
    assert_eq!(modal.update(Message::Select(2), &signer), Command::Nothing);
    assert_eq!(modal.chosen_hw, Some(1));
    modal.update(Message::DefineDescriptor(Event::HWXpubImported(Err(failure("unplugged")))), &signer);
    assert!(!modal.processing);
    assert_eq!(modal.chosen_hw, None);
    assert_eq!(modal.error, Some(failure("unplugged")));
    assert_eq!(
        modal.update(Message::Select(2), &signer),
        Command::GetExtendedPubkey {
            device: 2,
            fingerprint: 0xbbbbbbbb,
            path: vec![hardened(48), hardened(1), hardened(0), hardened(2)],
            reply: XpubReply::Import,
        }
    );
}

#[test]
fn device_with_no_account_left_is_not_asked() {
    let signer = signer();
    let mut modal = modal(Network::Bitcoin, &[(0xaaaaaaaa, hardened(0x7fff_ffff))], &[]);
    modal.update(Message::ConnectedHardwareWallets(vec![device(DeviceKind::Jade, 0xaaaaaaaa)]), &signer);
    assert_eq!(modal.update(Message::Select(0), &signer), Command::Nothing);
    assert!(!modal.processing);
    assert_eq!(modal.chosen_hw, None);
}

#[test]
fn imported_key_of_a_known_device_takes_its_alias() {
    let signer = signer();
    let mut modal = modal(Network::Testnet, &[], &[(0xf5acc2fd, "known")]);
    modal.error = Some(failure("before"));
    modal.chosen_signer = true;
    modal.processing = true;
    modal.edit_name = true;
    modal.update(
        Message::DefineDescriptor(Event::HWXpubImported(Ok(ExtendedKey::parse(EXTERNAL).unwrap()))),
        &signer,
    );
    assert_eq!(modal.form_name.value, "known");
    assert!(!modal.edit_name);
    assert_eq!(modal.form_xpub.value, EXTERNAL);
    assert!(modal.form_xpub.valid);
    assert!(!modal.chosen_signer && !modal.processing);
    assert_eq!(modal.error, None);
}

#[test]
fn imported_key_of_a_new_device_opens_the_alias() {
    let signer = signer();
    let mut modal = modal(Network::Testnet, &[], &[(0x11111111, "known")]);
    modal.update(
        Message::DefineDescriptor(Event::HWXpubImported(Ok(ExtendedKey::parse(EXTERNAL).unwrap()))),
        &signer,
    );
    assert_eq!(modal.form_name.value, "slot");
    assert!(modal.edit_name);
    modal.update(Message::DefineDescriptor(Event::EditName), &signer);
    modal.update(Message::DefineDescriptor(Event::NameEdited("new".to_string())), &signer);
    assert_eq!(modal.form_name.value, "new");
    assert!(modal.edit_name);
}

#[test]
fn typed_key_needs_an_origin() {
    let signer = signer();
    let mut modal = modal(Network::Testnet, &[], &[(0xf5acc2fd, "known")]);
    modal.update(Message::DefineDescriptor(Event::XPubEdited("[f5acc2fd/48'".to_string())), &signer);
    assert!(!modal.form_xpub.valid);
    assert_eq!(modal.form_xpub.value, "[f5acc2fd/48'");
    assert_eq!(modal.form_name.value, "slot");
    modal.update(Message::DefineDescriptor(Event::XPubEdited(TPUB.to_string())), &signer);
    assert!(!modal.form_xpub.valid);
    modal.update(Message::DefineDescriptor(Event::XPubEdited(format!("{}/<0;1>/*", EXTERNAL))), &signer);
    assert!(!modal.form_xpub.valid);
    modal.update(Message::DefineDescriptor(Event::XPubEdited(EXTERNAL.to_string())), &signer);
    assert!(modal.form_xpub.valid);
    assert_eq!(modal.form_xpub.value, EXTERNAL);
    assert_eq!(modal.form_name.value, "known");
    assert!(!modal.edit_name);
}

#[test]
fn confirmation_delivers_the_key_that_the_field_reads_as() {
    let signer = signer();
    let mut modal = modal(Network::Testnet, &[], &[]);
    assert_eq!(modal.update(Message::DefineDescriptor(Event::ConfirmXpub), &signer), Command::Nothing);
    modal.update(Message::DefineDescriptor(Event::XPubEdited(EXTERNAL.replace('\'', "h"))), &signer);
    modal.update(Message::DefineDescriptor(Event::NameEdited("mine".to_string())), &signer);
    assert_eq!(
        modal.update(Message::DefineDescriptor(Event::ConfirmXpub), &signer),
        Command::Perform(Message::DefineDescriptor(Event::Key(
            true,
            2,
            DefineKey::Edited("mine".to_string(), ExtendedKey::parse(EXTERNAL).unwrap())
        )))
    );
    modal.update(Message::DefineDescriptor(Event::XPubEdited("junk".to_string())), &signer);
    assert_eq!(modal.update(Message::DefineDescriptor(Event::ConfirmXpub), &signer), Command::Nothing);
}

#[test]
fn connected_devices_show_the_one_of_the_key() {
    let signer = signer();
    let mut modal = modal(Network::Testnet, &[], &[]);
    modal.chosen_hw = Some(7);
    let list = vec![device(DeviceKind::Ledger, 0x11111111), device(DeviceKind::Ledger, 0xf5acc2fd), device(DeviceKind::Jade, 0xf5acc2fd)];
    modal.update(Message::ConnectedHardwareWallets(list.clone()), &signer);
    assert_eq!(modal.chosen_hw, Some(7));
    assert_eq!(modal.hws, list);
    modal.update(Message::DefineDescriptor(Event::XPubEdited(EXTERNAL.to_string())), &signer);
    modal.update(Message::ConnectedHardwareWallets(list.clone()), &signer);
    assert_eq!(modal.chosen_hw, Some(1));
    modal.update(Message::ConnectedHardwareWallets(vec![list[0]]), &signer);
    assert_eq!(modal.chosen_hw, None);
    assert_eq!(modal.update(Message::Reload, &signer), Command::ListHardwareWallets);
    assert!(modal.hws.is_empty());
    assert_eq!(position(&list, 0xf5acc2fd), Some(1));
    assert_eq!(position(&list, 0x22222222), None);
}

#[test]
fn hot_signer_gives_the_key_of_its_next_account() {
    let signer = signer();
    let mut modal = modal(Network::Bitcoin, &[(0x73c5da0a, hardened(1))], &[(0x73c5da0a, "hot")]);
    modal.chosen_hw = Some(0);
    modal.form_xpub.valid = false;
    assert_eq!(modal.update(Message::UseHotSigner, &signer), Command::Nothing);
    assert_eq!(
        modal.form_xpub.value,
        format!("[73c5da0a/48'/0'/2'/2']{}", hot_xpub(KeyNetwork::Bitcoin, "m/48'/0'/2'/2'"))
    );
    assert!(modal.form_xpub.valid);
    assert!(modal.chosen_signer);
    assert_eq!(modal.chosen_hw, None);
    assert_eq!(modal.form_name.value, "hot");
    assert!(!modal.edit_name);
    let key = ExtendedKey::parse(&modal.form_xpub.value).unwrap();
    assert_eq!(key.fingerprint, 0x73c5da0a);
    assert!(key.has_device_origin());

    let mut fresh = self::modal(Network::Bitcoin, &[], &[]);
    fresh.update(Message::UseHotSigner, &signer);
    assert_eq!(
        fresh.form_xpub.value,
        format!("[73c5da0a/48'/0'/0'/2']{}", hot_xpub(KeyNetwork::Bitcoin, "m/48'/0'/0'/2'"))
    );
    assert_eq!(fresh.form_name.value, "");
    assert!(fresh.edit_name);

    let mut used_up = self::modal(Network::Bitcoin, &[(0x73c5da0a, hardened(0x7fff_ffff))], &[]);
    used_up.update(Message::UseHotSigner, &signer);
    assert_eq!(used_up.form_xpub.value, "");
    assert!(!used_up.chosen_signer);
}

#[test]
fn device_hands_out_one_account_after_the_other() {
    let mut keys = HardwareWalletXpubs::new(device(DeviceKind::Ledger, 0xf5acc2fd));
    assert_eq!(keys.next_account, Some(hardened(0)));
    assert_eq!(
        keys.select(3, Network::Testnet),
        Command::GetExtendedPubkey {
            device: 3,
            fingerprint: 0xf5acc2fd,
            path: vec![hardened(48), hardened(1), hardened(0), hardened(2)],
            reply: XpubReply::Device(3),
        }
    );
    assert!(keys.processing);
    assert_eq!(keys.select(3, Network::Testnet), Command::Nothing);
    keys.update(Err(failure("busy")));
    assert_eq!(keys.error, Some(failure("busy")));
    assert!(!keys.processing);
    assert_eq!(keys.next_account, Some(hardened(0)));
    assert!(matches!(keys.select(3, Network::Testnet), Command::GetExtendedPubkey { .. }));
    assert_eq!(keys.error, None);
    keys.update(Ok(ExtendedKey::parse(EXTERNAL).unwrap()));
    assert_eq!(keys.xpubs, vec![EXTERNAL.to_string()]);
    assert_eq!(keys.next_account, Some(hardened(1)));
    assert_eq!(
        keys.select(0, Network::Bitcoin),
        Command::GetExtendedPubkey {
            device: 0,
            fingerprint: 0xf5acc2fd,
            path: vec![hardened(48), hardened(0), hardened(1), hardened(2)],
            reply: XpubReply::Device(0),
        }
    );
    keys.reset();
    assert!(keys.xpubs.is_empty());
    assert_eq!(keys.next_account, Some(hardened(0)));
    let mut unsupported = HardwareWalletXpubs::new(HardwareWallet::Unsupported { kind: DeviceKind::Jade });
    assert_eq!(unsupported.select(0, Network::Bitcoin), Command::Nothing);
    assert!(!unsupported.processing);
    keys.next_account = Some(hardened(0x7fff_ffff));
    keys.processing = false;
    keys.update(Ok(ExtendedKey::parse(EXTERNAL).unwrap()));
    assert_eq!(keys.next_account, None);
    assert_eq!(keys.select(0, Network::Bitcoin), Command::Nothing);
}

#[test]
fn signer_hands_out_one_account_after_the_other() {
    let mut keys = SignerXpubs::new(signer());
    keys.select(Network::Bitcoin);
    keys.select(Network::Bitcoin);
    assert_eq!(
        keys.xpubs,
        vec![
            format!("[73c5da0a/48'/0'/0'/2']{}", hot_xpub(KeyNetwork::Bitcoin, "m/48'/0'/0'/2'")),
            format!("[73c5da0a/48'/0'/1'/2']{}", hot_xpub(KeyNetwork::Bitcoin, "m/48'/0'/1'/2'")),
        ]
    );
    assert_eq!(keys.next_account, Some(hardened(2)));
    keys.hand_out(Network::Testnet, "tpubX");
    assert_eq!(keys.xpubs[2], "[73c5da0a/48'/1'/2'/2']tpubX");
    keys.reset();
    assert!(keys.xpubs.is_empty());
    assert_eq!(keys.next_account, Some(hardened(0)));
}

#[test]
fn participant_step_forgets_the_keys_on_a_change_of_network() {
    let mut step = ParticipateXpub::new(signer());
    assert_eq!(step.load(), Command::ListHardwareWallets);
    assert_eq!(step.update(Message::Reload), Command::ListHardwareWallets);
    step.update(Message::ConnectedHardwareWallets(vec![device(DeviceKind::Ledger, 0xf5acc2fd)]));
    step.update(Message::Network(Network::Testnet, false));
    assert!(matches!(step.update(Message::Select(0)), Command::GetExtendedPubkey { .. }));
    assert_eq!(step.update(Message::Select(1)), Command::Nothing);
    step.update(Message::ImportXpub(0, Ok(ExtendedKey::parse(EXTERNAL).unwrap())));
    step.update(Message::ImportXpub(4, Ok(ExtendedKey::parse(EXTERNAL).unwrap())));
    step.update(Message::UseHotSigner);
    assert_eq!(step.xpubs_hw[0].xpubs.len(), 1);
    assert_eq!(
        step.xpubs_signer.xpubs,
        vec![format!("[73c5da0a/48'/1'/0'/2']{}", hot_xpub(KeyNetwork::Testnet, "m/48'/1'/0'/2'"))]
    );
    step.update(Message::Network(Network::Testnet, true));
    assert_eq!(step.xpubs_hw[0].xpubs.len(), 1);
    assert!(step.network_valid);
    step.load_context(&Context::new(Network::Testnet), true);
    assert!(!step.network_valid);
    assert_eq!(step.xpubs_signer.xpubs.len(), 1);
    step.update(Message::Network(Network::Bitcoin, false));
    assert!(step.network_valid);
    assert_eq!(step.network, Network::Bitcoin);
    assert!(step.xpubs_hw[0].xpubs.is_empty());
    assert_eq!(step.xpubs_hw[0].next_account, Some(hardened(0)));
    assert!(step.xpubs_signer.xpubs.is_empty());
    step.update(Message::UserActionDone(true));
    assert!(step.shared);
}

#[test]
fn reported_devices_take_the_place_of_those_they_replace() {
    let mut step = ParticipateXpub::new(signer());
    step.update(Message::ConnectedHardwareWallets(vec![
        HardwareWallet::Unsupported { kind: DeviceKind::Ledger },
        device(DeviceKind::Specter, 0xaaaaaaaa),
    ]));
    step.update(Message::Select(1));
    step.update(Message::ImportXpub(1, Ok(ExtendedKey::parse(EXTERNAL).unwrap())));
    step.update(Message::ConnectedHardwareWallets(vec![
        device(DeviceKind::Specter, 0xaaaaaaaa),
        device(DeviceKind::Specter, 0xbbbbbbbb),
        device(DeviceKind::Ledger, 0xcccccccc),
        device(DeviceKind::Ledger, 0xdddddddd),
    ]));
    assert_eq!(
        step.xpubs_hw.iter().map(|d| d.hw).collect::<Vec<HardwareWallet>>(),
        vec![
            device(DeviceKind::Ledger, 0xcccccccc),
            device(DeviceKind::Specter, 0xaaaaaaaa),
            device(DeviceKind::Specter, 0xbbbbbbbb),
            device(DeviceKind::Ledger, 0xdddddddd),
        ]
    );
    assert_eq!(step.xpubs_hw[1].xpubs.len(), 1);
    assert_eq!(step.xpubs_hw[1].next_account, Some(hardened(1)));
    assert!(step.xpubs_hw[2].xpubs.is_empty());
}

#[test]
fn participant_step_keeps_the_signer_that_handed_out_a_key() {
    let mut ctx = Context::new(Network::Bitcoin);
    ctx.signer_is_used = true;
    let mut step = ParticipateXpub::new(signer());
    step.update(Message::Network(Network::Signet, false));
    step.update(Message::ConnectedHardwareWallets(vec![device(DeviceKind::Ledger, 0xf5acc2fd)]));
    assert!(step.apply(&mut ctx));
    assert_eq!(ctx.network, Network::Signet);
    assert!(!ctx.signer_is_used);
    assert!(step.xpubs_hw.is_empty());
    step.update(Message::UseHotSigner);
    assert!(step.apply(&mut ctx));
    assert!(ctx.signer_is_used);
}

#[test]
fn imported_descriptor_is_taken_when_it_was_read() {
    let mut ctx = Context::new(Network::Bitcoin);
    let mut step = ImportDescriptor::new(true);
    assert!(step.change_network);
    assert_eq!(step.update(Message::Network(Network::Signet, true)), Command::Nothing);
    assert_eq!(step.network, Network::Signet);
    assert!(step.network_valid);
    step.load_context(&Context::new(Network::Testnet), true);
    assert_eq!(step.network, Network::Testnet);
    assert!(!step.network_valid);
    step.update(Message::Network(Network::Regtest, false));
    assert!(step.network_valid);
    assert!(!step.apply(&mut ctx, Some("wsh(...)".to_string())));
    assert_eq!(ctx.network, Network::Regtest);
    assert_eq!(ctx.descriptor, None);
    step.update(Message::DefineDescriptor(Event::ImportDescriptor("typed".to_string())));
    assert_eq!(step.imported_descriptor.value, "typed");
    assert!(!step.apply(&mut ctx, None));
    assert!(!step.imported_descriptor.valid);
    assert_eq!(ctx.descriptor, None);
    assert!(step.apply(&mut ctx, Some("wsh(...)".to_string())));
    assert!(step.imported_descriptor.valid);
    assert_eq!(ctx.descriptor, Some("wsh(...)".to_string()));
}

fn register_step(descriptor: &str) -> RegisterDescriptor {
    let mut ctx = Context::new(Network::Bitcoin);
    ctx.descriptor = Some(descriptor.to_string());
    let mut step = RegisterDescriptor::default();
    step.load_context(&ctx);
    assert_eq!(step.load(), Command::ListHardwareWallets);
    step.update(Message::ConnectedHardwareWallets(vec![
        device(DeviceKind::Ledger, 0xaaaaaaaa),
        HardwareWallet::Unsupported { kind: DeviceKind::Specter },
        device(DeviceKind::BitBox02, 0xbbbbbbbb),
    ]));
    step
}

#[test]
fn chosen_device_is_asked_to_register_the_descriptor() {
    let mut step = register_step("wsh(policy)");
    step.error = Some(failure("old"));
    assert_eq!(
        step.update(Message::Select(0)),
        Command::RegisterWallet {
            device: 0,
            fingerprint: 0xaaaaaaaa,
            name: "Liana".to_string(),
            descriptor: "wsh(policy)".to_string(),
        }
    );
    assert!(step.processing);
    assert_eq!(step.chosen_hw, Some(0));
    assert_eq!(step.error, None);
    assert_eq!(step.update(Message::Select(2)), Command::Nothing);
    assert_eq!(step.chosen_hw, Some(0));
    step.update(Message::WalletRegistered(Ok((0xaaaaaaaa, Some([7; 32])))));
    assert!(!step.processing);
    assert_eq!(step.chosen_hw, None);
    assert!(step.registered.contains(&0xaaaaaaaa));
    assert_eq!(step.hmacs, vec![(0xaaaaaaaa, DeviceKind::Ledger, Some([7; 32]))]);
    assert_eq!(step.update(Message::Select(1)), Command::Nothing);
    assert_eq!(step.update(Message::Select(3)), Command::Nothing);
    assert!(!step.processing);
}

#[test]
fn registered_device_is_not_asked_again() {
    let mut step = register_step("wsh(policy)");
    step.update(Message::Select(0));
    step.update(Message::WalletRegistered(Ok((0xaaaaaaaa, None))));
    assert_eq!(step.hmacs, vec![(0xaaaaaaaa, DeviceKind::Ledger, None)]);
    assert_eq!(step.update(Message::Select(0)), Command::Nothing);
    assert!(!step.processing);
    assert_eq!(step.chosen_hw, None);
    assert_eq!(step.registered.len(), 1);
    assert_eq!(step.hmacs.len(), 1);
    assert!(matches!(step.update(Message::Select(2)), Command::RegisterWallet { device: 2, .. }));
}

#[test]
fn failed_registration_leaves_the_registered_devices() {
    let mut step = register_step("wsh(policy)");
    step.update(Message::Select(0));
    step.update(Message::WalletRegistered(Ok((0xaaaaaaaa, Some([1; 32])))));
    step.update(Message::Select(2));
    step.update(Message::WalletRegistered(Err(failure("refused"))));
    assert_eq!(step.error, Some(failure("refused")));
    assert!(!step.processing);
    assert_eq!(step.chosen_hw, None);
    assert_eq!(step.registered.len(), 1);
    assert!(step.registered.contains(&0xaaaaaaaa));
    assert_eq!(step.hmacs, vec![(0xaaaaaaaa, DeviceKind::Ledger, Some([1; 32]))]);
    assert!(matches!(step.update(Message::Select(2)), Command::RegisterWallet { device: 2, .. }));
    step.update(Message::WalletRegistered(Ok((0xbbbbbbbb, None))));
    assert_eq!(step.registered.len(), 2);
    let mut ctx = Context::new(Network::Bitcoin);
    ctx.hws.push((DeviceKind::Jade, 1, None));
    assert!(step.apply(&mut ctx));
    assert_eq!(
        ctx.hws,
        vec![
            (DeviceKind::Jade, 1, None),
            (DeviceKind::Ledger, 0xaaaaaaaa, Some([1; 32])),
            (DeviceKind::BitBox02, 0xbbbbbbbb, None),
        ]
    );
}

#[test]
fn answer_of_a_device_that_is_gone_is_dropped() {
    let mut step = register_step("wsh(policy)");
    step.update(Message::Select(0));
    assert_eq!(step.update(Message::Reload), Command::ListHardwareWallets);
    assert!(step.hws.is_empty());
    step.update(Message::WalletRegistered(Ok((0xaaaaaaaa, None))));
    assert!(!step.processing);
    assert!(step.registered.is_empty());
    assert!(step.hmacs.is_empty());
    step.update(Message::UserActionDone(true));
    assert!(step.done);
}

#[test]
fn nothing_is_registered_without_a_descriptor() {
    let mut step = RegisterDescriptor::default();
    step.update(Message::ConnectedHardwareWallets(vec![device(DeviceKind::Ledger, 0xaaaaaaaa)]));
    assert_eq!(step.update(Message::Select(0)), Command::Nothing);
    assert!(!step.processing);
}

#[test]
fn backup_step_keeps_the_descriptor() {
    let mut ctx = Context::new(Network::Bitcoin);
    ctx.descriptor = Some("wsh(policy)".to_string());
    let mut step = BackupDescriptor::default();
    assert!(!step.done);
    step.load_context(&ctx);
    assert_eq!(step.descriptor, Some("wsh(policy)".to_string()));
    assert_eq!(step.update(Message::UserActionDone(true)), Command::Nothing);
    assert!(step.done);
    step.update(Message::Close);
    assert!(step.done);
}

#[test]
fn answers_of_devices_become_events() {
    let path = vec![hardened(48), hardened(1), hardened(0), hardened(2)];
    let key = get_extended_pubkey(0xf5acc2fd, &path, Ok(TPUB.to_string())).unwrap();
    assert_eq!(key, ExtendedKey::parse(EXTERNAL).unwrap());
    assert_eq!(get_extended_pubkey(0xf5acc2fd, &path, Err(failure("gone"))), Err(failure("gone")));
    assert!(get_extended_pubkey(0xf5acc2fd, &path, Ok("junk".to_string())).is_err());
    assert_eq!(register_wallet(7, Ok(Some([9; 32]))), Ok((7, Some([9; 32]))));
    assert_eq!(register_wallet(7, Ok(None)), Ok((7, None)));
    assert_eq!(register_wallet(7, Err(failure("no"))), Err(failure("no")));
    assert_eq!(
        xpub_imported(XpubReply::Import, Err(failure("no"))),
        Message::DefineDescriptor(Event::HWXpubImported(Err(failure("no"))))
    );
    assert_eq!(
        xpub_imported(XpubReply::Device(3), Ok(key.clone())),
        Message::ImportXpub(3, Ok(key))
    );
}

#[test]
fn device_tells_its_kind_and_fingerprint() {
    let supported = device(DeviceKind::Coldcard, 5);
    let unsupported = HardwareWallet::Unsupported { kind: DeviceKind::SpecterSimulator };
    assert_eq!(supported.kind(), DeviceKind::Coldcard);
    assert_eq!(supported.fingerprint(), Some(5));
    assert!(supported.is_supported());
    assert_eq!(unsupported.kind(), DeviceKind::SpecterSimulator);
    assert_eq!(unsupported.fingerprint(), None);
    assert!(!unsupported.is_supported());
}
