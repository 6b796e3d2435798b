//! The step in which a participant hands out keys for a policy that is
//! defined elsewhere: keys of connected devices and of the software signer,
//! one account after the other.

use vstd::prelude::*;
use crate::command::{Command, XpubReply};
use crate::context::Context;
use crate::edit::{answer_view, asks_key};
use crate::hw::HardwareWallet;
use crate::key::{ExtendedKey, ExtendedKeyView};
use crate::message::{Error, Message};
use crate::network::Network;
use crate::path::{
    ChildNumber,
    Fingerprint,
    child_index,
    generate_derivation_path,
    hardened,
    spec_hardened,
    spec_next_account_index,
    standard_path,
    HARDENED_BIT,
};
use crate::policy::text_views;
use crate::signer::Signer;
use crate::text::{key_text, spec_key_text};

verus! {

/// The account that follows the one that was just handed out.
pub open spec fn spec_following(account: Option<ChildNumber>) -> Option<ChildNumber> {
    match account {
        Some(account) => spec_next_account_index(Some(account)),
        None => None,
    }
}

fn following(account: Option<ChildNumber>) -> (next: Option<ChildNumber>)
    ensures
        next == spec_following(account),
{
    match account {
        Some(account) => {
            let index = child_index(account);
            if index < HARDENED_BIT - 1 {
                Some(hardened(index + 1))
            } else {
                None
            }
        },
        None => None,
    }
}

/// A connected device and the keys it has handed out.
pub struct HardwareWalletXpubs {
    pub hw: HardwareWallet,
    /// The keys handed out so far, as text.
    pub xpubs: Vec<String>,
    /// Whether the device was asked for a key and has not answered yet.
    pub processing: bool,
    pub error: Option<Error>,
    /// The account of the key to ask for next; none once all are used up.
    pub next_account: Option<ChildNumber>,
}

pub struct HardwareWalletXpubsView {
    pub hw: HardwareWallet,
    pub xpubs: Seq<Seq<char>>,
    pub processing: bool,
    pub error: Option<Seq<char>>,
    pub next_account: Option<ChildNumber>,
}

impl View for HardwareWalletXpubs {
    type V = HardwareWalletXpubsView;

    open spec fn view(&self) -> HardwareWalletXpubsView {
        HardwareWalletXpubsView {
            hw: self.hw,
            xpubs: text_views(self.xpubs@),
            processing: self.processing,
            error: match self.error {
                Some(error) => Some(error.message@),
                None => None,
            },
            next_account: self.next_account,
        }
    }
}

/// A device that has handed out no key yet.
pub open spec fn fresh(hw: HardwareWallet) -> HardwareWalletXpubsView {
    HardwareWalletXpubsView {
        hw: hw,
        xpubs: Seq::empty(),
        processing: false,
        error: None,
        next_account: Some(spec_hardened(0)),
    }
}

impl HardwareWalletXpubsView {
    /// The device and the account that a choice of this device asks a key
    /// for: none while the device is at work, for a device that is not
    /// supported, and once the accounts are used up.
    pub open spec fn request(self) -> Option<(Fingerprint, ChildNumber)> {
        match (self.hw, self.next_account) {
            (HardwareWallet::Supported { fingerprint, .. }, Some(account)) => if self.processing {
                None
            } else {
                Some((fingerprint, account))
            },
            _ => None,
        }
    }

    /// The state after the device was chosen.
    pub open spec fn selected(self) -> Self {
        if self.request() is Some {
            HardwareWalletXpubsView { processing: true, error: None, ..self }
        } else {
            self
        }
    }

    /// The state after the device answered: its key joins the keys handed
    /// out and the next account is due, or its error is kept.
    pub open spec fn answered(self, answer: Result<ExtendedKeyView, Seq<char>>) -> Self {
        match answer {
            Ok(key) => HardwareWalletXpubsView {
                processing: false,
                error: None,
                next_account: spec_following(self.next_account),
                xpubs: self.xpubs.push(key.text),
                ..self
            },
            Err(message) => HardwareWalletXpubsView {
                processing: false,
                error: Some(message),
                ..self
            },
        }
    }

    /// The state with nothing handed out.
    pub open spec fn cleared(self) -> Self {
        HardwareWalletXpubsView {
            error: None,
            next_account: Some(spec_hardened(0)),
            xpubs: Seq::empty(),
            ..self
        }
    }
}

impl HardwareWalletXpubs {
    pub fn new(hw: HardwareWallet) -> (device: HardwareWalletXpubs)
        ensures
            device@ == fresh(hw),
    {
        let device = HardwareWalletXpubs {
            hw,
            xpubs: Vec::new(),
            processing: false,
            error: None,
            next_account: Some(hardened(0)),
        };
        proof {
            assert(device@.xpubs =~= Seq::empty());
        }
        device
    }

    /// Takes the answer of the device.
    pub fn update(&mut self, answer: Result<ExtendedKey, Error>)
        ensures
            final(self)@ == old(self)@.answered(answer_view(answer)),
    {
        self.processing = false;
        match answer {
            Err(error) => {
                self.error = Some(error);
            },
            Ok(key) => {
                self.error = None;
                self.next_account = following(self.next_account);
                self.xpubs.push(key.text);
                proof {
                    assert(self@.xpubs =~= old(self)@.xpubs.push(key@.text));
                }
            },
        }
    }

    /// Forgets the keys handed out.
    pub fn reset(&mut self)
        ensures
            final(self)@ == old(self)@.cleared(),
    {
        self.error = None;
        self.next_account = Some(hardened(0));
        self.xpubs = Vec::new();
        proof {
            assert(self@.xpubs =~= Seq::empty());
        }
    }

    /// Asks the device, which stands at place `i`, for the key of its next
    /// account on a network. Does nothing where no request is due.
    pub fn select(&mut self, i: usize, network: Network) -> (command: Command)
        ensures
            final(self)@ == old(self)@.selected(),
            match old(self)@.request() {
                Some((fingerprint, account)) => asks_key(
                    command,
                    i,
                    fingerprint,
                    standard_path(network, account),
                    XpubReply::Device(i),
                ),
                None => command is Nothing,
            },
    {
        if self.processing {
            return Command::Nothing;
        }
        match (self.hw, self.next_account) {
            (HardwareWallet::Supported { fingerprint, .. }, Some(account)) => {
                self.processing = true;
                self.error = None;
                Command::GetExtendedPubkey {
                    device: i,
                    fingerprint,
                    path: generate_derivation_path(network, account),
                    reply: XpubReply::Device(i),
                }
            },
            _ => Command::Nothing,
        }
    }
}

/// The software signer and the keys it has handed out.
pub struct SignerXpubs {
    pub signer: Signer,
    /// The keys handed out so far, as text.
    pub xpubs: Vec<String>,
    /// The account of the key to hand out next; none once all are used up.
    pub next_account: Option<ChildNumber>,
}

pub struct SignerXpubsView {
    pub signer: Signer,
    pub xpubs: Seq<Seq<char>>,
    pub next_account: Option<ChildNumber>,
}

impl View for SignerXpubs {
    type V = SignerXpubsView;

    open spec fn view(&self) -> SignerXpubsView {
        SignerXpubsView {
            signer: self.signer,
            xpubs: text_views(self.xpubs@),
            next_account: self.next_account,
        }
    }
}

impl SignerXpubsView {
    /// The state after the signer gave the extended key `xpub` for its next
    /// account on a network: the key, annotated with its origin, joins the
    /// keys handed out, and the account after it is due.
    pub open spec fn handed_out(self, network: Network, xpub: Seq<char>) -> Self {
        match self.next_account {
            Some(account) => SignerXpubsView {
                xpubs: self.xpubs.push(
                    spec_key_text(
                        self.signer.spec_fingerprint(),
                        standard_path(network, account),
                        xpub,
                    ),
                ),
                next_account: spec_following(self.next_account),
                ..self
            },
            None => self,
        }
    }

    /// The state after the signer was chosen: it hands out the key of its
    /// next account on the network, unless its accounts are used up.
    pub open spec fn selected(self, network: Network) -> Self {
        match self.next_account {
            Some(account) => self.handed_out(
                network,
                self.signer.spec_xpub_at(standard_path(network, account)),
            ),
            None => self,
        }
    }

    pub open spec fn cleared(self) -> Self {
        SignerXpubsView { xpubs: Seq::empty(), next_account: Some(spec_hardened(0)), ..self }
    }

    /// The state after a network was chosen: the signer encodes its keys
    /// for it, and on a change of network the keys handed out so far are
    /// forgotten.
    pub open spec fn on_network(self, network: Network, changed: bool) -> Self {
        let kept = if changed {
            self.cleared()
        } else {
            self
        };
        SignerXpubsView { signer: self.signer.on_network(network), ..kept }
    }
}

impl SignerXpubs {
    pub fn new(signer: Signer) -> (keys: SignerXpubs)
        ensures
            keys@ == (SignerXpubsView {
                signer: signer,
                xpubs: Seq::empty(),
                next_account: Some(spec_hardened(0)),
            }),
    {
        let keys = SignerXpubs { signer, xpubs: Vec::new(), next_account: Some(hardened(0)) };
        proof {
            assert(keys@.xpubs =~= Seq::empty());
        }
        keys
    }

    /// Forgets the keys handed out.
    pub fn reset(&mut self)
        ensures
            final(self)@ == old(self)@.cleared(),
    {
        self.xpubs = Vec::new();
        self.next_account = Some(hardened(0));
        proof {
            assert(self@.xpubs =~= Seq::empty());
        }
    }

    /// Takes the extended key that the signer gave for its next account.
    pub fn hand_out(&mut self, network: Network, xpub: &str)
        ensures
            final(self)@ == old(self)@.handed_out(network, xpub@),
    {
        if let Some(account) = self.next_account {
            let path = generate_derivation_path(network, account);
            self.next_account = following(self.next_account);
            self.xpubs.push(key_text(self.signer.fingerprint(), &path, xpub));
            proof {
                assert(self@.xpubs =~= old(self)@.xpubs.push(
                    spec_key_text(
                        old(self)@.signer.spec_fingerprint(),
                        standard_path(network, account),
                        xpub@,
                    ),
                ));
            }
        }
    }

    /// Has the signer hand out the key of its next account on a network.
    pub fn select(&mut self, network: Network)
        ensures
            final(self)@ == old(self)@.selected(network),
    {
        if let Some(account) = self.next_account {
            let path = generate_derivation_path(network, account);
            let xpub = self.signer.get_extended_pubkey(&path);
            self.hand_out(network, xpub.as_str());
        }
    }
}

/// Whether a device in the list is the one that a newly reported device
/// takes the place of: it is of the same kind, and either has the same
/// fingerprint or was not supported.
pub open spec fn replaces(listed: HardwareWallet, reported: HardwareWallet) -> bool {
    listed.spec_kind() == reported.spec_kind() && (listed.spec_fingerprint()
        == reported.spec_fingerprint() || !listed.spec_is_supported())
}

/// The place of the first device that a reported device takes the place of.
pub open spec fn first_replaced(
    devices: Seq<HardwareWalletXpubsView>,
    reported: HardwareWallet,
) -> Option<int>
    decreases devices.len(),
{
    if devices.len() == 0 {
        None
    } else {
        match first_replaced(devices.drop_last(), reported) {
            Some(i) => Some(i),
            None => if replaces(devices.last().hw, reported) {
                Some(devices.len() - 1)
            } else {
                None
            },
        }
    }
}

/// The list after one device was reported: the device takes the place of
/// the first one that it replaces, whose keys stay; a device that replaces
/// none joins the end of the list.
pub open spec fn taken_in(
    devices: Seq<HardwareWalletXpubsView>,
    reported: HardwareWallet,
) -> Seq<HardwareWalletXpubsView> {
    match first_replaced(devices, reported) {
        Some(i) => devices.update(i, HardwareWalletXpubsView { hw: reported, ..devices[i] }),
        None => devices.push(fresh(reported)),
    }
}

/// The list after devices were reported, one after the other.
pub open spec fn merged(
    devices: Seq<HardwareWalletXpubsView>,
    reported: Seq<HardwareWallet>,
) -> Seq<HardwareWalletXpubsView>
    decreases reported.len(),
{
    if reported.len() == 0 {
        devices
    } else {
        taken_in(merged(devices, reported.drop_last()), reported.last())
    }
}

pub open spec fn device_views(devices: Seq<HardwareWalletXpubs>) -> Seq<HardwareWalletXpubsView> {
    Seq::new(devices.len(), |i: int| devices[i]@)
}

proof fn lemma_first_replaced_stays(
    devices: Seq<HardwareWalletXpubsView>,
    reported: HardwareWallet,
    n: int,
)
    requires
        0 <= n <= devices.len(),
        first_replaced(devices.take(n), reported) is Some,
    ensures
        first_replaced(devices, reported) == first_replaced(devices.take(n), reported),
    decreases devices.len() - n,
{
    if n == devices.len() {
        assert(devices.take(n) =~= devices);
    } else {
        assert(devices.take(n + 1).drop_last() =~= devices.take(n));
        lemma_first_replaced_stays(devices, reported, n + 1);
    }
}

fn find_replaced(devices: &Vec<HardwareWalletXpubs>, reported: HardwareWallet) -> (found: Option<
    usize,
>)
    ensures
        match found {
            Some(i) => first_replaced(device_views(devices@), reported) == Some(i as int) && i
                < devices@.len(),
            None => first_replaced(device_views(devices@), reported) is None,
        },
{
    let ghost views = device_views(devices@);
    let mut i: usize = 0;
    while i < devices.len()
        invariant
            0 <= i <= devices@.len(),
            views == device_views(devices@),
            first_replaced(views.take(i as int), reported) is None,
        decreases devices@.len() - i,
    {
        proof {
            assert(views.take(i + 1).drop_last() =~= views.take(i as int));
            assert(views.take(i + 1).last() == devices@[i as int]@);
        }
        let listed = devices[i].hw;
        if listed.kind() == reported.kind() && (listed.fingerprint() == reported.fingerprint()
            || !listed.is_supported()) {
            proof {
                lemma_first_replaced_stays(views, reported, i + 1);
            }
            return Some(i);
        }
        i += 1;
    }
    proof {
        assert(views.take(devices@.len() as int) =~= views);
    }
    None
}

/// The state of the step.
pub struct ParticipateXpub {
    pub network: Network,
    /// Whether the data directory is free for a wallet of the network.
    pub network_valid: bool,
    /// Whether a data directory is known.
    pub data_dir_set: bool,
    /// Whether the participant says that the keys were shared.
    pub shared: bool,
    pub xpubs_hw: Vec<HardwareWalletXpubs>,
    pub xpubs_signer: SignerXpubs,
}

pub struct ParticipateXpubView {
    pub network: Network,
    pub network_valid: bool,
    pub data_dir_set: bool,
    pub shared: bool,
    pub xpubs_hw: Seq<HardwareWalletXpubsView>,
    pub xpubs_signer: SignerXpubsView,
}

impl View for ParticipateXpub {
    type V = ParticipateXpubView;

    open spec fn view(&self) -> ParticipateXpubView {
        ParticipateXpubView {
            network: self.network,
            network_valid: self.network_valid,
            data_dir_set: self.data_dir_set,
            shared: self.shared,
            xpubs_hw: device_views(self.xpubs_hw@),
            xpubs_signer: self.xpubs_signer@,
        }
    }
}

impl ParticipateXpubView {
    /// The state after a network was chosen: on a change of network, the
    /// keys handed out so far are forgotten.
    pub open spec fn on_network(self, network: Network, taken: bool) -> ParticipateXpubView {
        ParticipateXpubView {
            network: network,
            network_valid: if self.data_dir_set {
                !taken
            } else {
                self.network_valid
            },
            xpubs_hw: if network != self.network {
                Seq::new(self.xpubs_hw.len(), |i: int| self.xpubs_hw[i].cleared())
            } else {
                self.xpubs_hw
            },
            xpubs_signer: self.xpubs_signer.on_network(network, network != self.network),
            ..self
        }
    }

    /// What an event makes of the state.
    pub open spec fn spec_update(self, message: Message) -> Self {
        match message {
            Message::Network(network, taken) => self.on_network(network, taken),
            Message::UseHotSigner => ParticipateXpubView {
                xpubs_signer: self.xpubs_signer.selected(self.network),
                ..self
            },
            Message::UserActionDone(shared) => ParticipateXpubView { shared: shared, ..self },
            Message::ImportXpub(i, answer) => if i < self.xpubs_hw.len() {
                ParticipateXpubView {
                    xpubs_hw: self.xpubs_hw.update(
                        i as int,
                        self.xpubs_hw[i as int].answered(answer_view(answer)),
                    ),
                    ..self
                }
            } else {
                self
            },
            Message::Select(i) => if i < self.xpubs_hw.len() {
                ParticipateXpubView {
                    xpubs_hw: self.xpubs_hw.update(i as int, self.xpubs_hw[i as int].selected()),
                    ..self
                }
            } else {
                self
            },
            Message::ConnectedHardwareWallets(hws) => ParticipateXpubView {
                xpubs_hw: merged(self.xpubs_hw, hws@),
                ..self
            },
            _ => self,
        }
    }
}

/// Whether `post` and `command` are what an event makes of the state `pre`.
///
/// A device is asked for a key only by `Select`, and only where a request
/// is due; the list of devices is asked for only by `Reload`.
pub open spec fn updated(
    pre: ParticipateXpubView,
    message: Message,
    post: ParticipateXpubView,
    command: Command,
) -> bool {
    &&& post == pre.spec_update(message)
    &&& match message {
        Message::Select(i) => if i < pre.xpubs_hw.len() {
            match pre.xpubs_hw[i as int].request() {
                Some((fingerprint, account)) => asks_key(
                    command,
                    i,
                    fingerprint,
                    standard_path(pre.network, account),
                    XpubReply::Device(i),
                ),
                None => command is Nothing,
            }
        } else {
            command is Nothing
        },
        Message::Reload => command is ListHardwareWallets,
        _ => command is Nothing,
    }
}

impl ParticipateXpub {
    /// The step at its start, on the production network.
    pub fn new(signer: Signer) -> (step: ParticipateXpub)
        ensures
            step@ == (ParticipateXpubView {
                network: Network::Bitcoin,
                network_valid: true,
                data_dir_set: false,
                shared: false,
                xpubs_hw: Seq::empty(),
                xpubs_signer: SignerXpubsView {
                    signer: signer,
                    xpubs: Seq::empty(),
                    next_account: Some(spec_hardened(0)),
                },
            }),
    {
        let step = ParticipateXpub {
            network: Network::Bitcoin,
            network_valid: true,
            data_dir_set: false,
            xpubs_hw: Vec::new(),
            shared: false,
            xpubs_signer: SignerXpubs::new(signer),
        };
        proof {
            assert(step@.xpubs_hw =~= Seq::empty());
        }
        step
    }

    fn reset_devices(&mut self)
        ensures
            final(self)@ == (ParticipateXpubView {
                xpubs_hw: Seq::new(
                    old(self)@.xpubs_hw.len(),
                    |i: int| old(self)@.xpubs_hw[i].cleared(),
                ),
                ..old(self)@
            }),
    {
        let mut i: usize = 0;
        while i < self.xpubs_hw.len()
            invariant
                0 <= i <= self.xpubs_hw@.len(),
                self.xpubs_hw@.len() == old(self).xpubs_hw@.len(),
                self@ == (ParticipateXpubView { xpubs_hw: self@.xpubs_hw, ..old(self)@ }),
                forall|k: int|
                    0 <= k < i ==> (#[trigger] self.xpubs_hw@[k])@ == old(
                        self,
                    ).xpubs_hw@[k]@.cleared(),
                forall|k: int|
                    i <= k < self.xpubs_hw@.len() ==> self.xpubs_hw@[k] == old(self).xpubs_hw@[k],
            decreases self.xpubs_hw@.len() - i,
        {
            self.xpubs_hw[i].reset();
            i += 1;
        }
        proof {
            assert(self@.xpubs_hw =~= Seq::new(
                old(self)@.xpubs_hw.len(),
                |i: int| old(self)@.xpubs_hw[i].cleared(),
            ));
        }
    }

    /// Moves the step to a network.
    pub fn set_network(&mut self, network: Network, taken: bool)
        ensures
            final(self)@ == old(self)@.on_network(network, taken),
    {
        if network != self.network {
            self.reset_devices();
            self.xpubs_signer.reset();
        }
        self.network = network;
        self.xpubs_signer.signer.set_network(network);
        if self.data_dir_set {
            self.network_valid = !taken;
        }
    }

    /// Takes the list of connected devices.
    pub fn connect(&mut self, hws: Vec<HardwareWallet>)
        ensures
            final(self)@ == (ParticipateXpubView {
                xpubs_hw: merged(old(self)@.xpubs_hw, hws@),
                ..old(self)@
            }),
    {
        let mut k: usize = 0;
        while k < hws.len()
            invariant
                0 <= k <= hws@.len(),
                self@ == (ParticipateXpubView {
                    xpubs_hw: merged(old(self)@.xpubs_hw, hws@.take(k as int)),
                    ..old(self)@
                }),
            decreases hws@.len() - k,
        {
            let reported = hws[k];
            let ghost before = self@.xpubs_hw;
            proof {
                assert(hws@.take(k + 1).drop_last() =~= hws@.take(k as int));
                assert(hws@.take(k + 1).last() == reported);
            }
            match find_replaced(&self.xpubs_hw, reported) {
                Some(i) => {
                    self.xpubs_hw[i].hw = reported;
                    proof {
                        assert(self@.xpubs_hw =~= taken_in(before, reported));
                    }
                },
                None => {
                    self.xpubs_hw.push(HardwareWalletXpubs::new(reported));
                    proof {
                        assert(self@.xpubs_hw =~= taken_in(before, reported));
                    }
                },
            }
            k += 1;
        }
        proof {
            assert(hws@.take(hws@.len() as int) =~= hws@);
        }
    }

    /// What is to be done when the step opens: list the devices.
    pub fn load(&self) -> (command: Command)
        ensures
            command is ListHardwareWallets,
    {
        Command::ListHardwareWallets
    }

    /// Takes an event and says what is to be done.
    pub fn update(&mut self, message: Message) -> (command: Command)
        ensures
            updated(old(self)@, message, final(self)@, command),
    {
        match message {
            Message::Network(network, taken) => {
                self.set_network(network, taken);
            },
            Message::UserActionDone(shared) => {
                self.shared = shared;
            },
            Message::ImportXpub(i, answer) => {
                if i < self.xpubs_hw.len() {
                    self.xpubs_hw[i].update(answer);
                    proof {
                        assert(self@.xpubs_hw =~= old(self)@.xpubs_hw.update(
                            i as int,
                            old(self)@.xpubs_hw[i as int].answered(answer_view(answer)),
                        ));
                    }
                }
            },
            Message::UseHotSigner => {
                self.xpubs_signer.select(self.network);
            },
            Message::Select(i) => {
                if i < self.xpubs_hw.len() {
                    let command = self.xpubs_hw[i].select(i, self.network);
                    proof {
                        assert(self@.xpubs_hw =~= old(self)@.xpubs_hw.update(
                            i as int,
                            old(self)@.xpubs_hw[i as int].selected(),
                        ));
                    }
                    return command;
                }
            },
            Message::ConnectedHardwareWallets(hws) => {
                self.connect(hws);
            },
            Message::Reload => {
                return self.load();
            },
            _ => {},
        }
        Command::Nothing
    }

    /// Takes the network of the context, now that the data directory is
    /// known. The flag tells whether that directory already holds a wallet
    /// for the network.
    pub fn load_context(&mut self, ctx: &Context, taken: bool)
        ensures
            final(self)@ == (ParticipateXpubView { data_dir_set: true, ..old(self)@ }).on_network(
                ctx.network,
                taken,
            ),
    {
        self.data_dir_set = true;
        self.set_network(ctx.network, taken);
    }

    /// Hands the outcome of the step to the context: the network, and
    /// whether the software signer handed out a key. The devices are let
    /// go of.
    pub fn apply(&mut self, ctx: &mut Context) -> (committed: bool)
        ensures
            committed,
            final(self)@ == (ParticipateXpubView { xpubs_hw: Seq::empty(), ..old(self)@ }),
            *final(ctx) == (Context {
                network: old(self).network,
                signer_is_used: old(self)@.xpubs_signer.xpubs.len() > 0,
                ..*old(ctx)
            }),
    {
        ctx.network = self.network;
        self.xpubs_hw = Vec::new();
        ctx.signer_is_used = self.xpubs_signer.xpubs.len() > 0;
        proof {
            assert(self@.xpubs_hw =~= Seq::empty());
        }
        true
    }
}

} // verus!
