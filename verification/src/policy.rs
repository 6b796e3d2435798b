//! From the keys of the two sets to the descriptor of the policy.
//!
//! The library decides which keys enter the policy, in which form and
//! under which threshold. The policy itself is checked and compiled by the
//! wallet library. What comes back is a function of what was asked for:
//! the library gives it a name, and says of every assembly that its outcome
//! is the one that goes by that name.

use vstd::prelude::*;
use vstd::string::*;
use std::str::FromStr;
use liana::descriptors::{LianaDescriptor, LianaPolicy, PathInfo};
use liana::miniscript::descriptor::DescriptorPublicKey;
use crate::context::KeySetting;
use crate::key::{ExtendedKey, ExtendedKeyView, KeyKind, parsed_key};
use crate::path::Fingerprint;
use crate::slot::{DescriptorKey, SlotView, slot_views};
use crate::text::{key_text, spec_key_text};

verus! {

/// The keys of one spending path.
#[derive(Clone, Debug, PartialEq, Eq)]
pub enum PolicyPath {
    /// One key expression, which signs alone.
    Single(String),
    /// A threshold, and the key expressions of which that many sign.
    Multi(usize, Vec<String>),
}

pub enum PolicyPathView {
    Single(Seq<char>),
    Multi(usize, Seq<Seq<char>>),
}

impl View for PolicyPath {
    type V = PolicyPathView;

    open spec fn view(&self) -> PolicyPathView {
        match *self {
            PolicyPath::Single(key) => PolicyPathView::Single(key@),
            PolicyPath::Multi(threshold, keys) => PolicyPathView::Multi(
                threshold,
                text_views(keys@),
            ),
        }
    }
}

impl PolicyPathView {
    /// The key expressions of the path.
    pub open spec fn keys(self) -> Seq<Seq<char>> {
        match self {
            PolicyPathView::Single(key) => seq![key],
            PolicyPathView::Multi(_, keys) => keys,
        }
    }

    /// Whether the descriptor library reads every key of the path.
    pub open spec fn keys_read(self) -> bool {
        forall|i: int| 0 <= i < self.keys().len() ==> parsed_key(#[trigger] self.keys()[i]) is Some
    }
}

/// What the wallet library is asked to compile.
#[derive(Clone, Debug, PartialEq, Eq)]
pub struct PolicyRequest {
    /// The path that may spend at once.
    pub primary: PolicyPath,
    /// The path that may spend once the timelock has run out.
    pub recovery: PolicyPath,
    /// The number of blocks after which the recovery path opens.
    pub timelock: u16,
}

pub struct PolicyRequestView {
    pub primary: PolicyPathView,
    pub recovery: PolicyPathView,
    pub timelock: u16,
}

impl View for PolicyRequest {
    type V = PolicyRequestView;

    open spec fn view(&self) -> PolicyRequestView {
        PolicyRequestView {
            primary: self.primary@,
            recovery: self.recovery@,
            timelock: self.timelock,
        }
    }
}

impl PolicyRequestView {
    /// Whether the descriptor library reads all the keys of the request.
    pub open spec fn keys_read(self) -> bool {
        self.primary.keys_read() && self.recovery.keys_read()
    }
}

/// What the wallet library makes of a request whose keys all read: the
/// descriptor of the policy, as text, or the message with which it refuses
/// the policy.
pub uninterp spec fn compiled_policy(request: PolicyRequestView) -> Result<Seq<char>, Seq<char>>;

pub open spec fn compiled_view(outcome: Option<Result<String, String>>) -> Option<
    Result<Seq<char>, Seq<char>>,
> {
    match outcome {
        Some(Ok(text)) => Some(Ok(text@)),
        Some(Err(message)) => Some(Err(message@)),
        None => None,
    }
}

/// Builds the two paths as `PathInfo::Single` and `PathInfo::Multi`, their
/// keys read with `DescriptorPublicKey::from_str`, and calls
/// `LianaPolicy::new` with the primary path and the one recovery path
/// behind the timelock, then `LianaDescriptor::new`. Trusted: there is an
/// outcome exactly when the parser accepts every key; it is the text that
/// the descriptor displays as, or the text that the refusal of the policy
/// displays as; and a timelock of zero is refused. The compiler behind
/// these calls keeps its candidates in ordered maps and draws on neither
/// chance nor time, so that one request has one outcome; its authors do
/// not promise the same text from another version of it.
#[verifier::external_body]
fn compile_request(request: &PolicyRequest) -> (outcome: Option<Result<String, String>>)
    ensures
        compiled_view(outcome) == if request@.keys_read() {
            Some(compiled_policy(request@))
        } else {
            None
        },
        request.timelock == 0 ==> !(outcome matches Some(Ok(_))),
{
    let [primary, recovery] = [&request.primary, &request.recovery].map(|path| match path {
        PolicyPath::Single(key) => DescriptorPublicKey::from_str(key).map(PathInfo::Single),
        PolicyPath::Multi(threshold, keys) => keys.iter().map(|key| DescriptorPublicKey::from_str(key)).collect::<Result<_, _>>().map(|keys| PathInfo::Multi(*threshold, keys)),
    });
    let policy = LianaPolicy::new(primary.ok()?, [(request.timelock, recovery.ok()?)].into_iter().collect());
    Some(policy.map(|policy| LianaDescriptor::new(policy).to_string()).map_err(|error| error.to_string()))
}

/// Why no descriptor was assembled.
#[derive(Clone, Debug, PartialEq, Eq)]
pub enum AssemblyError {
    /// The data directory already holds a wallet for the network.
    NetworkInvalid,
    /// The timelock field does not hold a 16-bit unsigned integer.
    InvalidTimelock,
    /// One of the two sets holds no key that can enter a policy.
    EmptyKeySet,
    /// The threshold of a set of several keys is zero or above their
    /// number.
    InvalidThreshold,
    /// The descriptor library does not read one of the keys in the form
    /// that the policy takes it in.
    InvalidKey,
    /// The wallet library refused the policy; its message.
    Policy(String),
}

pub enum AssemblyErrorView {
    NetworkInvalid,
    InvalidTimelock,
    EmptyKeySet,
    InvalidThreshold,
    InvalidKey,
    Policy(Seq<char>),
}

impl View for AssemblyError {
    type V = AssemblyErrorView;

    open spec fn view(&self) -> AssemblyErrorView {
        match *self {
            AssemblyError::NetworkInvalid => AssemblyErrorView::NetworkInvalid,
            AssemblyError::InvalidTimelock => AssemblyErrorView::InvalidTimelock,
            AssemblyError::EmptyKeySet => AssemblyErrorView::EmptyKeySet,
            AssemblyError::InvalidThreshold => AssemblyErrorView::InvalidThreshold,
            AssemblyError::InvalidKey => AssemblyErrorView::InvalidKey,
            AssemblyError::Policy(message) => AssemblyErrorView::Policy(message@),
        }
    }
}

impl AssemblyErrorView {
    /// Whether the error is one of the fields of the form, as opposed to
    /// one of the policy as a whole.
    pub open spec fn is_validation(self) -> bool {
        self is NetworkInvalid || self is InvalidTimelock || self is EmptyKeySet
    }

    /// The text under which the error is shown: the message of the wallet
    /// library for a policy that it refused, else a sentence of this
    /// library.
    pub open spec fn message(self) -> Seq<char> {
        match self {
            AssemblyErrorView::NetworkInvalid => "A wallet already exists for this network."@,
            AssemblyErrorView::InvalidTimelock => "The timelock must be a number of blocks below 65536."@,
            AssemblyErrorView::EmptyKeySet => "Both sets of keys need a key."@,
            AssemblyErrorView::InvalidThreshold => "The threshold must be above 0 and at most the number of keys."@,
            AssemblyErrorView::InvalidKey => "A key cannot be used in a policy."@,
            AssemblyErrorView::Policy(message) => message,
        }
    }
}

impl AssemblyError {
    pub open spec fn spec_is_validation(&self) -> bool {
        self@.is_validation()
    }

    #[verifier::when_used_as_spec(spec_is_validation)]
    pub fn is_validation(&self) -> (r: bool)
        ensures
            r == self.spec_is_validation(),
    {
        match self {
            AssemblyError::NetworkInvalid => true,
            AssemblyError::InvalidTimelock => true,
            AssemblyError::EmptyKeySet => true,
            _ => false,
        }
    }

    pub open spec fn spec_message(&self) -> Seq<char> {
        self@.message()
    }

    /// The text under which the error is shown.
    pub fn message(&self) -> (text: String)
        ensures
            text@ == self.spec_message(),
    {
        match self {
            AssemblyError::NetworkInvalid => "A wallet already exists for this network.".to_owned(),
            AssemblyError::InvalidTimelock => "The timelock must be a number of blocks below 65536.".to_owned(),
            AssemblyError::EmptyKeySet => "Both sets of keys need a key.".to_owned(),
            AssemblyError::InvalidThreshold => "The threshold must be above 0 and at most the number of keys.".to_owned(),
            AssemblyError::InvalidKey => "A key cannot be used in a policy.".to_owned(),
            AssemblyError::Policy(message) => message.clone(),
        }
    }
}

/// Whether a key can enter a policy: it is an extended key without
/// derivation paths of its own choosing.
pub open spec fn enters_policy(key: ExtendedKeyView) -> bool {
    key.kind == KeyKind::XPub && key.xpub is Some
}

/// The sub-paths that every key of a policy is given: `/0/*` for receiving
/// and `/1/*` for change, written as one multipath step.
pub open spec fn multipath_suffix() -> Seq<char> {
    seq!['/', '<', '0', ';', '1', '>', '/', '*']
}

/// The key expression under which a key enters the policy: its origin and
/// its extended key as they are, whatever derivation the key came with
/// replaced by the receive and change sub-paths.
pub open spec fn spec_multipath_text(key: ExtendedKeyView) -> Seq<char>
    recommends
        key.xpub is Some,
{
    (match key.origin {
        Some(path) => spec_key_text(key.fingerprint, path, key.xpub->0),
        None => key.xpub->0,
    }) + multipath_suffix()
}

pub fn multipath_text(key: &ExtendedKey) -> (text: String)
    requires
        key.xpub is Some,
    ensures
        text@ == spec_multipath_text(key@),
{
    let xpub = match &key.xpub {
        Some(xpub) => xpub,
        None => {
            proof {
                assert(false);
            }
            return String::new();
        },
    };
    let mut text = match &key.origin {
        Some(path) => key_text(key.fingerprint, path, xpub.as_str()),
        None => xpub.clone(),
    };
    text.append("/<0;1>/*");
    proof {
        reveal_strlit("/<0;1>/*");
        assert("/<0;1>/*"@ =~= multipath_suffix());
    }
    text
}

/// The keys of a set that enter the policy, in the order of their slots.
pub open spec fn policy_keys(slots: Seq<SlotView>) -> Seq<ExtendedKeyView>
    decreases slots.len(),
{
    if slots.len() == 0 {
        Seq::empty()
    } else {
        let before = policy_keys(slots.drop_last());
        match slots.last().key {
            Some(key) => if enters_policy(key) {
                before.push(key)
            } else {
                before
            },
            None => before,
        }
    }
}

/// The key expressions of a set, as the policy takes them.
pub open spec fn policy_texts(slots: Seq<SlotView>) -> Seq<Seq<char>> {
    policy_keys(slots).map_values(|key: ExtendedKeyView| spec_multipath_text(key))
}

pub open spec fn text_views(texts: Seq<String>) -> Seq<Seq<char>> {
    texts.map_values(|text: String| text@)
}

/// Writes the key expressions of a set.
pub fn collect_policy_keys(slots: &Vec<DescriptorKey>) -> (texts: Vec<String>)
    ensures
        text_views(texts@) == policy_texts(slot_views(slots@)),
        texts@.len() == policy_keys(slot_views(slots@)).len(),
{
    let ghost views = slot_views(slots@);
    let mut texts: Vec<String> = Vec::new();
    let mut i: usize = 0;
    while i < slots.len()
        invariant
            0 <= i <= slots@.len(),
            views == slot_views(slots@),
            text_views(texts@) == policy_texts(views.take(i as int)),
            texts@.len() == policy_keys(views.take(i as int)).len(),
        decreases slots@.len() - i,
    {
        proof {
            assert(views.take(i + 1).drop_last() =~= views.take(i as int));
            assert(views.take(i + 1).last() == slots@[i as int]@);
        }
        if let Some(key) = &slots[i].key {
            if key.kind == KeyKind::XPub && key.xpub.is_some() {
                let ghost before = texts@;
                texts.push(multipath_text(key));
                proof {
                    assert(text_views(texts@) =~= text_views(before).push(
                        spec_multipath_text(key@),
                    ));
                    assert(policy_texts(views.take(i + 1)) =~= policy_texts(
                        views.take(i as int),
                    ).push(spec_multipath_text(key@)));
                }
            }
        }
        i += 1;
    }
    proof {
        assert(views.take(slots@.len() as int) =~= views);
    }
    texts
}

/// The devices behind the keys of a set that enter the policy, each with
/// the alias of its slot: one entry for every such key that has an origin.
pub open spec fn device_aliases(slots: Seq<SlotView>) -> Seq<(Fingerprint, Seq<char>)>
    decreases slots.len(),
{
    if slots.len() == 0 {
        Seq::empty()
    } else {
        let before = device_aliases(slots.drop_last());
        match slots.last().key {
            Some(key) => if enters_policy(key) && key.origin is Some {
                before.push((key.fingerprint, slots.last().name))
            } else {
                before
            },
            None => before,
        }
    }
}

pub open spec fn setting_views(settings: Seq<KeySetting>) -> Seq<(Fingerprint, Seq<char>)> {
    settings.map_values(|setting: KeySetting| (setting.master_fingerprint, setting.name@))
}

/// Whether one of the entries is of the device with this fingerprint.
pub open spec fn names_device(
    aliases: Seq<(Fingerprint, Seq<char>)>,
    fingerprint: Fingerprint,
) -> bool {
    exists|i: int| 0 <= i < aliases.len() && (#[trigger] aliases[i]).0 == fingerprint
}

/// Appends the device aliases of a set, and tells whether one of them is
/// of the device with the given fingerprint.
pub fn push_device_aliases(
    settings: &mut Vec<KeySetting>,
    slots: &Vec<DescriptorKey>,
    fingerprint: Fingerprint,
) -> (found: bool)
    ensures
        setting_views(final(settings)@) == setting_views(old(settings)@) + device_aliases(
            slot_views(slots@),
        ),
        found == names_device(device_aliases(slot_views(slots@)), fingerprint),
{
    let ghost views = slot_views(slots@);
    let mut found = false;
    let mut i: usize = 0;
    proof {
        assert(setting_views(settings@) =~= setting_views(old(settings)@) + device_aliases(
            views.take(0),
        ));
    }
    while i < slots.len()
        invariant
            0 <= i <= slots@.len(),
            views == slot_views(slots@),
            setting_views(settings@) == setting_views(old(settings)@) + device_aliases(
                views.take(i as int),
            ),
            found == names_device(device_aliases(views.take(i as int)), fingerprint),
        decreases slots@.len() - i,
    {
        let ghost listed = device_aliases(views.take(i as int));
        proof {
            assert(views.take(i + 1).drop_last() =~= views.take(i as int));
            assert(views.take(i + 1).last() == slots@[i as int]@);
        }
        if let Some(key) = &slots[i].key {
            if key.kind == KeyKind::XPub && key.xpub.is_some() && key.origin.is_some() {
                let ghost before = settings@;
                settings.push(
                    KeySetting { master_fingerprint: key.fingerprint, name: slots[i].name.clone() },
                );
                proof {
                    let entry = (key.fingerprint, slots@[i as int].name@);
                    assert(device_aliases(views.take(i + 1)) =~= listed.push(entry));
                    assert(setting_views(settings@) =~= setting_views(before).push(entry));
                    assert(setting_views(settings@) =~= setting_views(old(settings)@)
                        + device_aliases(views.take(i + 1)));
                    let now = listed.push(entry);
                    if names_device(listed, fingerprint) {
                        let w = choose|w: int|
                            0 <= w < listed.len() && (#[trigger] listed[w]).0 == fingerprint;
                        assert(now[w].0 == fingerprint);
                    }
                    if key.fingerprint == fingerprint {
                        assert(now[listed.len() as int].0 == fingerprint);
                    }
                    if names_device(now, fingerprint) && key.fingerprint != fingerprint {
                        let w = choose|w: int|
                            0 <= w < now.len() && (#[trigger] now[w]).0 == fingerprint;
                        assert(listed[w].0 == fingerprint);
                    }
                }
                if key.fingerprint == fingerprint {
                    found = true;
                }
            }
        }
        i += 1;
    }
    proof {
        assert(views.take(slots@.len() as int) =~= views);
    }
    found
}

/// Several aliases name a device exactly when those of one part do.
pub proof fn lemma_names_device_of_parts(
    a: Seq<(Fingerprint, Seq<char>)>,
    b: Seq<(Fingerprint, Seq<char>)>,
    fingerprint: Fingerprint,
)
    ensures
        names_device(a + b, fingerprint) == (names_device(a, fingerprint) || names_device(
            b,
            fingerprint,
        )),
{
    let all = a + b;
    if names_device(a, fingerprint) {
        let i = choose|i: int| 0 <= i < a.len() && (#[trigger] a[i]).0 == fingerprint;
        assert(all[i].0 == fingerprint);
    }
    if names_device(b, fingerprint) {
        let i = choose|i: int| 0 <= i < b.len() && (#[trigger] b[i]).0 == fingerprint;
        assert(all[i + a.len()].0 == fingerprint);
    }
    if names_device(all, fingerprint) {
        let i = choose|i: int| 0 <= i < all.len() && (#[trigger] all[i]).0 == fingerprint;
        if i < a.len() {
            assert(a[i].0 == fingerprint);
        } else {
            assert(b[i - a.len()].0 == fingerprint);
        }
    }
}

/// What an assembly makes of a request: no descriptor if the descriptor
/// library does not read one of the keys; else what the wallet library
/// makes of the request, its refusal being a policy error with its message.
pub open spec fn spec_compile(request: PolicyRequestView) -> Result<Seq<char>, AssemblyErrorView> {
    if !request.keys_read() {
        Err(AssemblyErrorView::InvalidKey)
    } else {
        match compiled_policy(request) {
            Ok(text) => Ok(text),
            Err(message) => Err(AssemblyErrorView::Policy(message)),
        }
    }
}

pub open spec fn outcome_view(outcome: Result<String, AssemblyError>) -> Result<
    Seq<char>,
    AssemblyErrorView,
> {
    match outcome {
        Ok(text) => Ok(text@),
        Err(error) => Err(error@),
    }
}

/// Has the wallet library check and compile a policy.
pub fn compile(request: &PolicyRequest) -> (outcome: Result<String, AssemblyError>)
    ensures
        outcome_view(outcome) == spec_compile(request@),
        outcome is Ok ==> request.timelock != 0,
{
    match compile_request(request) {
        Some(Ok(text)) => Ok(text),
        Some(Err(message)) => Err(AssemblyError::Policy(message)),
        None => Err(AssemblyError::InvalidKey),
    }
}

} // verus!
