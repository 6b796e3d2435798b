//! From what a device returned to the event that reports it.

use vstd::prelude::*;
use crate::command::XpubReply;
use crate::key::{ExtendedKey, device_key, parsed_key};
use crate::message::{DefineDescriptor, Error, Message};
use crate::path::{ChildNumber, Fingerprint};
use crate::text::spec_key_text;

verus! {

/// What is reported of a device whose answer does not read as a key.
pub open spec fn unreadable_key_message() -> Seq<char> {
    "The device returned a key that cannot be read."@
}

/// Makes the key of a device out of what the device returned when it was
/// asked for its extended public key at `path`: the extended key, as text,
/// enters the library with the fingerprint of the device and the path as
/// its origin. An error of the device stays what it is; an answer that does
/// not read as a key counts as an error.
pub fn get_extended_pubkey(
    fingerprint: Fingerprint,
    path: &Vec<ChildNumber>,
    returned: Result<String, Error>,
) -> (answer: Result<ExtendedKey, Error>)
    ensures
        match returned {
            Ok(xpub) => match parsed_key(spec_key_text(fingerprint, path@, xpub@)) {
                Some(key) => answer is Ok && answer->Ok_0@ == key,
                None => answer is Err && answer->Err_0.message@ == unreadable_key_message(),
            },
            Err(error) => answer == Err::<ExtendedKey, Error>(error),
        },
{
    match returned {
        Ok(xpub) => match device_key(fingerprint, path, xpub.as_str()) {
            Some(key) => Ok(key),
            None => Err(Error { message: "The device returned a key that cannot be read.".to_owned() }),
        },
        Err(error) => Err(error),
    }
}

/// Makes the answer of a device that was asked to register the policy: the
/// token it returned, if any, together with its fingerprint.
pub fn register_wallet(fingerprint: Fingerprint, returned: Result<Option<[u8; 32]>, Error>) -> (answer:
    Result<(Fingerprint, Option<[u8; 32]>), Error>)
    ensures
        answer == (match returned {
            Ok(token) => Ok((fingerprint, token)),
            Err(error) => Err(error),
        }),
{
    match returned {
        Ok(token) => Ok((fingerprint, token)),
        Err(error) => Err(error),
    }
}

/// The event under which the answer of a device that was asked for a key
/// is reported.
pub fn xpub_imported(reply: XpubReply, answer: Result<ExtendedKey, Error>) -> (message: Message)
    ensures
        message == (match reply {
            XpubReply::Import => Message::DefineDescriptor(DefineDescriptor::HWXpubImported(answer)),
            XpubReply::Device(i) => Message::ImportXpub(i, answer),
        }),
{
    match reply {
        XpubReply::Import => Message::DefineDescriptor(DefineDescriptor::HWXpubImported(answer)),
        XpubReply::Device(i) => Message::ImportXpub(i, answer),
    }
}

} // verus!
