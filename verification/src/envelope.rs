//! The encryption envelope: every message on the wire is sealed with AES-128
//! in an authenticated mode, under a key that both sides hold and a nonce that
//! never changes. A request of a client is sealed with AES-128-GCM, an answer
//! of the server with AES-128-GCM-SIV; each side opens what the other
//! sealed.

use vstd::prelude::*;
use vstd::utf8::{
    decode_utf8, encode_utf8_decode_utf8, encode_utf8_valid_utf8, valid_utf8,
};
use vstd::string::StringSliceAdditionalSpecFns;
use aes_gcm::aead::{Aead, NewAead};

verus! {

/// What AES-128-GCM makes of `plain` under `key` and `nonce`: the encrypted
/// bytes and the tag after them.
pub uninterp spec fn gcm_sealed(key: Seq<u8>, nonce: Seq<u8>, plain: Seq<u8>) -> Seq<u8>;

/// What AES-128-GCM reads from `sealed` under `key` and `nonce`; nothing
/// where the tag does not fit.
pub uninterp spec fn gcm_opened(key: Seq<u8>, nonce: Seq<u8>, sealed: Seq<u8>) -> Option<
    Seq<u8>,
>;

/// What AES-128-GCM-SIV makes of `plain` under `key` and `nonce`: the
/// encrypted bytes and the tag after them.
pub uninterp spec fn gcm_siv_sealed(key: Seq<u8>, nonce: Seq<u8>, plain: Seq<u8>) -> Seq<u8>;

/// What AES-128-GCM-SIV reads from `sealed` under `key` and `nonce`; nothing
/// where the tag does not fit.
pub uninterp spec fn gcm_siv_opened(key: Seq<u8>, nonce: Seq<u8>, sealed: Seq<u8>) -> Option<
    Seq<u8>,
>;

/// The length of a key, in bytes.
pub const KEY_LENGTH: usize = 16;

/// The length of the nonce, in bytes.
pub const NONCE_LENGTH: usize = 12;

/// The length of the tag that stands after a sealed message, in bytes.
pub const TAG_LENGTH: usize = 16;

/// The longest message that is sealed, in bytes.
pub const MESSAGE_LIMIT: usize = 0x7fff_ffff;

/// The bytes of the nonce: the characters of `unique nonce`.
pub open spec fn nonce_bytes() -> Seq<u8> {
    seq![117u8, 110u8, 105u8, 113u8, 117u8, 101u8, 32u8, 110u8, 111u8, 110u8, 99u8, 101u8]
}

/// `Aes128Gcm::new` and `Aead::encrypt` of the `aes-gcm` crate: the sealed
/// message, which is a function of key, nonce and message, is longer than the
/// message by the tag, and is opened to the message by `Aead::decrypt` under
/// the same key and nonce. The crate refuses only messages of more than 2^36
/// bytes.
#[allow(deprecated)]
#[verifier::external_body]
fn gcm_seal(key: &[u8], nonce: &[u8], plain: &[u8]) -> (sealed: Option<Vec<u8>>)
    requires
        key@.len() == KEY_LENGTH,
        nonce@.len() == NONCE_LENGTH,
        MESSAGE_LIMIT >= plain@.len(),
    ensures
        sealed is Some,
        sealed matches Some(bytes) ==> bytes@ == gcm_sealed(key@, nonce@, plain@),
        sealed matches Some(bytes) ==> bytes@.len() == plain@.len() + TAG_LENGTH,
        sealed matches Some(bytes) ==> gcm_opened(key@, nonce@, bytes@) == Some(plain@),
{
    let cipher = aes_gcm::Aes128Gcm::new(aes_gcm::Key::from_slice(key));
    cipher.encrypt(aes_gcm::Nonce::from_slice(nonce), plain).ok()
}

/// `Aes128Gcm::new` and `Aead::decrypt` of the `aes-gcm` crate: the message
/// where the tag fits, nothing where it does not; a function of key, nonce
/// and sealed bytes.
#[allow(deprecated)]
#[verifier::external_body]
fn gcm_open(key: &[u8], nonce: &[u8], sealed: &[u8]) -> (plain: Option<Vec<u8>>)
    requires
        key@.len() == KEY_LENGTH,
        nonce@.len() == NONCE_LENGTH,
    ensures
        match plain {
            Some(bytes) => gcm_opened(key@, nonce@, sealed@) == Some(bytes@),
            None => gcm_opened(key@, nonce@, sealed@) is None,
        },
{
    let cipher = aes_gcm::Aes128Gcm::new(aes_gcm::Key::from_slice(key));
    cipher.decrypt(aes_gcm::Nonce::from_slice(nonce), sealed).ok()
}

/// `Aes128GcmSiv::new` and `Aead::encrypt` of the `aes-gcm-siv` crate: the
/// sealed message, which is a function of key, nonce and message, is longer
/// than the message by the tag, and is opened to the message by
/// `Aead::decrypt` under the same key and nonce. The crate refuses only
/// messages of more than 2^36 bytes.
#[allow(deprecated)]
#[verifier::external_body]
fn gcm_siv_seal(key: &[u8], nonce: &[u8], plain: &[u8]) -> (sealed: Option<Vec<u8>>)
    requires
        key@.len() == KEY_LENGTH,
        nonce@.len() == NONCE_LENGTH,
        MESSAGE_LIMIT >= plain@.len(),
    ensures
        sealed is Some,
        sealed matches Some(bytes) ==> bytes@ == gcm_siv_sealed(key@, nonce@, plain@),
        sealed matches Some(bytes) ==> bytes@.len() == plain@.len() + TAG_LENGTH,
        sealed matches Some(bytes) ==> gcm_siv_opened(key@, nonce@, bytes@) == Some(plain@),
{
    let cipher = aes_gcm_siv::Aes128GcmSiv::new(aes_gcm_siv::Key::from_slice(key));
    cipher.encrypt(aes_gcm_siv::Nonce::from_slice(nonce), plain).ok()
}

/// `Aes128GcmSiv::new` and `Aead::decrypt` of the `aes-gcm-siv` crate: the
/// message where the tag fits, nothing where it does not; a function of key,
/// nonce and sealed bytes.
#[allow(deprecated)]
#[verifier::external_body]
fn gcm_siv_open(key: &[u8], nonce: &[u8], sealed: &[u8]) -> (plain: Option<Vec<u8>>)
    requires
        key@.len() == KEY_LENGTH,
        nonce@.len() == NONCE_LENGTH,
    ensures
        match plain {
            Some(bytes) => gcm_siv_opened(key@, nonce@, sealed@) == Some(bytes@),
            None => gcm_siv_opened(key@, nonce@, sealed@) is None,
        },
{
    let cipher = aes_gcm_siv::Aes128GcmSiv::new(aes_gcm_siv::Key::from_slice(key));
    cipher.decrypt(aes_gcm_siv::Nonce::from_slice(nonce), sealed).ok()
}

/// `String::from_utf8`: the text that the bytes encode, where they are valid
/// UTF-8, and nothing where they are not.
#[verifier::external_body]
fn text_of_bytes(bytes: Vec<u8>) -> (text: Option<String>)
    ensures
        match text {
            Some(s) => valid_utf8(bytes@) && s@ == decode_utf8(bytes@),
            None => !valid_utf8(bytes@),
        },
{
    String::from_utf8(bytes).ok()
}

/// The nonce.
fn nonce() -> (bytes: Vec<u8>)
    ensures
        bytes@ == nonce_bytes(),
{
    let mut bytes: Vec<u8> = Vec::new();
    bytes.push(117);
    bytes.push(110);
    bytes.push(105);
    bytes.push(113);
    bytes.push(117);
    bytes.push(101);
    bytes.push(32);
    bytes.push(110);
    bytes.push(111);
    bytes.push(110);
    bytes.push(99);
    bytes.push(101);
    assert(bytes@ =~= nonce_bytes());
    bytes
}

/// What a client's request looks like after the server opened it: nothing
/// where the key has not 16 bytes or the tag does not fit.
pub open spec fn opened(key: Seq<u8>, sealed: Seq<u8>) -> Option<Seq<u8>> {
    if key.len() == KEY_LENGTH {
        gcm_opened(key, nonce_bytes(), sealed)
    } else {
        None
    }
}

/// The text that a sealed message holds: nothing where it cannot be opened or
/// what was sealed is no UTF-8 text.
pub open spec fn opened_text(key: Seq<u8>, sealed: Seq<u8>) -> Option<Seq<char>> {
    match opened(key, sealed) {
        Some(bytes) => if valid_utf8(bytes) {
            Some(decode_utf8(bytes))
        } else {
            None
        },
        None => None,
    }
}

/// What an answer of the server looks like after a client opened it: nothing
/// where the key has not 16 bytes or the tag does not fit.
pub open spec fn answer_opened(key: Seq<u8>, sealed: Seq<u8>) -> Option<Seq<u8>> {
    if key.len() == KEY_LENGTH {
        gcm_siv_opened(key, nonce_bytes(), sealed)
    } else {
        None
    }
}

/// The text that a sealed answer holds: nothing where it cannot be opened or
/// what was sealed is no UTF-8 text.
pub open spec fn answer_opened_text(key: Seq<u8>, sealed: Seq<u8>) -> Option<Seq<char>> {
    match answer_opened(key, sealed) {
        Some(bytes) => if valid_utf8(bytes) {
            Some(decode_utf8(bytes))
        } else {
            None
        },
        None => None,
    }
}

/// Whether a message can be sealed under a key: the key has 16 bytes and the
/// message is not longer than the limit.
pub open spec fn sealable(key: Seq<u8>, plain: Seq<u8>) -> bool {
    key.len() == KEY_LENGTH && plain.len() <= MESSAGE_LIMIT
}

/// Opens a sealed request with AES-128-GCM.
pub fn decrypt_data(key: &str, text: &[u8]) -> (plain: Option<Vec<u8>>)
    ensures
        match plain {
            Some(bytes) => opened(key.spec_bytes(), text@) == Some(bytes@),
            None => opened(key.spec_bytes(), text@) is None,
        },
{
    let key_bytes = key.as_bytes();
    if key_bytes.len() != KEY_LENGTH {
        return None;
    }
    let nonce = nonce();
    gcm_open(key_bytes, nonce.as_slice(), text)
}

/// Opens a sealed request and reads it as text.
pub fn decrypt_text(key: &str, text: &[u8]) -> (plain: Option<String>)
    ensures
        match plain {
            Some(s) => opened_text(key.spec_bytes(), text@) == Some(s@),
            None => opened_text(key.spec_bytes(), text@) is None,
        },
{
    match decrypt_data(key, text) {
        Some(bytes) => text_of_bytes(bytes),
        None => None,
    }
}

/// Opens a sealed answer of the server with AES-128-GCM-SIV.
pub fn decrypt_answer(key: &str, text: &[u8]) -> (plain: Option<Vec<u8>>)
    ensures
        match plain {
            Some(bytes) => answer_opened(key.spec_bytes(), text@) == Some(bytes@),
            None => answer_opened(key.spec_bytes(), text@) is None,
        },
{
    let key_bytes = key.as_bytes();
    if key_bytes.len() != KEY_LENGTH {
        return None;
    }
    let nonce = nonce();
    gcm_siv_open(key_bytes, nonce.as_slice(), text)
}

/// Opens a sealed answer of the server and reads it as text.
pub fn decrypt_answer_text(key: &str, text: &[u8]) -> (plain: Option<String>)
    ensures
        match plain {
            Some(s) => answer_opened_text(key.spec_bytes(), text@) == Some(s@),
            None => answer_opened_text(key.spec_bytes(), text@) is None,
        },
{
    match decrypt_answer(key, text) {
        Some(bytes) => text_of_bytes(bytes),
        None => None,
    }
}

/// Seals an answer of the server with AES-128-GCM-SIV; nothing where the key
/// has not 16 bytes or the answer is longer than the limit. What was sealed
/// is longer than the answer by the tag, and a client opens it to the answer
/// under the same key.
pub fn encrypt_data(key: &str, text: &str) -> (sealed: Option<Vec<u8>>)
    ensures
        match sealed {
            Some(bytes) => {
                &&& sealable(key.spec_bytes(), text.spec_bytes())
                &&& bytes@ == gcm_siv_sealed(key.spec_bytes(), nonce_bytes(), text.spec_bytes())
                &&& bytes@.len() == text.spec_bytes().len() + TAG_LENGTH
                &&& answer_opened(key.spec_bytes(), bytes@) == Some(text.spec_bytes())
                &&& answer_opened_text(key.spec_bytes(), bytes@) == Some(text@)
            },
            None => !sealable(key.spec_bytes(), text.spec_bytes()),
        },
{
    broadcast use {encode_utf8_valid_utf8, encode_utf8_decode_utf8};

    let key_bytes = key.as_bytes();
    let plain = text.as_bytes();
    if key_bytes.len() != KEY_LENGTH || plain.len() > MESSAGE_LIMIT {
        return None;
    }
    let nonce = nonce();
    gcm_siv_seal(key_bytes, nonce.as_slice(), plain)
}

/// Seals a request of a client with AES-128-GCM; nothing where the key has
/// not 16 bytes or the request is longer than the limit. What was sealed is
/// longer than the request by the tag, and the server opens it to the request
/// under the same key.
pub fn encrypt_request(key: &str, text: &str) -> (sealed: Option<Vec<u8>>)
    ensures
        match sealed {
            Some(bytes) => {
                &&& sealable(key.spec_bytes(), text.spec_bytes())
                &&& bytes@ == gcm_sealed(key.spec_bytes(), nonce_bytes(), text.spec_bytes())
                &&& bytes@.len() == text.spec_bytes().len() + TAG_LENGTH
                &&& opened(key.spec_bytes(), bytes@) == Some(text.spec_bytes())
                &&& opened_text(key.spec_bytes(), bytes@) == Some(text@)
            },
            None => !sealable(key.spec_bytes(), text.spec_bytes()),
        },
{
    broadcast use {encode_utf8_valid_utf8, encode_utf8_decode_utf8};

    let key_bytes = key.as_bytes();
    let plain = text.as_bytes();
    if key_bytes.len() != KEY_LENGTH || plain.len() > MESSAGE_LIMIT {
        return None;
    }
    let nonce = nonce();
    gcm_seal(key_bytes, nonce.as_slice(), plain)
}

} // verus!
