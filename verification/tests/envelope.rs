use aes_gcm::aead::{Aead, NewAead};
use rustupolis_server::envelope::{
    decrypt_answer, decrypt_answer_text, decrypt_data, decrypt_text, encrypt_data,
    encrypt_request, KEY_LENGTH, NONCE_LENGTH, TAG_LENGTH,
};

const KEY: &str = "0123456789abcdef";
const OTHER_KEY: &str = "fedcba9876543210";
const NONCE: &[u8] = b"unique nonce";

fn gcm(key: &str) -> aes_gcm::Aes128Gcm {
    aes_gcm::Aes128Gcm::new(aes_gcm::Key::from_slice(key.as_bytes()))
}

fn gcm_siv(key: &str) -> aes_gcm_siv::Aes128GcmSiv {
    aes_gcm_siv::Aes128GcmSiv::new(aes_gcm_siv::Key::from_slice(key.as_bytes()))
}

#[test]
fn the_key_and_the_nonce_have_their_lengths() {
    assert_eq!(KEY_LENGTH, 16);
    assert_eq!(NONCE_LENGTH, 12);
    assert_eq!(KEY.len(), KEY_LENGTH);
    assert_eq!(NONCE.len(), NONCE_LENGTH);
}

#[test]
fn a_sealed_request_opens_to_its_text() {
    let sealed = encrypt_request(KEY, "OUT (\"temp\", 21)").unwrap();
    assert_eq!(decrypt_text(KEY, &sealed), Some(String::from("OUT (\"temp\", 21)")));
    assert_eq!(decrypt_data(KEY, &sealed), Some(b"OUT (\"temp\", 21)".to_vec()));
}

#[test]
fn a_sealed_request_is_the_text_encrypted_with_a_tag() {
    let text = "READ (_)";
    let sealed = encrypt_request(KEY, text).unwrap();
    assert_eq!(sealed.len(), text.len() + 16);
    assert_ne!(&sealed[..text.len()], text.as_bytes());
    let expected = gcm(KEY).encrypt(aes_gcm::Nonce::from_slice(NONCE), text.as_bytes()).unwrap();
    assert_eq!(sealed, expected);
}

#[test]
fn sealing_is_the_same_each_time() {
    assert_eq!(encrypt_request(KEY, "ATTACH weather"), encrypt_request(KEY, "ATTACH weather"));
    assert_eq!(encrypt_data(KEY, "OK"), encrypt_data(KEY, "OK"));
    assert_ne!(encrypt_request(KEY, "ATTACH weather"), encrypt_request(KEY, "ATTACH weathes"));
    assert_ne!(encrypt_request(KEY, "OK"), encrypt_request(OTHER_KEY, "OK"));
}

#[test]
fn an_answer_is_sealed_in_the_other_mode() {
    let sealed = encrypt_data(KEY, "OK").unwrap();
    assert_eq!(sealed.len(), 2 + TAG_LENGTH);
    assert_ne!(Some(sealed.clone()), encrypt_request(KEY, "OK"));
    let opened = gcm_siv(KEY).decrypt(aes_gcm_siv::Nonce::from_slice(NONCE), sealed.as_slice());
    assert_eq!(opened.unwrap(), b"OK".to_vec());
    let expected = gcm_siv(KEY).encrypt(aes_gcm_siv::Nonce::from_slice(NONCE), b"OK".as_slice());
    assert_eq!(sealed, expected.unwrap());
    assert_eq!(decrypt_data(KEY, &sealed), None);
}

#[test]
fn a_sealed_answer_opens_to_its_text() {
    let sealed = encrypt_data(KEY, "(\"temp\",21)").unwrap();
    assert_eq!(decrypt_answer(KEY, &sealed), Some(b"(\"temp\",21)".to_vec()));
    assert_eq!(decrypt_answer_text(KEY, &sealed), Some(String::from("(\"temp\",21)")));
    let empty = encrypt_data(KEY, "").unwrap();
    assert_eq!(empty.len(), TAG_LENGTH);
    assert_eq!(decrypt_answer_text(KEY, &empty), Some(String::new()));
}

#[test]
fn what_the_other_cipher_sealed_is_opened_as_an_answer() {
    let sealed = gcm_siv(KEY)
        .encrypt(aes_gcm_siv::Nonce::from_slice(NONCE), b"Tuple space attached".as_slice())
        .unwrap();
    assert_eq!(decrypt_answer_text(KEY, &sealed), Some(String::from("Tuple space attached")));
    let plain: &[u8] = &[0xff, 0xfe, 0x00];
    let bytes = gcm_siv(KEY).encrypt(aes_gcm_siv::Nonce::from_slice(NONCE), plain).unwrap();
    assert_eq!(decrypt_answer(KEY, &bytes), Some(plain.to_vec()));
    assert_eq!(decrypt_answer_text(KEY, &bytes), None);
}

#[test]
fn an_answer_opens_under_its_key_only_and_unchanged() {
    let sealed = encrypt_data(KEY, "OK").unwrap();
    assert_eq!(decrypt_answer(OTHER_KEY, &sealed), None);
    assert_eq!(decrypt_answer("short", &sealed), None);
    assert_eq!(decrypt_answer(KEY, &sealed[..sealed.len() - 1]), None);
    assert_eq!(decrypt_answer(KEY, b""), None);
    assert_eq!(decrypt_answer(KEY, b"short"), None);
    let mut changed = sealed.clone();
    changed[1] ^= 4;
    assert_eq!(decrypt_answer(KEY, &changed), None);
    let request = encrypt_request(KEY, "OK").unwrap();
    assert_eq!(decrypt_answer(KEY, &request), None);
    assert_eq!(decrypt_answer_text(KEY, &request), None);
}

#[test]
fn what_the_cipher_sealed_is_opened() {
    let sealed =
        gcm(KEY).encrypt(aes_gcm::Nonce::from_slice(NONCE), b"CREATE admin s".as_slice()).unwrap();
    assert_eq!(decrypt_data(KEY, &sealed), Some(b"CREATE admin s".to_vec()));
    assert_eq!(decrypt_text(KEY, &sealed), Some(String::from("CREATE admin s")));
}

#[test]
fn the_wrong_key_opens_nothing() {
    let sealed = encrypt_request(KEY, "READ (_)").unwrap();
    assert_eq!(decrypt_data(OTHER_KEY, &sealed), None);
    assert_eq!(decrypt_text(OTHER_KEY, &sealed), None);
}

#[test]
fn a_changed_message_opens_nothing() {
    let mut sealed = encrypt_request(KEY, "READ (_)").unwrap();
    sealed[0] ^= 1;
    assert_eq!(decrypt_data(KEY, &sealed), None);
    let mut tagged = encrypt_request(KEY, "READ (_)").unwrap();
    let last = tagged.len() - 1;
    tagged[last] ^= 0x80;
    assert_eq!(decrypt_data(KEY, &tagged), None);
    let whole = encrypt_request(KEY, "READ (_)").unwrap();
    assert_eq!(decrypt_data(KEY, &whole[..whole.len() - 1]), None);
}

#[test]
fn what_is_too_short_for_a_tag_opens_nothing() {
    assert_eq!(decrypt_data(KEY, b""), None);
    assert_eq!(decrypt_data(KEY, b"short"), None);
    assert_eq!(decrypt_text(KEY, b"Connected"), None);
}

#[test]
fn a_key_of_another_length_seals_and_opens_nothing() {
    for key in ["", "short", "0123456789abcde", "0123456789abcdefg", "0123456789abcd\u{e9}\u{e9}"] {
        assert_eq!(encrypt_request(key, "READ (_)"), None);
        assert_eq!(encrypt_data(key, "OK"), None);
        assert_eq!(decrypt_data(key, &encrypt_request(KEY, "READ (_)").unwrap()), None);
        assert_eq!(decrypt_text(key, b""), None);
    }
}

#[test]
fn a_key_is_measured_in_bytes() {
    let key = "0123456789abcd\u{e9}";
    assert_eq!(key.len(), 16);
    let sealed = encrypt_request(key, "READ (_)").unwrap();
    assert_eq!(decrypt_text(key, &sealed), Some(String::from("READ (_)")));
}

#[test]
fn the_empty_message_is_sealed_to_its_tag() {
    let sealed = encrypt_request(KEY, "").unwrap();
    assert_eq!(sealed.len(), 16);
    assert_eq!(decrypt_data(KEY, &sealed), Some(Vec::new()));
    assert_eq!(decrypt_text(KEY, &sealed), Some(String::new()));
    assert_eq!(encrypt_data(KEY, "").unwrap().len(), 16);
}

#[test]
fn sealed_bytes_that_are_no_text_open_as_bytes_only() {
    let plain: &[u8] = &[0xff, 0xfe, 0x00];
    let sealed = gcm(KEY).encrypt(aes_gcm::Nonce::from_slice(NONCE), plain).unwrap();
    assert_eq!(decrypt_data(KEY, &sealed), Some(plain.to_vec()));
    assert_eq!(decrypt_text(KEY, &sealed), None);
}

#[test]
fn a_text_beyond_ascii_is_sealed_and_opened() {
    let text = "OUT (\"caf\u{e9} \u{4e16}\u{754c}\")";
    let sealed = encrypt_request(KEY, text).unwrap();
    assert_eq!(sealed.len(), text.len() + 16);
    assert_eq!(decrypt_text(KEY, &sealed), Some(String::from(text)));
}
