use aes_gcm_siv::aead::{Aead, NewAead};
use rustupolis_server::constant::{
    CONNECTED, NO_MATCHING_TUPLE_FOUND, NO_TUPLE_SPACE_ATTACHED, OK, READ,
    REQUEST_DOESNT_EXIST, TUPLE_SPACE_ATTACHED, TUPLE_SPACE_ATTACHED_UPDATED,
    TUPLE_SPACE_NOT_FOUND,
};
use rustupolis_server::envelope::{encrypt_data, encrypt_request};
use rustupolis_server::repository::Repository;
use rustupolis_server::request::RequestResponse;
use rustupolis_server::tcp_server::{
    after_greeting, after_read, interrupted, next, would_block, Greeting, Reading, Sessions,
    Transfer,
};
use rustupolis_server::udp_server::{after_receive, Receiving};

const KEY: &str = "0123456789abcdef";
const OTHER_KEY: &str = "fedcba9876543210";

fn sealed(text: &str) -> Vec<u8> {
    encrypt_request(KEY, text).unwrap()
}

fn opened(answer: Option<Vec<u8>>) -> String {
    let bytes = answer.expect("the request was not answered");
    let cipher = aes_gcm_siv::Aes128GcmSiv::new(aes_gcm_siv::Key::from_slice(KEY.as_bytes()));
    let plain = cipher
        .decrypt(aes_gcm_siv::Nonce::from_slice(b"unique nonce"), bytes.as_slice())
        .expect("the answer does not open");
    String::from_utf8(plain).unwrap()
}

fn say(sessions: &mut Sessions, repository: &mut Repository, token: u64, text: &str) -> String {
    opened(sessions.serve(repository, token, &sealed(text), KEY))
}

fn served() -> (Sessions, Repository) {
    let mut sessions = Sessions::new();
    let mut repository = Repository::new("admin");
    assert_eq!(say(&mut sessions, &mut repository, 0, "CREATE admin weather admin"), OK);
    assert_eq!(say(&mut sessions, &mut repository, 0, "CREATE admin news admin"), OK);
    (sessions, repository)
}

#[test]
fn a_request_is_opened_carried_out_and_answered() {
    let mut sessions = Sessions::new();
    let mut repository = Repository::new("admin");
    let answer = sessions.serve(&mut repository, 7, &sealed("CREATE admin weather admin"), KEY);
    assert_eq!(answer, encrypt_data(KEY, OK));
    assert!(repository.has_tuple_space("weather"));
    assert!(sessions.get(7).is_none());
}

#[test]
fn the_first_attachment_and_a_later_one_are_told_apart() {
    let (mut sessions, mut repository) = served();
    assert!(sessions.get(1).is_none());
    assert_eq!(say(&mut sessions, &mut repository, 1, "ATTACH weather admin"), TUPLE_SPACE_ATTACHED);
    assert_eq!(sessions.get(1).unwrap().tuple_space_name(), "weather");
    assert_eq!(
        say(&mut sessions, &mut repository, 1, "ATTACH news admin guest"),
        TUPLE_SPACE_ATTACHED_UPDATED
    );
    let session = sessions.get(1).unwrap();
    assert_eq!(session.tuple_space_name(), "news");
    assert_eq!(Some(session.tuple_space()), repository.lookup("news"));
    assert_eq!(session.attributes(), &vec![String::from("admin"), String::from("guest")]);
    assert_eq!(
        say(&mut sessions, &mut repository, 1, "ATTACH news admin"),
        TUPLE_SPACE_ATTACHED_UPDATED
    );
    assert_eq!(say(&mut sessions, &mut repository, 2, "ATTACH news admin"), TUPLE_SPACE_ATTACHED);
}

#[test]
fn attaching_to_an_unknown_space_keeps_the_attachment() {
    let (mut sessions, mut repository) = served();
    assert_eq!(
        say(&mut sessions, &mut repository, 1, "ATTACH nowhere admin"),
        TUPLE_SPACE_NOT_FOUND
    );
    assert!(sessions.get(1).is_none());
    assert_eq!(say(&mut sessions, &mut repository, 1, "ATTACH weather admin"), TUPLE_SPACE_ATTACHED);
    assert_eq!(
        say(&mut sessions, &mut repository, 1, "ATTACH nowhere admin"),
        TUPLE_SPACE_NOT_FOUND
    );
    assert_eq!(sessions.get(1).unwrap().tuple_space_name(), "weather");
}

#[test]
fn a_connection_works_on_the_space_that_it_is_attached_to() {
    let (mut sessions, mut repository) = served();
    assert_eq!(say(&mut sessions, &mut repository, 1, "OUT (\"temp\", 21)"), NO_TUPLE_SPACE_ATTACHED);
    assert_eq!(say(&mut sessions, &mut repository, 1, "ATTACH weather admin"), TUPLE_SPACE_ATTACHED);
    assert_eq!(say(&mut sessions, &mut repository, 2, "ATTACH news admin"), TUPLE_SPACE_ATTACHED);
    assert_eq!(say(&mut sessions, &mut repository, 1, "OUT (\"temp\", 21)"), OK);
    assert_eq!(say(&mut sessions, &mut repository, 2, "READ (\"temp\", _)"), NO_MATCHING_TUPLE_FOUND);
    assert_eq!(say(&mut sessions, &mut repository, 1, "READ (\"temp\", _)"), "(\"temp\",21)");
    assert_eq!(say(&mut sessions, &mut repository, 1, "READ (\"temp\", _)"), "(\"temp\",21)");
    assert_eq!(say(&mut sessions, &mut repository, 1, "IN (\"temp\", _)"), "(\"temp\",21)");
    assert_eq!(say(&mut sessions, &mut repository, 1, "IN (\"temp\", _)"), NO_MATCHING_TUPLE_FOUND);
    assert_eq!(say(&mut sessions, &mut repository, 3, "READ (_)"), NO_TUPLE_SPACE_ATTACHED);
}

#[test]
fn a_request_under_the_wrong_key_is_not_carried_out() {
    let (mut sessions, mut repository) = served();
    let stores = repository.stores_len();
    let create = encrypt_request(OTHER_KEY, "CREATE admin hidden admin").unwrap();
    assert_eq!(sessions.serve(&mut repository, 1, &create, KEY), None);
    assert!(!repository.has_tuple_space("hidden"));
    assert_eq!(repository.stores_len(), stores);
    let attach = encrypt_request(OTHER_KEY, "ATTACH weather admin").unwrap();
    assert_eq!(sessions.serve(&mut repository, 1, &attach, KEY), None);
    assert!(sessions.get(1).is_none());
    assert_eq!(sessions.serve(&mut repository, 1, b"ATTACH weather admin", KEY), None);
    assert_eq!(sessions.serve(&mut repository, 1, b"", KEY), None);
    assert!(sessions.get(1).is_none());
    assert_eq!(say(&mut sessions, &mut repository, 1, "ATTACH weather admin"), TUPLE_SPACE_ATTACHED);
}

#[test]
fn a_sealed_request_under_the_wrong_key_changes_no_space() {
    let (mut sessions, mut repository) = served();
    assert_eq!(say(&mut sessions, &mut repository, 1, "ATTACH weather admin"), TUPLE_SPACE_ATTACHED);
    assert_eq!(say(&mut sessions, &mut repository, 1, "OUT (1)"), OK);
    let take = encrypt_request(OTHER_KEY, "IN (_)").unwrap();
    assert_eq!(sessions.serve(&mut repository, 1, &take, KEY), None);
    let delete = encrypt_request(OTHER_KEY, "DELETE admin weather").unwrap();
    assert_eq!(sessions.serve(&mut repository, 1, &delete, KEY), None);
    assert!(repository.has_tuple_space("weather"));
    assert_eq!(say(&mut sessions, &mut repository, 1, "READ (_)"), "(1)");
}

#[test]
fn the_repository_gives_no_answer_to_what_it_cannot_open() {
    let mut repository = Repository::new("admin");
    let request = encrypt_request(OTHER_KEY, "CREATE admin hidden admin").unwrap();
    assert!(repository.manage_request(&request, None, KEY).is_none());
    assert!(repository.manage_request(&request, None, "short").is_none());
    assert!(repository.manage_request(b"CREATE admin hidden admin", None, KEY).is_none());
    assert!(!repository.has_tuple_space("hidden"));
    assert_eq!(repository.stores_len(), 1);
    let answer = repository.manage_request(&request, None, OTHER_KEY);
    assert!(matches!(answer, Some(RequestResponse::OkResponse())));
    assert!(repository.has_tuple_space("hidden"));
}

#[test]
fn the_repository_answers_a_sealed_request() {
    let mut repository = Repository::new("admin");
    let unknown = repository.manage_request(&sealed("PING"), None, KEY);
    match unknown {
        Some(RequestResponse::NoResponse(reason)) => assert_eq!(reason, REQUEST_DOESNT_EXIST),
        _ => panic!("the request was not refused"),
    }
    let create = repository.manage_request(&sealed("CREATE admin weather admin"), None, KEY);
    assert!(matches!(create, Some(RequestResponse::OkResponse())));
    let session = match repository.manage_request(&sealed("ATTACH weather admin"), None, KEY) {
        Some(RequestResponse::SpaceResponse(space)) => space,
        _ => panic!("the connection was not attached"),
    };
    let out = repository.manage_request(&sealed("OUT (\"temp\", 21)"), Some(&session), KEY);
    assert!(matches!(out, Some(RequestResponse::OkResponse())));
    match repository.manage_request(&sealed("IN (\"temp\", _)"), Some(&session), KEY) {
        Some(RequestResponse::DataResponse(text)) => assert_eq!(text, "(\"temp\",21)"),
        _ => panic!("the tuple was not found"),
    }
    match repository.manage_request(&sealed("IN (\"temp\", _)"), Some(&session), KEY) {
        Some(RequestResponse::NoResponse(reason)) => assert_eq!(reason, NO_MATCHING_TUPLE_FOUND),
        _ => panic!("the request was not refused"),
    }
}

#[test]
fn a_sealed_text_that_is_no_utf8_is_not_carried_out() {
    let mut repository = Repository::new("admin");
    let cipher = aes_gcm::Aes128Gcm::new(aes_gcm::Key::from_slice(KEY.as_bytes()));
    let plain: &[u8] = &[0x43, 0xff, 0xfe];
    let request = cipher.encrypt(aes_gcm::Nonce::from_slice(b"unique nonce"), plain).unwrap();
    assert!(repository.manage_request(&request, None, KEY).is_none());
    let mut sessions = Sessions::new();
    assert_eq!(sessions.serve(&mut repository, 1, &request, KEY), None);
}

#[test]
fn a_forgotten_connection_attaches_anew() {
    let (mut sessions, mut repository) = served();
    assert_eq!(say(&mut sessions, &mut repository, 4, "ATTACH weather admin"), TUPLE_SPACE_ATTACHED);
    assert_eq!(say(&mut sessions, &mut repository, 5, "ATTACH weather admin"), TUPLE_SPACE_ATTACHED);
    sessions.forget(4);
    sessions.forget(9);
    assert!(sessions.get(4).is_none());
    assert!(sessions.get(5).is_some());
    assert_eq!(say(&mut sessions, &mut repository, 4, READ), NO_TUPLE_SPACE_ATTACHED);
    assert_eq!(say(&mut sessions, &mut repository, 4, "ATTACH news admin"), TUPLE_SPACE_ATTACHED);
}

#[test]
fn tells_how_a_transfer_ended() {
    assert!(would_block(&Transfer::WouldBlock));
    assert!(!would_block(&Transfer::Interrupted));
    assert!(!would_block(&Transfer::Failed));
    assert!(!would_block(&Transfer::Moved(0)));
    assert!(interrupted(&Transfer::Interrupted));
    assert!(!interrupted(&Transfer::WouldBlock));
    assert!(!interrupted(&Transfer::Failed));
    assert!(!interrupted(&Transfer::Moved(3)));
}

#[test]
fn connections_are_numbered_in_order() {
    let mut current: u64 = 2;
    assert_eq!(next(&mut current), 2);
    assert_eq!(next(&mut current), 3);
    assert_eq!(current, 4);
    let mut last: u64 = u64::MAX - 1;
    assert_eq!(next(&mut last), u64::MAX - 1);
    assert_eq!(last, u64::MAX);
}

#[test]
fn a_greeting_that_went_out_in_full_opens_the_connection() {
    assert_eq!(CONNECTED.len(), 9);
    assert_eq!(after_greeting(&Transfer::Moved(9)), Greeting::Listen);
    assert_eq!(after_greeting(&Transfer::Moved(10)), Greeting::Listen);
    assert_eq!(after_greeting(&Transfer::Moved(8)), Greeting::Close);
    assert_eq!(after_greeting(&Transfer::Moved(0)), Greeting::Close);
    assert_eq!(after_greeting(&Transfer::WouldBlock), Greeting::Wait);
    assert_eq!(after_greeting(&Transfer::Interrupted), Greeting::Again);
    assert_eq!(after_greeting(&Transfer::Failed), Greeting::Close);
}

#[test]
fn a_read_buffer_that_is_filled_doubles() {
    assert_eq!(after_read(&Transfer::Moved(0), 10, 4096), Reading::Closed);
    assert_eq!(
        after_read(&Transfer::Moved(100), 0, 4096),
        Reading::More { bytes_read: 100, capacity: 4096 }
    );
    assert_eq!(
        after_read(&Transfer::Moved(4096), 0, 4096),
        Reading::More { bytes_read: 4096, capacity: 8192 }
    );
    assert_eq!(
        after_read(&Transfer::Moved(96), 4000, 4096),
        Reading::More { bytes_read: 4096, capacity: 8192 }
    );
    assert_eq!(
        after_read(&Transfer::Moved(95), 4000, 4096),
        Reading::More { bytes_read: 4095, capacity: 4096 }
    );
    let huge: usize = usize::MAX / 2 + 1;
    assert_eq!(
        after_read(&Transfer::Moved(1), huge - 1, huge),
        Reading::More { bytes_read: huge, capacity: usize::MAX }
    );
    assert_eq!(after_read(&Transfer::WouldBlock, 5, 8), Reading::Stop);
    assert_eq!(after_read(&Transfer::Interrupted, 5, 8), Reading::Again);
    assert_eq!(after_read(&Transfer::Failed, 5, 8), Reading::Fail);
}

#[test]
fn a_datagram_is_served_whatever_its_length() {
    assert_eq!(after_receive(&Transfer::Moved(64)), Receiving::Serve(64));
    assert_eq!(after_receive(&Transfer::Moved(0)), Receiving::Serve(0));
    assert_eq!(after_receive(&Transfer::WouldBlock), Receiving::Stop);
    assert_eq!(after_receive(&Transfer::Interrupted), Receiving::Fail);
    assert_eq!(after_receive(&Transfer::Failed), Receiving::Fail);
}
