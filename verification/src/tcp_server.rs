//! The decisions of a server between two readiness notifications: which
//! attachment a connection has, what a received request is answered, and what
//! follows from the outcome of a read or a write.

use std::collections::HashMap;
use vstd::prelude::*;
use vstd::string::StringSliceAdditionalSpecFns;
use vstd::utf8::encode_utf8;
use crate::constant::{
    ATTACH, CONNECTED, OK, TUPLE_SPACE_ATTACHED, TUPLE_SPACE_ATTACHED_UPDATED,
    TUPLE_SPACE_NOT_FOUND,
};
use crate::envelope::{
    TAG_LENGTH, answer_opened_text, encrypt_data, gcm_siv_sealed, nonce_bytes, opened_text,
    sealable,
};
use crate::repository::Repository;
use crate::request::{
    Reply, RequestResponse, Session, dispatch_outcome, lemma_attach_known, lemma_attach_unknown,
    session_of,
};
use crate::tuple::ElementValue;
use crate::text::words_of;
use crate::tuple_space::TupleSpace;

verus! {

broadcast use vstd::std_specs::hash::group_hash_axioms;

/// The attachments of the connections of one server, by the number of the
/// connection.
pub struct Sessions {
    table: HashMap<u64, TupleSpace>,
}

/// The text of an answer: a connection that attaches is told whether it was
/// attached before.
pub open spec fn answer_text(reply: Reply, attached: bool) -> Seq<char> {
    match reply {
        Reply::Space { .. } => if attached {
            TUPLE_SPACE_ATTACHED_UPDATED@
        } else {
            TUPLE_SPACE_ATTACHED@
        },
        Reply::Data(text) => text,
        Reply::Done => OK@,
        Reply::Refused(reason) => reason,
    }
}

/// The attachments after an answer: an attachment takes the place of the one
/// that the connection had.
pub open spec fn sessions_after(
    sessions: Map<u64, Session>,
    token: u64,
    reply: Reply,
) -> Map<u64, Session> {
    match reply {
        Reply::Space { store, name, attributes } => sessions.insert(
            token,
            Session { store, name, presented: attributes },
        ),
        _ => sessions,
    }
}

/// The attachment of a connection, if it has one.
pub open spec fn session_at(sessions: Map<u64, Session>, token: u64) -> Option<Session> {
    if sessions.contains_key(token) {
        Some(sessions[token])
    } else {
        None
    }
}

impl View for Sessions {
    type V = Map<u64, Session>;

    closed spec fn view(&self) -> Map<u64, Session> {
        Map::new(
            |token: u64| self.table@.contains_key(token),
            |token: u64|
                Session {
                    store: self.table@[token].store(),
                    name: self.table@[token].name(),
                    presented: self.table@[token].presented(),
                },
        )
    }
}

impl Sessions {
    /// No connection is attached.
    pub fn new() -> (s: Sessions)
        ensures
            s@ == Map::<u64, Session>::empty(),
    {
        let s = Sessions { table: HashMap::new() };
        assert(s@ =~= Map::<u64, Session>::empty());
        s
    }

    /// The attachment of a connection.
    pub fn get(&self, token: u64) -> (session: Option<&TupleSpace>)
        ensures
            session_of(session) == session_at(self@, token),
    {
        self.table.get(&token)
    }

    /// Forgets a connection that was torn down.
    pub fn forget(&mut self, token: u64)
        ensures
            final(self)@ == old(self)@.remove(token),
    {
        self.table.remove(&token);
        assert(final(self)@ =~= old(self)@.remove(token));
    }

    /// Answers what a connection sent: the request is opened and carried
    /// out, an attachment is kept for the connection, and the answer is
    /// sealed, so that a client opens it to the text of the answer under the
    /// same key. What cannot be opened is not carried out and not answered.
    pub fn serve(
        &mut self,
        repository: &mut Repository,
        token: u64,
        received: &[u8],
        key: &str,
    ) -> (answer: Option<Vec<u8>>)
        requires
            old(repository).wf(),
        ensures
            final(repository).wf(),
            match opened_text(key.spec_bytes(), received@) {
                None => {
                    &&& answer is None
                    &&& final(self)@ == old(self)@
                    &&& final(repository).directory() == old(repository).directory()
                    &&& final(repository).contents() == old(repository).contents()
                },
                Some(text) => {
                    let outcome = dispatch_outcome(
                        old(repository).directory(),
                        old(repository).contents(),
                        words_of(text),
                        session_at(old(self)@, token),
                    );
                    let plain = encode_utf8(
                        answer_text(outcome.reply, old(self)@.contains_key(token)),
                    );
                    &&& final(repository).directory() == outcome.directory
                    &&& final(repository).contents() == outcome.contents
                    &&& final(self)@ == sessions_after(old(self)@, token, outcome.reply)
                    &&& match answer {
                        Some(bytes) => {
                            &&& sealable(key.spec_bytes(), plain)
                            &&& bytes@ == gcm_siv_sealed(key.spec_bytes(), nonce_bytes(), plain)
                            &&& bytes@.len() == plain.len() + TAG_LENGTH
                            &&& answer_opened_text(key.spec_bytes(), bytes@) == Some(
                                answer_text(outcome.reply, old(self)@.contains_key(token)),
                            )
                        },
                        None => !sealable(key.spec_bytes(), plain),
                    }
                },
            },
    {
        let session = self.table.get(&token);
        let response = match repository.manage_request(received, session, key) {
            None => {
                return None;
            },
            Some(response) => response,
        };
        let ghost reply = response@;
        let text: String = match response {
            RequestResponse::SpaceResponse(s) => {
                let before = self.table.insert(token, s);
                proof {
                    assert(final(self)@ =~= sessions_after(old(self)@, token, reply));
                }
                match before {
                    None => TUPLE_SPACE_ATTACHED.to_owned(),
                    Some(_) => TUPLE_SPACE_ATTACHED_UPDATED.to_owned(),
                }
            },
            RequestResponse::NoResponse(reason) => reason,
            RequestResponse::OkResponse() => OK.to_owned(),
            RequestResponse::DataResponse(data) => data,
        };
        encrypt_data(key, text.as_str())
    }
}

/// A connection that attaches to a space of the directory is attached to it
/// from then on, whatever it was attached to before, and the other
/// connections keep their attachments. The answer tells a first attachment
/// from a later one: a connection that was attached before is told of an
/// update.
pub proof fn lemma_attach_replaces(
    sessions: Map<u64, Session>,
    token: u64,
    directory: Map<Seq<char>, nat>,
    contents: Seq<Set<Seq<ElementValue>>>,
    words: Seq<Seq<char>>,
)
    requires
        words.len() >= 2,
        words[0] == ATTACH@,
        directory.contains_key(words[1]),
    ensures
        ({
            let outcome = dispatch_outcome(directory, contents, words, session_at(sessions, token));
            let after = sessions_after(sessions, token, outcome.reply);
            &&& answer_text(outcome.reply, sessions.contains_key(token)) == if sessions.contains_key(
                token,
            ) {
                TUPLE_SPACE_ATTACHED_UPDATED@
            } else {
                TUPLE_SPACE_ATTACHED@
            }
            &&& session_at(after, token) == Some(
                Session {
                    store: directory[words[1]],
                    name: words[1],
                    presented: words.subrange(2, words.len() as int),
                },
            )
            &&& forall|other: u64|
                other != token ==> session_at(after, other) == session_at(sessions, other)
            &&& outcome.directory == directory
            &&& outcome.contents == contents
        }),
{
    lemma_attach_known(directory, contents, words, session_at(sessions, token));
}

/// A connection that attaches to a space that the directory does not have
/// is told that the space was not found, and keeps the attachment that it
/// had.
pub proof fn lemma_attach_unknown_keeps(
    sessions: Map<u64, Session>,
    token: u64,
    directory: Map<Seq<char>, nat>,
    contents: Seq<Set<Seq<ElementValue>>>,
    words: Seq<Seq<char>>,
)
    requires
        words.len() >= 2,
        words[0] == ATTACH@,
        !directory.contains_key(words[1]),
    ensures
        ({
            let outcome = dispatch_outcome(directory, contents, words, session_at(sessions, token));
            &&& answer_text(outcome.reply, sessions.contains_key(token)) == TUPLE_SPACE_NOT_FOUND@
            &&& sessions_after(sessions, token, outcome.reply) == sessions
            &&& outcome.directory == directory
            &&& outcome.contents == contents
        }),
{
    lemma_attach_unknown(directory, contents, words, session_at(sessions, token));
}

/// How a read or a write on a socket ended.
#[derive(Clone, Copy, Debug, PartialEq, Eq)]
pub enum Transfer {
    /// So many bytes were moved.
    Moved(usize),
    /// The socket was not ready.
    WouldBlock,
    /// The call was interrupted.
    Interrupted,
    /// The call failed.
    Failed,
}

/// Whether the socket was not ready.
pub fn would_block(transfer: &Transfer) -> (b: bool)
    ensures
        b == (*transfer == Transfer::WouldBlock),
{
    match transfer {
        Transfer::WouldBlock => true,
        _ => false,
    }
}

/// Whether the call was interrupted.
pub fn interrupted(transfer: &Transfer) -> (b: bool)
    ensures
        b == (*transfer == Transfer::Interrupted),
{
    match transfer {
        Transfer::Interrupted => true,
        _ => false,
    }
}

/// The number of a new connection: the numbers are given out in order.
pub fn next(current: &mut u64) -> (token: u64)
    requires
        *old(current) < u64::MAX,
    ensures
        token == *old(current),
        *final(current) == *old(current) + 1,
{
    let token = *current;
    *current = token + 1;
    token
}

/// What follows the greeting of a connection.
#[derive(Clone, Copy, Debug, PartialEq, Eq)]
pub enum Greeting {
    /// The greeting is out: the connection is listened to from now on.
    Listen,
    /// The socket was not ready: nothing changes.
    Wait,
    /// The write is tried again.
    Again,
    /// The connection is given up.
    Close,
}

/// What follows the write of the greeting: a greeting that went out in full
/// makes the connection one that is listened to; one that went out in part, or
/// a failure, ends the connection.
pub fn after_greeting(transfer: &Transfer) -> (step: Greeting)
    ensures
        step == match *transfer {
            Transfer::Moved(n) => if n < CONNECTED.spec_bytes().len() {
                Greeting::Close
            } else {
                Greeting::Listen
            },
            Transfer::WouldBlock => Greeting::Wait,
            Transfer::Interrupted => Greeting::Again,
            Transfer::Failed => Greeting::Close,
        },
{
    match transfer {
        Transfer::Moved(n) => if *n < CONNECTED.as_bytes().len() {
            Greeting::Close
        } else {
            Greeting::Listen
        },
        Transfer::WouldBlock => Greeting::Wait,
        Transfer::Interrupted => Greeting::Again,
        Transfer::Failed => Greeting::Close,
    }
}

/// What follows a read.
#[derive(Clone, Copy, Debug, PartialEq, Eq)]
pub enum Reading {
    /// The peer closed the connection.
    Closed,
    /// Bytes came: so many are read by now, and the buffer has this size.
    More { bytes_read: usize, capacity: usize },
    /// Nothing more is there for now.
    Stop,
    /// The read is tried again.
    Again,
    /// The connection is given up.
    Fail,
}

/// The size of a read buffer that was filled: twice the size, as far as that
/// can be.
pub open spec fn grown(capacity: usize) -> usize {
    if capacity == 0 {
        1
    } else if capacity <= usize::MAX / 2 {
        (capacity * 2) as usize
    } else {
        usize::MAX
    }
}

/// What follows a read into the free part of a buffer: a read of no byte
/// means that the peer closed; bytes are counted, and a buffer that they fill
/// grows to twice its size.
pub fn after_read(transfer: &Transfer, bytes_read: usize, capacity: usize) -> (step: Reading)
    requires
        bytes_read <= capacity,
        *transfer matches Transfer::Moved(n) ==> n <= capacity - bytes_read,
    ensures
        step == match *transfer {
            Transfer::Moved(n) => if n == 0 {
                Reading::Closed
            } else {
                Reading::More {
                    bytes_read: (bytes_read + n) as usize,
                    capacity: if bytes_read + n == capacity {
                        grown(capacity)
                    } else {
                        capacity
                    },
                }
            },
            Transfer::WouldBlock => Reading::Stop,
            Transfer::Interrupted => Reading::Again,
            Transfer::Failed => Reading::Fail,
        },
{
    match transfer {
        Transfer::Moved(n) => {
            if *n == 0 {
                Reading::Closed
            } else {
                let total: usize = bytes_read + *n;
                let size: usize = if total == capacity {
                    if capacity == 0 {
                        1
                    } else if capacity <= usize::MAX / 2 {
                        capacity * 2
                    } else {
                        usize::MAX
                    }
                } else {
                    capacity
                };
                Reading::More { bytes_read: total, capacity: size }
            }
        },
        Transfer::WouldBlock => Reading::Stop,
        Transfer::Interrupted => Reading::Again,
        Transfer::Failed => Reading::Fail,
    }
}

} // verus!
