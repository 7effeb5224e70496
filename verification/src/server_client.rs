//! One remote server as a client sees it, and the decisions of the worker
//! that talks to it: what to do with a message of the caller and with the
//! bytes that the server sent.

use vstd::prelude::*;
use vstd::string::StringSliceAdditionalSpecFns;
use vstd::utf8::encode_utf8;
use crate::constant::{CONNECTED, STOP_SERVER, TCP, UDP};
use crate::envelope::{
    answer_opened_text, decrypt_answer_text, encrypt_request, gcm_sealed, nonce_bytes,
    opened_text, sealable,
};
use crate::server::{Protocol, address_text};
use crate::text::same_text;

verus! {

/// A remote server: where it is, how it is spoken to and the key that is
/// shared with it.
pub struct ServerClient {
    address: String,
    protocol: Option<Protocol>,
    server_name: String,
    key: String,
}

/// The transport that a word names, if it names one.
pub open spec fn protocol_named(word: Seq<char>) -> Option<Protocol> {
    if word == TCP@ {
        Some(Protocol::TCP)
    } else if word == UDP@ {
        Some(Protocol::UDP)
    } else {
        None
    }
}

/// What the worker does with a message of the caller.
pub enum Outbound {
    /// The worker ends.
    Stop,
    /// These bytes go to the server.
    Send(Vec<u8>),
    /// The message cannot be sealed: the worker gives up.
    Abort,
}

/// What the worker does with bytes of the server.
pub enum Inbound {
    /// Nothing yet: the worker goes on waiting.
    Wait,
    /// This text goes to the caller.
    Deliver(String),
    /// The bytes cannot be opened: the worker gives up.
    Abort,
}

/// The value of what the worker does with bytes of the server.
pub enum InboundValue {
    Wait,
    Deliver(Seq<char>),
    Abort,
}

impl View for Inbound {
    type V = InboundValue;

    open spec fn view(&self) -> InboundValue {
        match self {
            Inbound::Wait => InboundValue::Wait,
            Inbound::Deliver(text) => InboundValue::Deliver(text@),
            Inbound::Abort => InboundValue::Abort,
        }
    }
}

/// What the bytes of an answer are to the worker: the text that they hold
/// as a sealed answer of the server, or the end.
pub open spec fn sealed_inbound(key: Seq<u8>, received: Seq<u8>) -> InboundValue {
    match answer_opened_text(key, received) {
        Some(text) => InboundValue::Deliver(text),
        None => InboundValue::Abort,
    }
}

/// What bytes from a stream are to a worker that awaits the greeting: the
/// greeting where they are the greeting; nothing yet where they are a
/// beginning of it, which no byte is too; the end where they are anything
/// else.
pub open spec fn greeting_inbound(received: Seq<u8>) -> InboundValue {
    let greeting = CONNECTED.spec_bytes();
    if received == greeting {
        InboundValue::Deliver(CONNECTED@)
    } else if received.len() < greeting.len() && received == greeting.take(
        received.len() as int,
    ) {
        InboundValue::Wait
    } else {
        InboundValue::Abort
    }
}

/// What the bytes that came after a request are to the worker: nothing yet
/// where there are none; else what they hold as a sealed answer, whatever
/// the bytes look like.
pub open spec fn reply_inbound(key: Seq<u8>, received: Seq<u8>) -> InboundValue {
    if received.len() == 0 {
        InboundValue::Wait
    } else {
        sealed_inbound(key, received)
    }
}

/// An answer that the server sealed is delivered: bytes that hold a byte and
/// open, as a sealed answer under the key, to a text are this text to the
/// worker, over a stream and in a datagram alike, whatever the bytes look
/// like. What a server answers under the key is such bytes.
pub proof fn lemma_sealed_answer_is_delivered(
    key: Seq<u8>,
    received: Seq<u8>,
    text: Seq<char>,
)
    requires
        received.len() > 0,
        answer_opened_text(key, received) == Some(text),
    ensures
        reply_inbound(key, received) == InboundValue::Deliver(text),
{
}

impl ServerClient {
    /// Where the server is: its address, a colon, its port.
    pub closed spec fn located_at(&self) -> Seq<char> {
        self.address@
    }

    /// The transport of the server, where the word for it named one.
    pub closed spec fn transport(&self) -> Option<Protocol> {
        self.protocol
    }

    /// The name that the client gives the server.
    pub closed spec fn named(&self) -> Seq<char> {
        self.server_name@
    }

    /// The key that is shared with the server.
    pub closed spec fn shared_key(&self) -> Seq<char> {
        self.key@
    }

    /// A server at the address and port, spoken to over the named
    /// transport.
    pub fn new(ip_address: String, port: String, protocol: String, server_name: String, key: &str) -> (s:
        ServerClient)
        ensures
            s.located_at() == address_text(ip_address@, port@),
            s.transport() == protocol_named(protocol@),
            s.named() == server_name@,
            s.shared_key() == key@,
            s.key_bytes() == key.spec_bytes(),
    {
        proof {
            reveal_strlit(":");
        }
        let mut address = ip_address;
        address.append(":");
        address.append(port.as_str());
        let transport = if same_text(protocol.as_str(), TCP) {
            Some(Protocol::TCP)
        } else if same_text(protocol.as_str(), UDP) {
            Some(Protocol::UDP)
        } else {
            None
        };
        ServerClient { address, protocol: transport, server_name, key: key.to_owned() }
    }

    /// Where the server is.
    pub fn address(&self) -> (a: &str)
        ensures
            a@ == self.located_at(),
    {
        self.address.as_str()
    }

    /// The transport of the server.
    pub fn protocol(&self) -> (p: Option<Protocol>)
        ensures
            p == self.transport(),
    {
        self.protocol
    }

    /// The name that the client gives the server.
    pub fn server_name(&self) -> (n: &str)
        ensures
            n@ == self.named(),
    {
        self.server_name.as_str()
    }

    /// The key that is shared with the server.
    pub fn key(&self) -> (k: &str)
        ensures
            k@ == self.shared_key(),
    {
        self.key.as_str()
    }

    /// What the worker does with a message of the caller: the message that
    /// ends the worker ends it; any other is sealed and sent, and opens to
    /// the message under the key of the server.
    pub fn send_message(&self, message: &str) -> (step: Outbound)
        ensures
            match step {
                Outbound::Stop => message@ == STOP_SERVER@,
                Outbound::Send(bytes) => {
                    &&& message@ != STOP_SERVER@
                    &&& sealable(self.key_bytes(), message.spec_bytes())
                    &&& bytes@ == gcm_sealed(
                        self.key_bytes(),
                        nonce_bytes(),
                        message.spec_bytes(),
                    )
                    &&& opened_text(self.key_bytes(), bytes@) == Some(message@)
                },
                Outbound::Abort => message@ != STOP_SERVER@ && !sealable(
                    self.key_bytes(),
                    message.spec_bytes(),
                ),
            },
    {
        if same_text(message, STOP_SERVER) {
            return Outbound::Stop;
        }
        match encrypt_request(self.key.as_str(), message) {
            Some(bytes) => Outbound::Send(bytes),
            None => Outbound::Abort,
        }
    }

    /// The bytes of the key that is shared with the server.
    pub open spec fn key_bytes(&self) -> Seq<u8> {
        encode_utf8(self.shared_key())
    }

    /// What a worker that awaits the greeting does with bytes that came
    /// over a stream.
    pub fn read_greeting(received: &[u8]) -> (step: Inbound)
        ensures
            step@ == greeting_inbound(received@),
    {
        let greeting = CONNECTED.as_bytes();
        if received.len() > greeting.len() {
            return Inbound::Abort;
        }
        let mut i: usize = 0;
        while i < received.len()
            invariant
                i <= received.len() <= greeting.len(),
                greeting@ == CONNECTED.spec_bytes(),
                forall|k: int| 0 <= k < i ==> received@[k] == greeting@[k],
            decreases received.len() - i,
        {
            if received[i] != greeting[i] {
                assert(greeting@.take(received@.len() as int)[i as int] != received@[i as int]);
                return Inbound::Abort;
            }
            i = i + 1;
        }
        assert(received@ =~= greeting@.take(received@.len() as int));
        if received.len() == greeting.len() {
            assert(greeting@.take(received@.len() as int) =~= greeting@);
            Inbound::Deliver(CONNECTED.to_owned())
        } else {
            Inbound::Wait
        }
    }

    /// What the worker does with the bytes that came over a stream after a
    /// request: it opens them as the answer, whatever they look like.
    pub fn read_response_tcp(&self, received: &[u8]) -> (step: Inbound)
        ensures
            step@ == reply_inbound(self.key_bytes(), received@),
    {
        self.read_reply(received)
    }

    /// What the worker does with a datagram that came after a request: it
    /// opens it as the answer; a datagram without bytes is passed over.
    pub fn read_response_udp(&self, received: &[u8]) -> (step: Inbound)
        ensures
            step@ == reply_inbound(self.key_bytes(), received@),
    {
        self.read_reply(received)
    }

    /// What the worker does with the bytes of an answer.
    fn read_reply(&self, received: &[u8]) -> (step: Inbound)
        ensures
            step@ == reply_inbound(self.key_bytes(), received@),
    {
        if received.len() == 0 {
            return Inbound::Wait;
        }
        match decrypt_answer_text(self.key.as_str(), received) {
            Some(text) => Inbound::Deliver(text),
            None => Inbound::Abort,
        }
    }
}

} // verus!
