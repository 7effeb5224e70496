//! The description of one server: the transport that it speaks, the address
//! that it listens on and the key that it shares with its clients.

use vstd::prelude::*;

verus! {

/// The transport of a server.
#[derive(Clone, Copy, Debug, PartialEq, Eq)]
pub enum Protocol {
    /// A stream socket.
    TCP,
    /// A datagram socket.
    UDP,
}

/// One server.
pub struct Server {
    protocol: Protocol,
    ip_address: String,
    port: String,
    key: String,
}

/// An address and a port as one text: the address, a colon, the port.
pub open spec fn address_text(ip_address: Seq<char>, port: Seq<char>) -> Seq<char> {
    ip_address + seq![':'] + port
}

impl Server {
    /// The transport of the server.
    pub closed spec fn transport(&self) -> Protocol {
        self.protocol
    }

    /// Where the server listens: its address, a colon, its port.
    pub closed spec fn listens_on(&self) -> Seq<char> {
        address_text(self.ip_address@, self.port@)
    }

    /// The key that the server shares with its clients.
    pub closed spec fn shared_key(&self) -> Seq<char> {
        self.key@
    }

    /// A server for the transport, on the address and port, with the key.
    pub fn new(protocol: Protocol, ip_address: &String, port: &String, key: &str) -> (s: Server)
        ensures
            s.transport() == protocol,
            s.listens_on() == address_text(ip_address@, port@),
            s.shared_key() == key@,
    {
        Server { protocol, ip_address: ip_address.clone(), port: port.clone(), key: key.to_owned() }
    }

    /// The transport of the server.
    pub fn protocol(&self) -> (p: Protocol)
        ensures
            p == self.transport(),
    {
        self.protocol
    }

    /// Where the server listens: its address, a colon, its port.
    pub fn address(&self) -> (a: String)
        ensures
            a@ == self.listens_on(),
    {
        proof {
            reveal_strlit(":");
        }
        let mut a = self.ip_address.clone();
        a.append(":");
        a.append(self.port.as_str());
        a
    }

    /// The key that the server shares with its clients.
    pub fn key(&self) -> (k: &str)
        ensures
            k@ == self.shared_key(),
    {
        self.key.as_str()
    }
}

} // verus!
