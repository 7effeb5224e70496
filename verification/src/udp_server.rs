//! The decisions of a datagram server: what follows the outcome of a
//! receive. A datagram is served like the bytes of a connection; the
//! attachments are kept by the number that stands for the sender's address.

use vstd::prelude::*;
use crate::tcp_server::Transfer;

verus! {

/// What follows a receive.
#[derive(Clone, Copy, Debug, PartialEq, Eq)]
pub enum Receiving {
    /// A datagram of so many bytes is served.
    Serve(usize),
    /// No datagram is left for now.
    Stop,
    /// The server ends with a failure.
    Fail,
}

/// What follows a receive: a datagram is served, whatever its length; a
/// socket that is not ready ends the round; anything else ends the server.
pub fn after_receive(transfer: &Transfer) -> (step: Receiving)
    ensures
        step == match *transfer {
            Transfer::Moved(n) => Receiving::Serve(n),
            Transfer::WouldBlock => Receiving::Stop,
            Transfer::Interrupted => Receiving::Fail,
            Transfer::Failed => Receiving::Fail,
        },
{
    match transfer {
        Transfer::Moved(n) => Receiving::Serve(*n),
        Transfer::WouldBlock => Receiving::Stop,
        Transfer::Interrupted => Receiving::Fail,
        Transfer::Failed => Receiving::Fail,
    }
}

} // verus!
