//! The fixed words of the protocol: the verbs of a request, the texts of the
//! answers, and the names that the server and its clients agree on.

use vstd::prelude::*;

verus! {

/// The verb that creates a tuple space.
pub const CREATE: &'static str = "CREATE";

/// The verb that deletes a tuple space.
pub const DELETE: &'static str = "DELETE";

/// The verb that attaches a connection to a tuple space.
pub const ATTACH: &'static str = "ATTACH";

/// The verb that puts tuples into the attached space.
pub const OUT: &'static str = "OUT";

/// The verb that takes tuples out of the attached space.
pub const IN: &'static str = "IN";

/// The verb that looks for tuples in the attached space.
pub const READ: &'static str = "READ";

/// The name of the tuple space that holds the permissions.
pub const PERMISSION: &'static str = "PERMISSION";

/// The answer to a request that was carried out.
pub const OK: &'static str = "OK";

/// The word that every answer of failure holds.
pub const ERROR: &'static str = "ERROR";

/// The caller presents no attribute that the action is granted to.
pub const NO_PERMISSION: &'static str = "ERROR - no permission";

/// The connection is attached to no tuple space.
pub const NO_TUPLE_SPACE_ATTACHED: &'static str = "ERROR - no tuple space attached";

/// The directory has no tuple space of the name.
pub const TUPLE_SPACE_NOT_FOUND: &'static str = "ERROR - tuple space not found";

/// No tuple of the space matches a template.
pub const NO_MATCHING_TUPLE_FOUND: &'static str = "ERROR - no matching tuple found";

/// A template has no element, or is no tuple literal.
pub const TUPLE_IS_EMPTY: &'static str = "ERROR - tuple is empty";

/// The request has no known verb, or too few words for its verb.
pub const REQUEST_DOESNT_EXIST: &'static str = "ERROR - request doesn't exist";

/// The request has no word.
pub const EMPTY_REQUEST: &'static str = "ERROR - empty request";

/// The answer to the first attachment of a connection.
pub const TUPLE_SPACE_ATTACHED: &'static str = "Tuple space attached";

/// The answer to a later attachment of a connection.
pub const TUPLE_SPACE_ATTACHED_UPDATED: &'static str = "Tuple space attachment updated";

/// What a stream server sends, not encrypted, once a connection stands.
pub const CONNECTED: &'static str = "Connected";

/// The word for the stream transport.
pub const TCP: &'static str = "tcp";

/// The word for the datagram transport.
pub const UDP: &'static str = "udp";

/// What stands between the words of a request.
pub const SPACE: &'static str = " ";

/// The message that tells the worker of a client to end.
pub const STOP_SERVER: &'static str = "STOP_SERVER";

/// The seconds that a client waits for an answer before it waits again.
pub const TIMEOUT: u64 = 5;

} // verus!
