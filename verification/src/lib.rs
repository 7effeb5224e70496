//! A Linda-style tuple-space server core: tuple literals, the request
//! dispatcher with its permissions, the encryption envelope and the decisions
//! of the network front ends, each with a contract that Verus proves.

pub mod text;
pub mod tuple;
pub mod literal;
pub mod lexing;
pub mod roundtrip;
pub mod store;
pub mod constant;
pub mod envelope;
pub mod quoting;
pub mod tuple_space;
pub mod permission;
pub mod repository;
pub mod permits;
pub mod gather;
pub mod request;
pub mod server;
pub mod server_launcher;
pub mod tcp_server;
pub mod udp_server;
pub mod server_client;
pub mod client;
