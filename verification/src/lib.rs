//! Client side of the osquery extension-manager protocol, without the socket.
//!
//! The crate builds the call frames of the four operations (register, ping,
//! deregister, query) in Thrift's binary protocol, decodes the replies, and
//! keeps the session's identity. Moving bytes to and from the daemon is left
//! to the caller: every function here maps plain values to plain values.

pub mod primitive;
pub mod value;
pub mod encode;
pub mod error;
pub mod decode;
pub mod roundtrip;
pub mod message;
pub mod schema;
pub mod reply;
pub mod frame;
pub mod client;
pub mod laws;
pub mod truncation;
