//! TLS 1.3 with an optional TLS 1.2 path: wire formats, negotiation, key
//! derivation and record protection.

pub mod alert;
pub mod cert;
pub mod client_hello;
pub mod codec;
pub mod connector;
pub mod crypto;
pub mod error;
pub mod handshake;
pub mod handshake_1_2;
pub mod key_schedule;
pub mod prf;
pub mod record;
pub mod record_1_2;
pub mod signature;
pub mod trust_store;
