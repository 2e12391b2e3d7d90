//! A TLS client protocol engine for hosts that supply cryptography from
//! outside, together with the relay and circuit bookkeeping of the Tor client
//! that runs on top of it.
//!
//! The engine never performs I/O and never calls a cryptographic primitive
//! itself. Wherever a primitive is needed it hands out a request value, and
//! the caller feeds the provider's answer back in.

pub mod circuit;
pub mod config;
pub mod error;
pub mod relay;
pub mod tls;
