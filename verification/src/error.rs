//! Errors of the Tor client's bookkeeping.

use vstd::prelude::*;
use vstd::string::*;

verus! {

/// What can go wrong while relays are chosen and circuits are kept.
#[derive(Debug)]
pub enum TorError {
    /// No relay could be chosen.
    RelaySelection(String),
    /// The network failed.
    Network(String),
    /// Something that should not happen did.
    Internal(String),
}

impl TorError {
    /// The message the error carries.
    pub open spec fn text(&self) -> Seq<char> {
        match self {
            TorError::RelaySelection(m) => m@,
            TorError::Network(m) => m@,
            TorError::Internal(m) => m@,
        }
    }

    /// An error of relay selection with the message `msg`.
    pub fn relay_selection(msg: &str) -> (e: Self)
        ensures
            e is RelaySelection,
            e.text() == msg@,
    {
        TorError::RelaySelection(String::from_str(msg))
    }

    /// A network error with the message `msg`.
    pub fn network(msg: &str) -> (e: Self)
        ensures
            e is Network,
            e.text() == msg@,
    {
        TorError::Network(String::from_str(msg))
    }

    /// An internal error with the message `msg`.
    pub fn internal(msg: &str) -> (e: Self)
        ensures
            e is Internal,
            e.text() == msg@,
    {
        TorError::Internal(String::from_str(msg))
    }
}

} // verus!
