//! Error type shared by every part of the TLS engine.

use vstd::prelude::*;
use vstd::string::*;

verus! {

/// `std::io::Error`, the error of a transport. It is carried through as it
/// is; nothing is known of what it holds.
#[verifier::external_type_specification]
#[verifier::external_body]
pub struct ExIoError(std::io::Error);

/// Everything that can go wrong while a connection is set up or used.
#[derive(Debug)]
pub enum TlsError {
    /// A handshake message arrived in the wrong state or failed a check.
    Handshake(String),
    /// The certificate chain could not be parsed or was not trusted.
    Certificate(String),
    /// A cryptographic primitive failed, including failed authentication.
    Crypto(String),
    /// A wire structure was malformed.
    Protocol(String),
    /// A record was framed inconsistently.
    Record(String),
    /// The peer sent an alert.
    Alert(String),
    /// The transport failed.
    Io(std::io::Error),
    /// A message of one kind arrived where another was due.
    UnexpectedMessage { expected: String, got: String },
    /// The connection is closed.
    ConnectionClosed,
    /// The cryptographic provider itself reported a failure.
    SubtleCrypto(String),
}

/// Renders a transport error with `std::io::Error`'s `Display`. Nothing is
/// claimed about the text.
#[verifier::external_body]
fn io_error_text(e: &std::io::Error) -> (text: String) {
    format!("{}", e)
}

impl TlsError {
    /// The message carried by the variants that hold exactly one; empty for
    /// the others.
    pub open spec fn text(&self) -> Seq<char> {
        match self {
            TlsError::Handshake(m) => m@,
            TlsError::Certificate(m) => m@,
            TlsError::Crypto(m) => m@,
            TlsError::Protocol(m) => m@,
            TlsError::Record(m) => m@,
            TlsError::Alert(m) => m@,
            TlsError::SubtleCrypto(m) => m@,
            _ => Seq::empty(),
        }
    }

    /// What the error reads as: a fixed prefix naming the category, then the
    /// message. For a transport error only the prefix is fixed.
    pub open spec fn display(&self) -> Seq<char> {
        match self {
            TlsError::Handshake(m) => "Handshake failed: "@ + m@,
            TlsError::Certificate(m) => "Certificate error: "@ + m@,
            TlsError::Crypto(m) => "Crypto error: "@ + m@,
            TlsError::Protocol(m) => "Protocol error: "@ + m@,
            TlsError::Record(m) => "Record layer error: "@ + m@,
            TlsError::Alert(m) => "Alert received: "@ + m@,
            TlsError::Io(_) => "IO error: "@,
            TlsError::UnexpectedMessage { expected, got } => "Unexpected message: expected "@
                + expected@ + ", got "@ + got@,
            TlsError::ConnectionClosed => "Connection closed"@,
            TlsError::SubtleCrypto(m) => "SubtleCrypto error: "@ + m@,
        }
    }

    /// A `Handshake` error with the message `msg`.
    pub fn handshake(msg: &str) -> (e: Self)
        ensures
            e is Handshake,
            e.text() == msg@,
    {
        TlsError::Handshake(String::from_str(msg))
    }

    /// A `Certificate` error with the message `msg`.
    pub fn certificate(msg: &str) -> (e: Self)
        ensures
            e is Certificate,
            e.text() == msg@,
    {
        TlsError::Certificate(String::from_str(msg))
    }

    /// A `Crypto` error with the message `msg`.
    pub fn crypto(msg: &str) -> (e: Self)
        ensures
            e is Crypto,
            e.text() == msg@,
    {
        TlsError::Crypto(String::from_str(msg))
    }

    /// A `Protocol` error with the message `msg`.
    pub fn protocol(msg: &str) -> (e: Self)
        ensures
            e is Protocol,
            e.text() == msg@,
    {
        TlsError::Protocol(String::from_str(msg))
    }

    /// A `Record` error with the message `msg`.
    pub fn record(msg: &str) -> (e: Self)
        ensures
            e is Record,
            e.text() == msg@,
    {
        TlsError::Record(String::from_str(msg))
    }

    /// An `Alert` error with the message `msg`.
    pub fn alert(msg: &str) -> (e: Self)
        ensures
            e is Alert,
            e.text() == msg@,
    {
        TlsError::Alert(String::from_str(msg))
    }

    /// A `SubtleCrypto` error with the message `msg`.
    pub fn subtle_crypto(msg: &str) -> (e: Self)
        ensures
            e is SubtleCrypto,
            e.text() == msg@,
    {
        TlsError::SubtleCrypto(String::from_str(msg))
    }

    /// A message of kind `got` arrived where `expected` was due.
    pub fn unexpected(expected: &str, got: &str) -> (e: Self)
        ensures
            e matches TlsError::UnexpectedMessage { expected: x, got: g } && x@ == expected@ && g@
                == got@,
    {
        TlsError::UnexpectedMessage {
            expected: String::from_str(expected),
            got: String::from_str(got),
        }
    }

    /// The error as one line of text.
    pub fn to_string(&self) -> (s: String)
        ensures
            self is Io ==> self.display().is_prefix_of(s@),
            !(self is Io) ==> s@ == self.display(),
    {
        match self {
            TlsError::Handshake(m) => String::from_str("Handshake failed: ").concat(m.as_str()),
            TlsError::Certificate(m) => String::from_str("Certificate error: ").concat(m.as_str()),
            TlsError::Crypto(m) => String::from_str("Crypto error: ").concat(m.as_str()),
            TlsError::Protocol(m) => String::from_str("Protocol error: ").concat(m.as_str()),
            TlsError::Record(m) => String::from_str("Record layer error: ").concat(m.as_str()),
            TlsError::Alert(m) => String::from_str("Alert received: ").concat(m.as_str()),
            TlsError::Io(e) => {
                let tail = io_error_text(e);
                String::from_str("IO error: ").concat(tail.as_str())
            },
            TlsError::UnexpectedMessage { expected, got } => String::from_str(
                "Unexpected message: expected ",
            ).concat(expected.as_str()).concat(", got ").concat(got.as_str()),
            TlsError::ConnectionClosed => String::from_str("Connection closed"),
            TlsError::SubtleCrypto(m) => String::from_str("SubtleCrypto error: ").concat(
                m.as_str(),
            ),
        }
    }
}

} // verus!
