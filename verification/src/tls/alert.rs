//! Alerts: what a peer says when it gives a connection up.

use vstd::prelude::*;
use crate::tls::error::TlsError;

verus! {

pub const ALERT_LEVEL_WARNING: u8 = 1;

pub const ALERT_LEVEL_FATAL: u8 = 2;

pub const ALERT_CLOSE_NOTIFY: u8 = 0;

pub const ALERT_UNEXPECTED_MESSAGE: u8 = 10;

pub const ALERT_BAD_RECORD_MAC: u8 = 20;

pub const ALERT_HANDSHAKE_FAILURE: u8 = 40;

pub const ALERT_BAD_CERTIFICATE: u8 = 42;

pub const ALERT_CERTIFICATE_EXPIRED: u8 = 45;

pub const ALERT_UNKNOWN_CA: u8 = 48;

pub const ALERT_DECODE_ERROR: u8 = 50;

pub const ALERT_DECRYPT_ERROR: u8 = 51;

pub const ALERT_PROTOCOL_VERSION: u8 = 70;

pub const ALERT_INTERNAL_ERROR: u8 = 80;

/// Whether `b` is the payload of an alert record: a level, warning or
/// fatal, and a description.
pub open spec fn is_alert(b: Seq<u8>) -> bool {
    b.len() == 2 && (b[0] == 1 || b[0] == 2)
}

/// The name of an alert description.
pub open spec fn alert_name(description: u8) -> Seq<char> {
    if description == 0 {
        "close_notify"@
    } else if description == 10 {
        "unexpected_message"@
    } else if description == 20 {
        "bad_record_mac"@
    } else if description == 40 {
        "handshake_failure"@
    } else if description == 42 {
        "bad_certificate"@
    } else if description == 45 {
        "certificate_expired"@
    } else if description == 48 {
        "unknown_ca"@
    } else if description == 50 {
        "decode_error"@
    } else if description == 51 {
        "decrypt_error"@
    } else if description == 70 {
        "protocol_version"@
    } else if description == 80 {
        "internal_error"@
    } else {
        "unknown alert"@
    }
}

/// Names an alert description.
pub fn describe_alert(description: u8) -> (name: &'static str)
    ensures
        name@ == alert_name(description),
{
    if description == ALERT_CLOSE_NOTIFY {
        "close_notify"
    } else if description == ALERT_UNEXPECTED_MESSAGE {
        "unexpected_message"
    } else if description == ALERT_BAD_RECORD_MAC {
        "bad_record_mac"
    } else if description == ALERT_HANDSHAKE_FAILURE {
        "handshake_failure"
    } else if description == ALERT_BAD_CERTIFICATE {
        "bad_certificate"
    } else if description == ALERT_CERTIFICATE_EXPIRED {
        "certificate_expired"
    } else if description == ALERT_UNKNOWN_CA {
        "unknown_ca"
    } else if description == ALERT_DECODE_ERROR {
        "decode_error"
    } else if description == ALERT_DECRYPT_ERROR {
        "decrypt_error"
    } else if description == ALERT_PROTOCOL_VERSION {
        "protocol_version"
    } else if description == ALERT_INTERNAL_ERROR {
        "internal_error"
    } else {
        "unknown alert"
    }
}

/// The error that the payload of an alert record ends a connection with:
/// `ConnectionClosed` for a close notification, an `Alert` error that
/// names the description for every other alert, and a `Protocol` error
/// for a payload that is not an alert.
pub fn parse_alert(payload: &[u8]) -> (e: TlsError)
    ensures
        !is_alert(payload@) ==> e is Protocol,
        is_alert(payload@) && payload@[1] == 0 ==> e is ConnectionClosed,
        is_alert(payload@) && payload@[1] != 0 ==> e is Alert && e.text() == alert_name(payload@[1]),
{
    if payload.len() != 2 || (payload[0] != ALERT_LEVEL_WARNING && payload[0]
        != ALERT_LEVEL_FATAL) {
        return TlsError::protocol("Malformed alert");
    }
    if payload[1] == ALERT_CLOSE_NOTIFY {
        return TlsError::ConnectionClosed;
    }
    TlsError::alert(describe_alert(payload[1]))
}

/// The payload of the alert record that tells the peer of `error` before
/// the connection is given up: a fatal alert whose description goes by the
/// category of the error, or the warning that closes a connection in
/// good order.
pub open spec fn alert_for(error: TlsError) -> Seq<u8> {
    match error {
        TlsError::ConnectionClosed => seq![1u8, 0u8],
        TlsError::UnexpectedMessage { .. } => seq![2u8, 10u8],
        TlsError::Record(_) => seq![2u8, 20u8],
        TlsError::Handshake(_) => seq![2u8, 40u8],
        TlsError::Certificate(_) => seq![2u8, 42u8],
        TlsError::Protocol(_) => seq![2u8, 50u8],
        TlsError::Crypto(_) => seq![2u8, 51u8],
        _ => seq![2u8, 80u8],
    }
}

/// Builds the payload of the alert record that tells the peer of `error`.
pub fn build_alert(error: &TlsError) -> (payload: Vec<u8>)
    ensures
        payload@ == alert_for(*error),
        is_alert(payload@),
{
    let (level, description) = match error {
        TlsError::ConnectionClosed => (ALERT_LEVEL_WARNING, ALERT_CLOSE_NOTIFY),
        TlsError::UnexpectedMessage { .. } => (ALERT_LEVEL_FATAL, ALERT_UNEXPECTED_MESSAGE),
        TlsError::Record(_) => (ALERT_LEVEL_FATAL, ALERT_BAD_RECORD_MAC),
        TlsError::Handshake(_) => (ALERT_LEVEL_FATAL, ALERT_HANDSHAKE_FAILURE),
        TlsError::Certificate(_) => (ALERT_LEVEL_FATAL, ALERT_BAD_CERTIFICATE),
        TlsError::Protocol(_) => (ALERT_LEVEL_FATAL, ALERT_DECODE_ERROR),
        TlsError::Crypto(_) => (ALERT_LEVEL_FATAL, ALERT_DECRYPT_ERROR),
        _ => (ALERT_LEVEL_FATAL, ALERT_INTERNAL_ERROR),
    };
    let mut payload: Vec<u8> = Vec::new();
    payload.push(level);
    payload.push(description);
    payload
}

} // verus!
