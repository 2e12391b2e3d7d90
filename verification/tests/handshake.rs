use webtor::tls::error::TlsError;
use webtor::tls::handshake::{
    advance, decode_server_hello, parse_certificate_verify, parse_encrypted_extensions,
    parse_finished, parse_handshake_header, HandshakePhase, HandshakeState, HelloReject,
    EXT_KEY_SHARE, EXT_SUPPORTED_VERSIONS, GROUP_SECP256R1, GROUP_X25519, TLS_AES_128_GCM_SHA256,
    TLS_AES_256_GCM_SHA384,
};

fn fresh_state(name: &str) -> HandshakeState {
    HandshakeState::new(name, [0x11; 32], GROUP_X25519, vec![0x22; 32]).unwrap()
}

/// Build a minimal TLS 1.3 ServerHello message (without handshake header).
/// The `supported_versions` extension contains the specified version.
fn build_tls13_server_hello(version_in_ext: u16, cipher_suite: u16, group: u16) -> Vec<u8> {
    let mut msg = Vec::new();

    // Legacy version (TLS 1.2 for compatibility)
    msg.extend_from_slice(&[0x03, 0x03]);

    // Server random (32 bytes)
    msg.extend_from_slice(&[0xaa; 32]);

    // Session ID (empty)
    msg.push(0x00);

    // Cipher suite
    msg.push((cipher_suite >> 8) as u8);
    msg.push(cipher_suite as u8);

    // Compression method (null)
    msg.push(0x00);

    // Build extensions
    let mut extensions = vec![
        // supported_versions extension (type 43)
        (EXT_SUPPORTED_VERSIONS >> 8) as u8,
        EXT_SUPPORTED_VERSIONS as u8,
        0x00, // length high
        0x02, // length low (2 bytes for version)
        (version_in_ext >> 8) as u8,
        version_in_ext as u8,
        // key_share extension (type 51) with X25519 key (32 bytes)
        (EXT_KEY_SHARE >> 8) as u8,
        EXT_KEY_SHARE as u8,
        // key share len = 36 (group(2) + key_len(2) + key(32))
        (36 >> 8) as u8,
        36_u8,
        (group >> 8) as u8,
        group as u8,
        0x00, // key length high
        0x20, // key length low (32)
    ];
    extensions.extend_from_slice(&[0xbb; 32]); // fake public key

    // Extensions length
    let ext_len = extensions.len() as u16;
    msg.push((ext_len >> 8) as u8);
    msg.push(ext_len as u8);
    msg.extend_from_slice(&extensions);

    msg
}

#[test]
fn test_tls13_parse_server_hello_accepts_correct_version() {
    let mut state = fresh_state("example.com");
    let server_hello = build_tls13_server_hello(0x0304, TLS_AES_128_GCM_SHA256, GROUP_X25519);

    let result = state.parse_server_hello(&server_hello);
    assert!(
        result.is_ok(),
        "Should accept TLS 1.3 version: {:?}",
        result
    );
    assert_eq!(state.cipher_suite, TLS_AES_128_GCM_SHA256);
    assert_eq!(state.selected_group, GROUP_X25519);
}

#[test]
fn test_tls13_parse_server_hello_rejects_tls12_in_supported_versions() {
    let mut state = fresh_state("example.com");
    // Server responds with TLS 1.2 (0x0303) in supported_versions - should reject
    let server_hello = build_tls13_server_hello(0x0303, TLS_AES_128_GCM_SHA256, GROUP_X25519);

    let result = state.parse_server_hello(&server_hello);
    assert!(
        result.is_err(),
        "Should reject TLS 1.2 in supported_versions"
    );
    let err = result.unwrap_err().to_string();
    assert!(
        err.contains("Unsupported TLS version"),
        "Error should mention version: {}",
        err
    );
}

#[test]
fn test_tls13_parse_server_hello_rejects_unknown_version() {
    let mut state = fresh_state("example.com");
    // Server responds with made-up version 0x0305
    let server_hello = build_tls13_server_hello(0x0305, TLS_AES_128_GCM_SHA256, GROUP_X25519);

    let result = state.parse_server_hello(&server_hello);
    assert!(result.is_err(), "Should reject unknown TLS version");
}

#[test]
fn server_hello_fills_the_state() {
    let mut state = fresh_state("example.com");
    let hello = build_tls13_server_hello(0x0304, TLS_AES_256_GCM_SHA384, GROUP_X25519);
    state.parse_server_hello(&hello).unwrap();
    assert_eq!(state.cipher_suite, TLS_AES_256_GCM_SHA384);
    assert_eq!(state.server_random, vec![0xaa; 32]);
    assert_eq!(state.server_key_share, vec![0xbb; 32]);
    assert_eq!(state.phase, HandshakePhase::ReceivedServerHello);
    let mut framed = vec![2u8, 0, 0, hello.len() as u8];
    framed.extend_from_slice(&hello);
    assert_eq!(state.transcript, framed);
}

#[test]
fn second_server_hello_is_unexpected_and_fatal() {
    let mut state = fresh_state("example.com");
    let hello = build_tls13_server_hello(0x0304, TLS_AES_128_GCM_SHA256, GROUP_X25519);
    state.parse_server_hello(&hello).unwrap();
    match state.parse_server_hello(&hello) {
        Err(TlsError::UnexpectedMessage { expected, got }) => {
            assert_eq!(expected, "Certificate");
            assert_eq!(got, "ServerHello");
        }
        other => panic!("unexpected outcome: {:?}", other),
    }
    assert_eq!(state.phase, HandshakePhase::Failed);
    assert!(matches!(
        state.parse_server_hello(&hello),
        Err(TlsError::ConnectionClosed)
    ));
}

#[test]
fn certificate_before_server_hello_is_unexpected() {
    let mut state = fresh_state("example.com");
    match state.parse_certificate(&[0, 0, 0, 0]) {
        Err(TlsError::UnexpectedMessage { expected, got }) => {
            assert_eq!(expected, "ServerHello");
            assert_eq!(got, "Certificate");
        }
        other => panic!("unexpected outcome: {:?}", other),
    }
    assert_eq!(state.phase, HandshakePhase::Failed);
}

#[test]
fn rejected_hello_poisons_the_state() {
    let mut state = fresh_state("example.com");
    let bad = build_tls13_server_hello(0x0303, TLS_AES_128_GCM_SHA256, GROUP_X25519);
    assert!(state.parse_server_hello(&bad).is_err());
    assert_eq!(state.phase, HandshakePhase::Failed);
    assert_eq!(state.cipher_suite, 0);
    let good = build_tls13_server_hello(0x0304, TLS_AES_128_GCM_SHA256, GROUP_X25519);
    assert!(matches!(
        state.parse_server_hello(&good),
        Err(TlsError::ConnectionClosed)
    ));
}

#[test]
fn hello_rejections_name_their_reason() {
    let good = build_tls13_server_hello(0x0304, TLS_AES_128_GCM_SHA256, GROUP_X25519);
    assert!(decode_server_hello(&good).is_ok());

    assert_eq!(decode_server_hello(&[]).unwrap_err(), HelloReject::Truncated);
    assert_eq!(decode_server_hello(&good[..39]).unwrap_err(), HelloReject::Truncated);

    let mut legacy = good.clone();
    legacy[1] = 0x02;
    assert_eq!(decode_server_hello(&legacy).unwrap_err(), HelloReject::Version);

    let mut session = good.clone();
    session[34] = 33;
    assert_eq!(decode_server_hello(&session).unwrap_err(), HelloReject::SessionId);

    let suite = build_tls13_server_hello(0x0304, 0xc02f, GROUP_X25519);
    assert_eq!(decode_server_hello(&suite).unwrap_err(), HelloReject::CipherSuite);

    let mut compression = good.clone();
    compression[37] = 1;
    assert_eq!(decode_server_hello(&compression).unwrap_err(), HelloReject::Compression);

    let mut trailing = good.clone();
    trailing.push(0);
    assert_eq!(decode_server_hello(&trailing).unwrap_err(), HelloReject::Extensions);

    let group = build_tls13_server_hello(0x0304, TLS_AES_128_GCM_SHA256, 0x0018);
    assert_eq!(decode_server_hello(&group).unwrap_err(), HelloReject::Group);

    // A P-256 share must be an uncompressed point of 65 bytes.
    let short = build_tls13_server_hello(0x0304, TLS_AES_128_GCM_SHA256, GROUP_SECP256R1);
    assert_eq!(decode_server_hello(&short).unwrap_err(), HelloReject::KeyShareMalformed);

    // Without a key share.
    let mut no_share = good[..38].to_vec();
    no_share.extend_from_slice(&[0, 6, 0, 43, 0, 2, 3, 4]);
    assert_eq!(decode_server_hello(&no_share).unwrap_err(), HelloReject::KeyShareMissing);

    // Without supported_versions the server speaks an older version.
    let mut no_version = good[..38].to_vec();
    no_version.extend_from_slice(&[0, 40]);
    no_version.extend_from_slice(&good[46..]);
    assert_eq!(decode_server_hello(&no_version).unwrap_err(), HelloReject::Version);
}

#[test]
fn rejections_map_to_error_categories() {
    assert!(matches!(HelloReject::Truncated.to_error(), TlsError::Protocol(_)));
    assert!(matches!(HelloReject::Extensions.to_error(), TlsError::Protocol(_)));
    assert!(matches!(HelloReject::Version.to_error(), TlsError::Handshake(_)));
    assert!(matches!(HelloReject::CipherSuite.to_error(), TlsError::Handshake(_)));
    assert_eq!(
        HelloReject::UnexpectedVersion.to_error().to_string(),
        "Handshake failed: Unexpected TLS version"
    );
}

#[test]
fn handshake_header_splits_type_length_and_rest() {
    let data = [11u8, 0, 0, 3, 9, 8, 7, 6, 5];
    let (msg_type, length, rest) = parse_handshake_header(&data).unwrap();
    assert_eq!(msg_type, 11);
    assert_eq!(length, 3);
    assert_eq!(rest, &[9, 8, 7, 6, 5]);
    assert_eq!(&rest[..length], &[9, 8, 7]);

    let big = [2u8, 0x01, 0x02, 0x03];
    assert!(matches!(parse_handshake_header(&big), Err(TlsError::Protocol(_))));
}

#[test]
fn handshake_header_never_panics_on_short_input() {
    for len in 0..4 {
        let data = vec![0xffu8; len];
        assert!(matches!(parse_handshake_header(&data), Err(TlsError::Protocol(_))));
    }
    // Declares one byte more than follows.
    assert!(parse_handshake_header(&[1, 0, 0, 1]).is_err());
    assert!(parse_handshake_header(&[1, 0, 0, 1, 0]).is_ok());
    assert!(parse_handshake_header(&[1, 0, 0, 0]).is_ok());
    assert!(parse_handshake_header(&[1, 0xff, 0xff, 0xff, 0]).is_err());
}

#[test]
fn certificate_verify_is_scheme_and_signature() {
    let body = [0x08u8, 0x04, 0x00, 0x03, 1, 2, 3];
    let (scheme, signature) = parse_certificate_verify(&body).unwrap();
    assert_eq!(scheme, 0x0804);
    assert_eq!(signature, vec![1, 2, 3]);

    assert!(matches!(parse_certificate_verify(&[]), Err(TlsError::Protocol(_))));
    assert!(matches!(parse_certificate_verify(&[8, 4, 0]), Err(TlsError::Protocol(_))));
    assert!(matches!(
        parse_certificate_verify(&[8, 4, 0, 4, 1, 2, 3]),
        Err(TlsError::Protocol(_))
    ));
    assert!(matches!(
        parse_certificate_verify(&[8, 4, 0, 2, 1, 2, 3]),
        Err(TlsError::Protocol(_))
    ));
}

#[test]
fn finished_is_held_against_the_expected_value() {
    let data = vec![7u8; 32];
    assert_eq!(parse_finished(&data, &data).unwrap(), data);

    let mut other = data.clone();
    other[31] ^= 1;
    assert!(matches!(parse_finished(&data, &other), Err(TlsError::Handshake(_))));
    assert!(matches!(parse_finished(&data, &data[..31]), Err(TlsError::Handshake(_))));
    assert!(matches!(parse_finished(&data[..31], &data[..31]), Err(TlsError::Protocol(_))));
    assert!(matches!(parse_finished(&[], &[]), Err(TlsError::Protocol(_))));

    let long = vec![9u8; 48];
    assert!(parse_finished(&long, &long).is_ok());
}

#[test]
fn encrypted_extensions_must_be_well_formed() {
    assert!(parse_encrypted_extensions(&[0, 0]).is_ok());
    assert!(parse_encrypted_extensions(&[0, 6, 0, 16, 0, 2, 1, 2]).is_ok());
    assert!(parse_encrypted_extensions(&[]).is_err());
    assert!(parse_encrypted_extensions(&[0, 1, 0]).is_err());
    assert!(parse_encrypted_extensions(&[0, 5, 0, 16, 0, 2, 1]).is_err());
}

#[test]
fn new_validates_the_server_name() {
    for bad in ["", ".example.com", "example.com.", "-a.com", "a..b", "exa mple.com", "a_b.com"] {
        let r = HandshakeState::new(bad, [0; 32], GROUP_X25519, vec![0; 32]);
        assert!(matches!(r, Err(TlsError::Handshake(_))), "{:?} should be refused", bad);
    }
    let long = "a".repeat(254);
    assert!(HandshakeState::new(&long, [0; 32], GROUP_X25519, vec![0; 32]).is_err());
    let longest = "a".repeat(253);
    assert!(HandshakeState::new(&longest, [0; 32], GROUP_X25519, vec![0; 32]).is_ok());
    assert!(HandshakeState::new("Example-1.COM", [0; 32], GROUP_X25519, vec![0; 32]).is_ok());
}

#[test]
fn new_validates_the_key_share() {
    assert!(HandshakeState::new("a.b", [0; 32], GROUP_X25519, vec![0; 31]).is_err());
    assert!(HandshakeState::new("a.b", [0; 32], GROUP_SECP256R1, vec![4; 65]).is_ok());
    assert!(HandshakeState::new("a.b", [0; 32], GROUP_SECP256R1, vec![4; 32]).is_err());
    assert!(HandshakeState::new("a.b", [0; 32], 0x0018, vec![4; 97]).is_err());
}

#[test]
fn new_state_is_unselected() {
    let state = fresh_state("example.com");
    assert_eq!(state.server_name, "example.com");
    assert_eq!(state.client_random, [0x11; 32]);
    assert_eq!(state.cipher_suite, 0);
    assert_eq!(state.selected_group, 0);
    assert_eq!(state.phase, HandshakePhase::Start);
    assert!(state.transcript.is_empty());
    assert!(!state.is_complete());
}

#[test]
fn client_hello_is_framed_and_names_the_server() {
    let state = fresh_state("test.example.org");
    let hello = state.build_client_hello();
    let (msg_type, length, rest) = parse_handshake_header(&hello).unwrap();
    assert_eq!(msg_type, 1);
    assert_eq!(length, hello.len() - 4);
    assert_eq!(rest.len(), length);
    assert_eq!(&hello[4..6], &[3, 3]);
    assert_eq!(&hello[6..38], &state.client_random[..]);
    assert_eq!(hello[38], 0);
    assert_eq!(&hello[39..47], &[0, 6, 0x13, 0x01, 0x13, 0x02, 0x13, 0x03]);
    assert_eq!(&hello[47..49], &[1, 0]);
    let ext_len = ((hello[49] as usize) << 8) | hello[50] as usize;
    assert_eq!(ext_len, hello.len() - 51);
    // server_name extension
    let name = b"test.example.org";
    assert_eq!(&hello[51..53], &[0, 0]);
    assert_eq!(hello[54] as usize, name.len() + 5);
    assert_eq!(&hello[60..60 + name.len()], name);
    // supported_versions offers TLS 1.3 only
    let after = 60 + name.len();
    assert_eq!(&hello[after..after + 7], &[0, 43, 0, 3, 2, 3, 4]);
    // key share at the end
    let tail = &hello[hello.len() - 42..];
    assert_eq!(&tail[..10], &[0, 51, 0, 38, 0, 36, 0, 0x1d, 0, 32]);
    assert_eq!(&tail[10..], &[0x22; 32]);
}

#[test]
fn full_message_order_reaches_established() {
    let mut state = fresh_state("example.com");
    let hello = state.build_client_hello();
    state.client_hello_sent(&hello).unwrap();
    assert_eq!(state.phase, HandshakePhase::SentClientHello);
    assert_eq!(state.transcript, hello);
    assert!(state.client_hello_sent(&hello).is_err());

    let server_hello = build_tls13_server_hello(0x0304, TLS_AES_128_GCM_SHA256, GROUP_X25519);
    state.parse_server_hello(&server_hello).unwrap();
    state.parse_encrypted_extensions(&[0, 0]).unwrap();
    assert_eq!(state.phase, HandshakePhase::ReceivedServerHello);
    // A finished message is not due yet.
    let mut early = fresh_state("example.com");
    early.parse_server_hello(&server_hello).unwrap();
    assert!(matches!(
        early.parse_finished(&[0; 32], &[0; 32]),
        Err(TlsError::UnexpectedMessage { .. })
    ));
}

#[test]
fn phases_follow_the_message_order() {
    let received_hello = HandshakePhase::ReceivedServerHello;
    assert_eq!(advance(HandshakePhase::Start, 2), Some(received_hello));
    assert_eq!(advance(HandshakePhase::SentClientHello, 2), Some(received_hello));
    assert_eq!(advance(received_hello, 8), Some(received_hello));
    assert_eq!(advance(received_hello, 11), Some(HandshakePhase::ReceivedCertificate));
    assert_eq!(
        advance(HandshakePhase::ReceivedCertificate, 15),
        Some(HandshakePhase::ReceivedCertificateVerify)
    );
    assert_eq!(
        advance(HandshakePhase::ReceivedCertificateVerify, 20),
        Some(HandshakePhase::ReceivedFinished)
    );
    for phase in [
        HandshakePhase::ReceivedFinished,
        HandshakePhase::Established,
        HandshakePhase::Failed,
    ] {
        for msg_type in [1u8, 2, 8, 11, 15, 20, 0, 255] {
            assert_eq!(advance(phase, msg_type), None);
        }
    }
    assert_eq!(advance(HandshakePhase::Start, 11), None);
    assert_eq!(advance(received_hello, 15), None);
    assert_eq!(advance(HandshakePhase::ReceivedCertificate, 20), None);
}

#[test]
fn finishing_needs_the_server_finished_first() {
    let mut state = fresh_state("example.com");
    assert!(matches!(state.client_finished_sent(&[20, 0, 0, 0]), Err(TlsError::Handshake(_))));
    assert_eq!(state.phase, HandshakePhase::Failed);
    assert!(matches!(
        state.client_finished_sent(&[20, 0, 0, 0]),
        Err(TlsError::ConnectionClosed)
    ));
}

#[test]
fn oversized_key_share_lengths_are_malformed() {
    let mut hello = build_tls13_server_hello(0x0304, TLS_AES_128_GCM_SHA256, GROUP_X25519);
    // Claim a key of 33 bytes inside an extension of 36.
    let at = hello.len() - 32 - 1;
    hello[at] = 33;
    assert_eq!(decode_server_hello(&hello).unwrap_err(), HelloReject::KeyShareMalformed);
}

#[test]
fn states_check_their_own_shape() {
    let mut state = fresh_state("example.com");
    assert!(state.is_well_formed());
    state.key_share.pop();
    assert!(!state.is_well_formed());
    let mut state = fresh_state("example.com");
    state.key_share_group = 0x0018;
    assert!(!state.is_well_formed());
    let mut state = fresh_state("example.com");
    state.server_name.push('!');
    assert!(!state.is_well_formed());
}

#[test]
fn admission_names_what_is_due() {
    let mut state = fresh_state("example.com");
    assert_eq!(
        state.admit_message(2, &[]).unwrap(),
        HandshakePhase::ReceivedServerHello
    );
    assert_eq!(state.phase, HandshakePhase::Start);
    match state.admit_message(4, &[]) {
        Err(TlsError::UnexpectedMessage { expected, got }) => {
            assert_eq!(expected, "ServerHello");
            assert_eq!(got, "unknown message");
        }
        other => panic!("unexpected outcome: {:?}", other),
    }
    assert_eq!(state.phase, HandshakePhase::Failed);
}
