use webtor::tls::error::TlsError;
use webtor::tls::handshake::{parse_handshake_header, HelloReject};
use webtor::tls::cert::parse_der;
use webtor::tls::handshake_1_2::{
    advance_12, build_client_key_exchange, decode_server_hello_12, key_exchange_signature,
    parse_finished, parse_server_key_exchange, prf_hash, CipherSuiteParams, Handshake12Phase,
    Handshake12State, TLS_ECDHE_RSA_WITH_AES_128_CBC_SHA, TLS_ECDHE_RSA_WITH_AES_128_CBC_SHA256,
    TLS_ECDHE_RSA_WITH_AES_128_GCM_SHA256, TLS_ECDHE_RSA_WITH_AES_256_GCM_SHA384, TLS_VERSION_1_2,
};
use webtor::tls::prf::HashAlgorithm;
use webtor::tls::trust_store::SignatureAlgorithm;

/// Build a minimal TLS 1.2 ServerHello message (without handshake header).
fn build_tls12_server_hello(version: u16, cipher_suite: u16) -> Vec<u8> {
    let mut msg = Vec::new();

    // Version
    msg.push((version >> 8) as u8);
    msg.push(version as u8);

    // Server random (32 bytes)
    msg.extend_from_slice(&[0xaa; 32]);

    // Session ID (empty)
    msg.push(0x00);

    // Cipher suite
    msg.push((cipher_suite >> 8) as u8);
    msg.push(cipher_suite as u8);

    // Compression method (null - required)
    msg.push(0x00);

    msg
}

#[test]
fn test_handshake_state_initialization() {
    let state = Handshake12State::new("httpbin.org", [0x5a; 32]).unwrap();

    assert_eq!(state.server_name, "httpbin.org");
    assert_eq!(state.client_random.len(), 32);
    // Before server hello, cipher suite is 0
    assert_eq!(state.cipher_suite, 0);
}

#[test]
fn test_client_hello_structure() {
    let state = Handshake12State::new("example.com", [0x5a; 32]).unwrap();
    let client_hello = state.build_client_hello();

    // Handshake type 1 = ClientHello
    assert_eq!(client_hello[0], 1);

    // Length check (3 bytes after type)
    let length = ((client_hello[1] as usize) << 16)
        | ((client_hello[2] as usize) << 8)
        | (client_hello[3] as usize);
    assert_eq!(length, client_hello.len() - 4);

    // Version should be TLS 1.2 (0x0303)
    assert_eq!(client_hello[4], 0x03);
    assert_eq!(client_hello[5], 0x03);

    // Random should match state
    assert_eq!(&client_hello[6..38], &state.client_random[..]);
}

#[test]
fn test_client_hello_contains_extensions() {
    let state = Handshake12State::new("test.example.org", [0x5a; 32]).unwrap();
    let client_hello = state.build_client_hello();

    // The SNI should be present
    let sni_bytes = b"test.example.org";
    let mut found_sni = false;
    for i in 0..client_hello.len().saturating_sub(sni_bytes.len()) {
        if &client_hello[i..i + sni_bytes.len()] == sni_bytes {
            found_sni = true;
            break;
        }
    }
    assert!(found_sni, "SNI extension not found");
}

#[test]
fn client_hello_12_has_the_expected_bytes() {
    let state = Handshake12State::new("a.io", [7; 32]).unwrap();
    let hello = state.build_client_hello();
    let mut expected = vec![1u8, 0, 0, 0];
    expected.extend_from_slice(&[3, 3]);
    expected.extend_from_slice(&[7; 32]);
    expected.push(0);
    expected.extend_from_slice(&[0, 8, 0xc0, 0x2f, 0xc0, 0x30, 0xc0, 0x27, 0xc0, 0x13]);
    expected.extend_from_slice(&[1, 0]);
    let mut exts = vec![0u8, 0, 0, 9, 0, 7, 0, 0, 4];
    exts.extend_from_slice(b"a.io");
    exts.extend_from_slice(&[0, 10, 0, 6, 0, 4, 0, 0x1d, 0, 0x17]);
    exts.extend_from_slice(&[0, 11, 0, 2, 1, 0]);
    exts.extend_from_slice(&[0, 13, 0, 14, 0, 12, 4, 3, 8, 4, 4, 1, 5, 3, 8, 5, 5, 1]);
    exts.extend_from_slice(&[0, 22, 0, 0]);
    expected.extend_from_slice(&[0, exts.len() as u8]);
    expected.extend_from_slice(&exts);
    expected[3] = (expected.len() - 4) as u8;
    assert_eq!(hello, expected);
    let (msg_type, length, _) = parse_handshake_header(&hello).unwrap();
    assert_eq!((msg_type, length), (1, hello.len() - 4));
}

#[test]
fn test_all_supported_cipher_suites() {
    let suites = [
        (TLS_ECDHE_RSA_WITH_AES_128_GCM_SHA256, 16, 4, true),
        (TLS_ECDHE_RSA_WITH_AES_256_GCM_SHA384, 32, 4, true),
        (TLS_ECDHE_RSA_WITH_AES_128_CBC_SHA256, 16, 0, false),
        (TLS_ECDHE_RSA_WITH_AES_128_CBC_SHA, 16, 0, false),
    ];

    for (suite, expected_key_len, expected_iv_len, is_aead) in suites {
        let params = CipherSuiteParams::for_suite(suite)
            .unwrap_or_else(|_| panic!("Suite 0x{:04x} should be supported", suite));

        assert_eq!(
            params.key_len, expected_key_len,
            "Key length mismatch for 0x{:04x}",
            suite
        );
        assert_eq!(
            params.iv_len, expected_iv_len,
            "IV length mismatch for 0x{:04x}",
            suite
        );
        assert_eq!(
            params.is_aead, is_aead,
            "AEAD flag mismatch for 0x{:04x}",
            suite
        );
    }
}

#[test]
fn test_cipher_suite_key_block_length() {
    // AES-128-GCM: 0 + 16 + 16 + 4 + 4 = 40
    let gcm_params = CipherSuiteParams::for_suite(TLS_ECDHE_RSA_WITH_AES_128_GCM_SHA256).unwrap();
    assert_eq!(gcm_params.key_block_len(), 40);

    // AES-256-GCM: 0 + 32 + 32 + 4 + 4 = 72
    let gcm256_params =
        CipherSuiteParams::for_suite(TLS_ECDHE_RSA_WITH_AES_256_GCM_SHA384).unwrap();
    assert_eq!(gcm256_params.key_block_len(), 72);

    // AES-128-CBC-SHA256: 32 + 32 + 16 + 16 + 0 + 0 = 96
    let cbc_params = CipherSuiteParams::for_suite(TLS_ECDHE_RSA_WITH_AES_128_CBC_SHA256).unwrap();
    assert_eq!(cbc_params.key_block_len(), 96);
}

#[test]
fn key_block_lengths_by_identifier() {
    assert_eq!(CipherSuiteParams::for_suite(0xC02F).unwrap().key_block_len(), 40);
    assert_eq!(CipherSuiteParams::for_suite(0xC030).unwrap().key_block_len(), 72);
    assert_eq!(CipherSuiteParams::for_suite(0xC027).unwrap().key_block_len(), 96);
    assert_eq!(CipherSuiteParams::for_suite(0xC013).unwrap().key_block_len(), 72);
    assert_eq!(CipherSuiteParams::for_suite(0xC013).unwrap().mac_key_len, 20);
    assert_eq!(CipherSuiteParams::for_suite(0xC027).unwrap().mac_key_len, 32);
}

#[test]
fn unknown_suites_are_refused() {
    for suite in [0u16, 0x1301, 0xc02e, 0xc031, 0x002f, 0xffff] {
        assert!(matches!(
            CipherSuiteParams::for_suite(suite),
            Err(TlsError::Handshake(_))
        ));
    }
}

#[test]
fn test_tls12_parse_server_hello_accepts_correct_version() {
    let mut state = Handshake12State::new("example.com", [0x5a; 32]).unwrap();
    let server_hello =
        build_tls12_server_hello(TLS_VERSION_1_2, TLS_ECDHE_RSA_WITH_AES_128_GCM_SHA256);

    let result = state.parse_server_hello(&server_hello);
    assert!(
        result.is_ok(),
        "Should accept TLS 1.2 version: {:?}",
        result
    );
    assert_eq!(state.cipher_suite, TLS_ECDHE_RSA_WITH_AES_128_GCM_SHA256);
}

#[test]
fn test_tls12_parse_server_hello_rejects_tls11() {
    let mut state = Handshake12State::new("example.com", [0x5a; 32]).unwrap();
    // Server responds with TLS 1.1 (0x0302) - should reject
    let server_hello = build_tls12_server_hello(0x0302, TLS_ECDHE_RSA_WITH_AES_128_GCM_SHA256);

    let result = state.parse_server_hello(&server_hello);
    assert!(result.is_err(), "Should reject TLS 1.1");
    let err = result.unwrap_err().to_string();
    assert!(
        err.contains("Unexpected TLS version"),
        "Error should mention version: {}",
        err
    );
}

#[test]
fn test_tls12_parse_server_hello_rejects_tls10() {
    let mut state = Handshake12State::new("example.com", [0x5a; 32]).unwrap();
    // Server responds with TLS 1.0 (0x0301) - should reject
    let server_hello = build_tls12_server_hello(0x0301, TLS_ECDHE_RSA_WITH_AES_128_GCM_SHA256);

    let result = state.parse_server_hello(&server_hello);
    assert!(result.is_err(), "Should reject TLS 1.0");
}

#[test]
fn test_tls12_parse_server_hello_rejects_ssl3() {
    let mut state = Handshake12State::new("example.com", [0x5a; 32]).unwrap();
    // Server responds with SSL 3.0 (0x0300) - should reject
    let server_hello = build_tls12_server_hello(0x0300, TLS_ECDHE_RSA_WITH_AES_128_GCM_SHA256);

    let result = state.parse_server_hello(&server_hello);
    assert!(result.is_err(), "Should reject SSL 3.0");
}

#[test]
fn tls12_rejects_tls13_and_unknown_versions_too() {
    for version in [0x0304u16, 0x0000, 0xffff, 0x0203] {
        let hello = build_tls12_server_hello(version, TLS_ECDHE_RSA_WITH_AES_128_GCM_SHA256);
        assert_eq!(
            decode_server_hello_12(&hello).unwrap_err(),
            HelloReject::UnexpectedVersion
        );
    }
}

#[test]
fn tls12_hello_sets_random_session_and_flag() {
    let mut hello = Vec::new();
    hello.extend_from_slice(&[3, 3]);
    hello.extend_from_slice(&[0xcd; 32]);
    hello.push(2);
    hello.extend_from_slice(&[0xe1, 0xe2]);
    hello.extend_from_slice(&[0xc0, 0x27]);
    hello.push(0);
    hello.extend_from_slice(&[0, 4, 0, 22, 0, 0]);
    let mut state = Handshake12State::new("example.com", [1; 32]).unwrap();
    state.parse_server_hello(&hello).unwrap();
    assert_eq!(state.cipher_suite, TLS_ECDHE_RSA_WITH_AES_128_CBC_SHA256);
    assert_eq!(state.server_random, vec![0xcd; 32]);
    assert_eq!(state.session_id, vec![0xe1, 0xe2]);
    assert!(state.encrypt_then_mac);
    assert_eq!(state.phase, Handshake12Phase::ReceivedServerHello);
    let mut framed = vec![2u8, 0, 0, hello.len() as u8];
    framed.extend_from_slice(&hello);
    assert_eq!(state.transcript, framed);

    let plain = build_tls12_server_hello(0x0303, TLS_ECDHE_RSA_WITH_AES_128_CBC_SHA);
    let mut other = Handshake12State::new("example.com", [1; 32]).unwrap();
    other.parse_server_hello(&plain).unwrap();
    assert!(!other.encrypt_then_mac);
}

#[test]
fn tls12_state_is_poisoned_by_a_rejected_hello() {
    let mut state = Handshake12State::new("example.com", [1; 32]).unwrap();
    let bad = build_tls12_server_hello(0x0302, TLS_ECDHE_RSA_WITH_AES_128_GCM_SHA256);
    assert!(state.parse_server_hello(&bad).is_err());
    assert_eq!(state.phase, Handshake12Phase::Failed);
    assert_eq!(state.cipher_suite, 0);
    assert!(state.transcript.is_empty());
    let good = build_tls12_server_hello(0x0303, TLS_ECDHE_RSA_WITH_AES_128_GCM_SHA256);
    assert!(matches!(
        state.parse_server_hello(&good),
        Err(TlsError::ConnectionClosed)
    ));
}

#[test]
fn tls12_second_hello_is_unexpected() {
    let mut state = Handshake12State::new("example.com", [1; 32]).unwrap();
    let good = build_tls12_server_hello(0x0303, TLS_ECDHE_RSA_WITH_AES_128_GCM_SHA256);
    state.parse_server_hello(&good).unwrap();
    match state.parse_server_hello(&good) {
        Err(TlsError::UnexpectedMessage { expected, got }) => {
            assert_eq!(expected, "Certificate");
            assert_eq!(got, "ServerHello");
        }
        other => panic!("unexpected outcome: {:?}", other),
    }
    assert_eq!(state.phase, Handshake12Phase::Failed);
}

#[test]
fn tls12_hello_structure_is_checked() {
    let good = build_tls12_server_hello(0x0303, TLS_ECDHE_RSA_WITH_AES_128_GCM_SHA256);
    assert_eq!(decode_server_hello_12(&good[..37]).unwrap_err(), HelloReject::Truncated);
    let mut suite = good.clone();
    suite[35] = 0x13;
    suite[36] = 0x01;
    assert_eq!(decode_server_hello_12(&suite).unwrap_err(), HelloReject::CipherSuite);
    let mut compression = good.clone();
    compression[37] = 1;
    assert_eq!(decode_server_hello_12(&compression).unwrap_err(), HelloReject::Compression);
    let mut dangling = good.clone();
    dangling.push(0);
    assert_eq!(decode_server_hello_12(&dangling).unwrap_err(), HelloReject::Extensions);
    let mut wrong_len = good.clone();
    wrong_len.extend_from_slice(&[0, 5, 0, 22, 0, 0]);
    assert_eq!(decode_server_hello_12(&wrong_len).unwrap_err(), HelloReject::Extensions);
}

#[test]
fn tls12_new_validates_the_server_name() {
    assert!(matches!(Handshake12State::new("", [0; 32]), Err(TlsError::Handshake(_))));
    assert!(matches!(Handshake12State::new("bad name", [0; 32]), Err(TlsError::Handshake(_))));
    assert!(Handshake12State::new("localhost", [0; 32]).is_ok());
}

#[test]
fn tls12_finished_is_twelve_bytes() {
    let data = [3u8; 12];
    assert_eq!(parse_finished(&data, &data).unwrap(), data.to_vec());
    assert!(matches!(parse_finished(&data, &[4u8; 12]), Err(TlsError::Handshake(_))));
    assert!(matches!(parse_finished(&data[..11], &data[..11]), Err(TlsError::Protocol(_))));
    assert!(matches!(parse_finished(&[3u8; 32], &[3u8; 32]), Err(TlsError::Protocol(_))));
}

fn tlv(tag: u8, content: &[u8]) -> Vec<u8> {
    let mut out = vec![tag];
    let n = content.len();
    if n < 128 {
        out.push(n as u8);
    } else if n < 256 {
        out.extend_from_slice(&[0x81, n as u8]);
    } else {
        out.extend_from_slice(&[0x82, (n >> 8) as u8, n as u8]);
    }
    out.extend_from_slice(content);
    out
}

fn join(parts: &[Vec<u8>]) -> Vec<u8> {
    parts.iter().flat_map(|p| p.iter().copied()).collect()
}

fn rsa_certificate() -> Vec<u8> {
    let signature_algorithm = tlv(
        0x30,
        &join(&[tlv(0x06, &[0x2a, 0x86, 0x48, 0x86, 0xf7, 0x0d, 0x01, 0x01, 11]), tlv(0x05, &[])]),
    );
    let name = tlv(
        0x30,
        &tlv(0x31, &tlv(0x30, &join(&[tlv(0x06, &[0x55, 0x04, 0x03]), tlv(0x0c, b"leaf")]))),
    );
    let key_algorithm = tlv(
        0x30,
        &join(&[tlv(0x06, &[0x2a, 0x86, 0x48, 0x86, 0xf7, 0x0d, 0x01, 0x01, 0x01]), tlv(0x05, &[])]),
    );
    let mut bits = vec![0u8];
    bits.extend_from_slice(&[0x77; 140]);
    let tbs = tlv(
        0x30,
        &join(&[
            tlv(0xa0, &tlv(0x02, &[2])),
            tlv(0x02, &[5]),
            signature_algorithm.clone(),
            name.clone(),
            tlv(0x30, &join(&[tlv(0x17, b"240101000000Z"), tlv(0x17, b"400101000000Z")])),
            name,
            tlv(0x30, &join(&[key_algorithm, tlv(0x03, &bits)])),
        ]),
    );
    tlv(0x30, &join(&[tbs, signature_algorithm, tlv(0x03, &[0, 1, 2, 3])]))
}

fn key_exchange(curve: u16, key: &[u8], scheme: u16, signature: &[u8]) -> Vec<u8> {
    let mut out = vec![3u8, (curve >> 8) as u8, curve as u8, key.len() as u8];
    out.extend_from_slice(key);
    out.extend_from_slice(&[(scheme >> 8) as u8, scheme as u8]);
    out.extend_from_slice(&[(signature.len() >> 8) as u8, signature.len() as u8]);
    out.extend_from_slice(signature);
    out
}

#[test]
fn server_key_exchange_is_taken_apart() {
    let body = key_exchange(0x001d, &[0x42; 32], 0x0401, &[9, 8, 7]);
    let exchange = parse_server_key_exchange(&body).unwrap();
    assert_eq!(exchange.curve, 0x001d);
    assert_eq!(exchange.public_key, vec![0x42; 32]);
    assert_eq!(exchange.params, &body[..36]);
    assert_eq!(exchange.scheme, 0x0401);
    assert_eq!(exchange.signature, vec![9, 8, 7]);
    let body = key_exchange(0x0017, &[4; 65], 0x0804, &[]);
    let exchange = parse_server_key_exchange(&body).unwrap();
    assert_eq!(exchange.public_key.len(), 65);
    assert!(exchange.signature.is_empty());
}

#[test]
fn server_key_exchange_errors_are_typed() {
    let good = key_exchange(0x001d, &[0x42; 32], 0x0401, &[9, 8, 7]);
    for len in 0..good.len() {
        assert!(
            matches!(parse_server_key_exchange(&good[..len]), Err(TlsError::Protocol(_))),
            "a prefix of {} bytes",
            len
        );
    }
    let mut trailing = good.clone();
    trailing.push(0);
    assert!(matches!(parse_server_key_exchange(&trailing), Err(TlsError::Protocol(_))));
    let mut explicit = good.clone();
    explicit[0] = 1;
    assert!(matches!(parse_server_key_exchange(&explicit), Err(TlsError::Protocol(_))));
    let other_curve = key_exchange(0x0018, &[4; 97], 0x0401, &[1]);
    assert!(matches!(parse_server_key_exchange(&other_curve), Err(TlsError::Handshake(_))));
    let short_key = key_exchange(0x001d, &[4; 31], 0x0401, &[1]);
    assert!(matches!(parse_server_key_exchange(&short_key), Err(TlsError::Handshake(_))));
}

#[test]
fn key_exchange_signature_covers_randoms_and_parameters() {
    let leaf = parse_der(&rsa_certificate()).unwrap();
    let body = key_exchange(0x001d, &[0x42; 32], 0x0804, &[9, 8, 7]);
    let exchange = parse_server_key_exchange(&body).unwrap();
    let check = key_exchange_signature(&leaf, &exchange, &[1; 32], &[2; 32]).unwrap();
    let mut signed = vec![1u8; 32];
    signed.extend_from_slice(&[2; 32]);
    signed.extend_from_slice(&body[..36]);
    assert_eq!(check.signed, signed);
    assert_eq!(check.signature, vec![9, 8, 7]);
    assert_eq!(check.key, leaf.spki);
    assert!(matches!(check.algorithm, SignatureAlgorithm::Scheme(0x0804)));
    for scheme in [0x0401u16, 0x0501, 0x0805] {
        let body = key_exchange(0x001d, &[0x42; 32], scheme, &[1]);
        let exchange = parse_server_key_exchange(&body).unwrap();
        assert!(key_exchange_signature(&leaf, &exchange, &[1; 32], &[2; 32]).is_ok());
    }
    for scheme in [0x0403u16, 0x0503, 0x0201, 0x0806] {
        let body = key_exchange(0x001d, &[0x42; 32], scheme, &[1]);
        let exchange = parse_server_key_exchange(&body).unwrap();
        assert!(matches!(
            key_exchange_signature(&leaf, &exchange, &[1; 32], &[2; 32]),
            Err(TlsError::Handshake(_))
        ));
    }
}

#[test]
fn client_key_exchange_is_the_key_behind_its_length() {
    let message = build_client_key_exchange(&[0x42; 32]).unwrap();
    let mut expect = vec![16u8, 0, 0, 33, 32];
    expect.extend_from_slice(&[0x42; 32]);
    assert_eq!(message, expect);
    assert_eq!(build_client_key_exchange(&[]).unwrap(), vec![16, 0, 0, 1, 0]);
    assert!(build_client_key_exchange(&[0; 255]).is_ok());
    assert!(matches!(build_client_key_exchange(&[0; 256]), Err(TlsError::Handshake(_))));
}

#[test]
fn tls12_messages_go_in_order() {
    let mut state = Handshake12State::new("example.com", [1; 32]).unwrap();
    let hello = state.build_client_hello();
    state.message_sent(1, &hello).unwrap();
    assert_eq!(state.phase, Handshake12Phase::SentClientHello);

    let server_hello = build_tls12_server_hello(0x0303, TLS_ECDHE_RSA_WITH_AES_128_GCM_SHA256);
    state.parse_server_hello(&server_hello).unwrap();

    let leaf = rsa_certificate();
    let mut list = vec![0u8, (leaf.len() >> 8) as u8, leaf.len() as u8];
    list.extend_from_slice(&leaf);
    let mut body = vec![0u8, (list.len() >> 8) as u8, list.len() as u8];
    body.extend_from_slice(&list);
    let chain = state.parse_certificate(&body).unwrap();
    assert_eq!(chain.len(), 1);

    let exchange_body = key_exchange(0x001d, &[0x42; 32], 0x0401, &[9, 8, 7]);
    let exchange = state.parse_server_key_exchange(&exchange_body).unwrap();
    assert!(key_exchange_signature(&chain[0], &exchange, &state.client_random, &state.server_random)
        .is_ok());
    state.parse_server_hello_done(&[]).unwrap();
    assert_eq!(state.phase, Handshake12Phase::ReceivedServerHelloDone);

    let key_message = build_client_key_exchange(&[0x24; 32]).unwrap();
    state.message_sent(16, &key_message).unwrap();
    let finished = [20u8, 0, 0, 12, 1, 2, 3, 4, 5, 6, 7, 8, 9, 10, 11, 12];
    state.message_sent(20, &finished).unwrap();
    assert_eq!(state.phase, Handshake12Phase::SentFinished);
    assert!(!state.is_complete());

    let mut transcript = hello.clone();
    for (msg_type, body) in [
        (2u8, &server_hello),
        (11, &body),
        (12, &exchange_body),
        (14, &Vec::new()),
    ] {
        transcript.extend_from_slice(&[msg_type, 0, (body.len() >> 8) as u8, body.len() as u8]);
        transcript.extend_from_slice(body);
    }
    transcript.extend_from_slice(&key_message);
    transcript.extend_from_slice(&finished);
    assert_eq!(state.transcript, transcript);

    state.parse_finished(&[7; 12], &[7; 12]).unwrap();
    assert!(state.is_complete());
    assert_eq!(state.transcript.len(), transcript.len() + 16);
}

#[test]
fn tls12_messages_out_of_order_fail_the_connection() {
    let server_hello = build_tls12_server_hello(0x0303, TLS_ECDHE_RSA_WITH_AES_128_GCM_SHA256);

    let mut state = Handshake12State::new("example.com", [1; 32]).unwrap();
    match state.parse_server_hello_done(&[]) {
        Err(TlsError::UnexpectedMessage { expected, got }) => {
            assert_eq!(expected, "ServerHello");
            assert_eq!(got, "ServerHelloDone");
        }
        other => panic!("unexpected outcome: {:?}", other),
    }
    assert_eq!(state.phase, Handshake12Phase::Failed);
    assert!(matches!(state.message_sent(1, &[]), Err(TlsError::ConnectionClosed)));

    let mut state = Handshake12State::new("example.com", [1; 32]).unwrap();
    state.parse_server_hello(&server_hello).unwrap();
    match state.parse_server_key_exchange(&key_exchange(0x001d, &[0x42; 32], 0x0401, &[1])) {
        Err(TlsError::UnexpectedMessage { expected, got }) => {
            assert_eq!(expected, "Certificate");
            assert_eq!(got, "ServerKeyExchange");
        }
        other => panic!("unexpected outcome: {:?}", other),
    }

    let mut state = Handshake12State::new("example.com", [1; 32]).unwrap();
    state.parse_server_hello(&server_hello).unwrap();
    assert!(matches!(state.message_sent(16, &[16, 0, 0, 0]), Err(TlsError::Handshake(_))));
    assert_eq!(state.phase, Handshake12Phase::Failed);

    let mut state = Handshake12State::new("example.com", [1; 32]).unwrap();
    assert!(matches!(
        state.parse_finished(&[0; 12], &[0; 12]),
        Err(TlsError::UnexpectedMessage { .. })
    ));
}

#[test]
fn tls12_hello_done_must_be_empty_and_finished_must_match() {
    let mut state = Handshake12State::new("example.com", [1; 32]).unwrap();
    state.phase = Handshake12Phase::ReceivedServerKeyExchange;
    assert!(matches!(state.parse_server_hello_done(&[0]), Err(TlsError::Protocol(_))));
    assert_eq!(state.phase, Handshake12Phase::Failed);

    let mut state = Handshake12State::new("example.com", [1; 32]).unwrap();
    state.phase = Handshake12Phase::SentFinished;
    assert!(matches!(state.parse_finished(&[1; 12], &[2; 12]), Err(TlsError::Handshake(_))));
    assert_eq!(state.phase, Handshake12Phase::Failed);
    state.fail();
    assert_eq!(state.phase, Handshake12Phase::Failed);
}

#[test]
fn tls12_phases_follow_the_message_order() {
    assert_eq!(advance_12(Handshake12Phase::Start, 2), Some(Handshake12Phase::ReceivedServerHello));
    assert_eq!(
        advance_12(Handshake12Phase::ReceivedServerHello, 11),
        Some(Handshake12Phase::ReceivedCertificate)
    );
    assert_eq!(
        advance_12(Handshake12Phase::ReceivedCertificate, 12),
        Some(Handshake12Phase::ReceivedServerKeyExchange)
    );
    assert_eq!(
        advance_12(Handshake12Phase::ReceivedServerKeyExchange, 14),
        Some(Handshake12Phase::ReceivedServerHelloDone)
    );
    assert_eq!(advance_12(Handshake12Phase::SentFinished, 20), Some(Handshake12Phase::Established));
    for phase in [
        Handshake12Phase::ReceivedServerHelloDone,
        Handshake12Phase::SentKeyExchange,
        Handshake12Phase::Established,
        Handshake12Phase::Failed,
    ] {
        for msg_type in [1u8, 2, 11, 12, 14, 16, 20] {
            assert_eq!(advance_12(phase, msg_type), None);
        }
    }
}

#[test]
fn suites_name_the_hash_of_their_prf() {
    assert_eq!(prf_hash(0xc02f).unwrap(), HashAlgorithm::Sha256);
    assert_eq!(prf_hash(0xc030).unwrap(), HashAlgorithm::Sha384);
    assert_eq!(prf_hash(0xc027).unwrap(), HashAlgorithm::Sha256);
    assert_eq!(prf_hash(0xc013).unwrap(), HashAlgorithm::Sha256);
    assert!(matches!(prf_hash(0x1301), Err(TlsError::Handshake(_))));
    assert!(matches!(prf_hash(0), Err(TlsError::Handshake(_))));
}

#[test]
fn cbc_suites_need_encrypt_then_mac() {
    let mut state = Handshake12State::new("example.com", [1; 32]).unwrap();
    assert!(matches!(state.protection_agreed(), Err(TlsError::Handshake(_))));
    let mut hello = build_tls12_server_hello(0x0303, TLS_ECDHE_RSA_WITH_AES_128_CBC_SHA256);
    state.parse_server_hello(&hello).unwrap();
    assert!(matches!(state.protection_agreed(), Err(TlsError::Handshake(_))));

    hello.extend_from_slice(&[0, 4, 0, 22, 0, 0]);
    let mut state = Handshake12State::new("example.com", [1; 32]).unwrap();
    state.parse_server_hello(&hello).unwrap();
    let params = state.protection_agreed().unwrap();
    assert_eq!((params.key_len, params.mac_key_len, params.is_aead), (16, 32, false));
    assert!(params.is_well_formed());

    let gcm = build_tls12_server_hello(0x0303, TLS_ECDHE_RSA_WITH_AES_256_GCM_SHA384);
    let mut state = Handshake12State::new("example.com", [1; 32]).unwrap();
    state.parse_server_hello(&gcm).unwrap();
    let params = state.protection_agreed().unwrap();
    assert_eq!((params.key_len, params.iv_len, params.is_aead), (32, 4, true));
}

#[test]
fn parameters_of_unknown_shape_are_not_well_formed() {
    let mut params = CipherSuiteParams::for_suite(0xc02f).unwrap();
    assert!(params.is_well_formed());
    params.iv_len = 12;
    assert!(!params.is_well_formed());
    let mut params = CipherSuiteParams::for_suite(0xc013).unwrap();
    assert!(params.is_well_formed());
    params.key_len = 32;
    assert!(!params.is_well_formed());
    let mut state = Handshake12State::new("example.com", [1; 32]).unwrap();
    assert!(state.is_well_formed());
    state.server_name = "not a name".to_string();
    assert!(!state.is_well_formed());
}
