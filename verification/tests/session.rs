use webtor::tls::cert::{parse_der, Certificate};
use webtor::tls::client_hello::frame_message;
use webtor::tls::connector::TlsConfig;
use webtor::tls::error::TlsError;
use webtor::tls::handshake::{
    parse_handshake_header, suite_parameters, HandshakePhase, HandshakeState, GROUP_X25519,
    TLS_AES_128_GCM_SHA256,
};
use webtor::tls::key_schedule::{
    application_secrets, finished_request, handshake_secrets, traffic_keys, Derivation,
    CLIENT_HANDSHAKE_SECRET, MASTER_SECRET, SERVER_HANDSHAKE_SECRET,
};
use webtor::tls::prf::HashAlgorithm;
use webtor::tls::record::{AeadRequest, ReadStep, RecordLayer, WriteStep};
use webtor::tls::trust_store::{conclude, handshake_signature, TrustStore};

fn mix(parts: &[&[u8]], out_len: usize) -> Vec<u8> {
    let mut state: u64 = 0xcbf2_9ce4_8422_2325;
    for part in parts {
        for &b in *part {
            state ^= b as u64;
            state = state.wrapping_mul(0x0000_0100_0000_01b3);
        }
        state ^= 0xff;
        state = state.wrapping_mul(0x0000_0100_0000_01b3);
    }
    let mut out = Vec::new();
    let mut counter: u64 = 0;
    while out.len() < out_len {
        let mut s = state ^ counter;
        s = s.wrapping_mul(0xbf58_476d_1ce4_e5b9);
        s ^= s >> 29;
        s = s.wrapping_mul(0x94d0_49bb_1331_11eb);
        s ^= s >> 32;
        out.extend_from_slice(&s.to_be_bytes());
        counter += 1;
    }
    out.truncate(out_len);
    out
}

fn digest(data: &[u8]) -> Vec<u8> {
    mix(&[b"digest", data], 32)
}

fn hmac(key: &[u8], data: &[u8]) -> Vec<u8> {
    mix(&[b"hmac", key, data], 32)
}

fn seal(key: &[u8], nonce: &[u8], aad: &[u8], input: &[u8]) -> Vec<u8> {
    let stream = mix(&[key, nonce], input.len());
    let mut out: Vec<u8> = input.iter().zip(stream).map(|(a, b)| a ^ b).collect();
    let tag = mix(&[key, nonce, aad, &out], 16);
    out.extend_from_slice(&tag);
    out
}

fn open(request: &AeadRequest) -> Option<Vec<u8>> {
    if request.input.len() < 16 {
        return None;
    }
    let (body, tag) = request.input.split_at(request.input.len() - 16);
    if mix(&[&request.key, &request.nonce, &request.aad, body], 16) != tag {
        return None;
    }
    let stream = mix(&[&request.key, &request.nonce], body.len());
    Some(body.iter().zip(stream).map(|(a, b)| a ^ b).collect())
}

fn run(mut derivation: Derivation) -> Derivation {
    assert!(derivation.is_well_formed());
    while let Some(request) = derivation.request() {
        derivation.respond(&hmac(&request.key, &request.data)).unwrap();
    }
    derivation
}

/// The far end of the connection, written down directly.
struct Peer {
    transcript: Vec<u8>,
    write_key: Vec<u8>,
    write_iv: Vec<u8>,
    write_sequence: u64,
    read_key: Vec<u8>,
    read_iv: Vec<u8>,
    read_sequence: u64,
}

fn expand(secret: &[u8], label: &[u8], context: &[u8], length: usize) -> Vec<u8> {
    let mut info = vec![(length >> 8) as u8, length as u8, (6 + label.len()) as u8];
    info.extend_from_slice(b"tls13 ");
    info.extend_from_slice(label);
    info.push(context.len() as u8);
    info.extend_from_slice(context);
    info.push(1);
    let mut out = hmac(secret, &info);
    out.truncate(length);
    out
}

fn nonce(iv: &[u8], sequence: u64) -> Vec<u8> {
    let mut out = iv.to_vec();
    for (i, b) in sequence.to_be_bytes().iter().enumerate() {
        out[4 + i] ^= b;
    }
    out
}

impl Peer {
    fn protect(&mut self, content_type: u8, payload: &[u8]) -> Vec<u8> {
        let mut inner = payload.to_vec();
        inner.push(content_type);
        let len = inner.len() + 16;
        let header = vec![23, 3, 3, (len >> 8) as u8, len as u8];
        let sealed = seal(
            &self.write_key,
            &nonce(&self.write_iv, self.write_sequence),
            &header,
            &inner,
        );
        self.write_sequence += 1;
        let mut record = header;
        record.extend_from_slice(&sealed);
        record
    }

    fn unprotect(&mut self, record: &[u8]) -> (u8, Vec<u8>) {
        let request = AeadRequest {
            suite: TLS_AES_128_GCM_SHA256,
            key: self.read_key.clone(),
            nonce: nonce(&self.read_iv, self.read_sequence),
            aad: record[..5].to_vec(),
            input: record[5..].to_vec(),
        };
        self.read_sequence += 1;
        let mut inner = open(&request).expect("the record of the client opens");
        let content_type = inner.pop().unwrap();
        (content_type, inner)
    }
}

fn tlv(tag: u8, content: &[u8]) -> Vec<u8> {
    let mut out = vec![tag];
    let n = content.len();
    if n < 128 {
        out.push(n as u8);
    } else if n < 256 {
        out.extend_from_slice(&[0x81, n as u8]);
    } else {
        out.extend_from_slice(&[0x82, (n >> 8) as u8, n as u8]);
    }
    out.extend_from_slice(content);
    out
}

fn join(parts: &[Vec<u8>]) -> Vec<u8> {
    parts.iter().flat_map(|p| p.iter().copied()).collect()
}

fn name(common_name: &str) -> Vec<u8> {
    let attribute = tlv(
        0x30,
        &join(&[tlv(0x06, &[0x55, 0x04, 0x03]), tlv(0x0c, common_name.as_bytes())]),
    );
    tlv(0x30, &tlv(0x31, &attribute))
}

fn certificate(subject: &str, issuer: &str, dns: &[&str]) -> Vec<u8> {
    let signature_algorithm =
        tlv(0x30, &tlv(0x06, &[0x2a, 0x86, 0x48, 0xce, 0x3d, 0x04, 0x03, 0x02]));
    let key_algorithm = tlv(
        0x30,
        &join(&[
            tlv(0x06, &[0x2a, 0x86, 0x48, 0xce, 0x3d, 0x02, 0x01]),
            tlv(0x06, &[0x2a, 0x86, 0x48, 0xce, 0x3d, 0x03, 0x01, 0x07]),
        ]),
    );
    let mut bits = vec![0u8, 4];
    bits.extend_from_slice(&[0x33; 64]);
    let mut parts = vec![
        tlv(0xa0, &tlv(0x02, &[2])),
        tlv(0x02, &[7]),
        signature_algorithm.clone(),
        name(issuer),
        tlv(0x30, &join(&[tlv(0x17, b"240101000000Z"), tlv(0x17, b"400101000000Z")])),
        name(subject),
        tlv(0x30, &join(&[key_algorithm, tlv(0x03, &bits)])),
    ];
    if !dns.is_empty() {
        let general: Vec<Vec<u8>> = dns.iter().map(|n| tlv(0x82, n.as_bytes())).collect();
        let value = tlv(0x30, &join(&general));
        let extension = tlv(0x30, &join(&[tlv(0x06, &[0x55, 0x1d, 0x11]), tlv(0x04, &value)]));
        parts.push(tlv(0xa3, &tlv(0x30, &extension)));
    }
    let tbs = tlv(0x30, &join(&parts));
    tlv(0x30, &join(&[tbs, signature_algorithm, tlv(0x03, &[0, 9, 9])]))
}

fn server_hello() -> Vec<u8> {
    let mut body = vec![3u8, 3];
    body.extend_from_slice(&[0xaa; 32]);
    body.push(0);
    body.extend_from_slice(&[0x13, 0x01]);
    body.push(0);
    let mut extensions = vec![0u8, 43, 0, 2, 3, 4, 0, 51, 0, 36, 0, 0x1d, 0, 32];
    extensions.extend_from_slice(&[0xbb; 32]);
    body.extend_from_slice(&[0, extensions.len() as u8]);
    body.extend_from_slice(&extensions);
    body
}

fn read_message(layer: &mut RecordLayer, record: &[u8]) -> (u8, Vec<u8>) {
    let (content_type, payload) = match layer.read_record(record).unwrap() {
        ReadStep::Plain(content_type, payload) => (content_type, payload),
        ReadStep::Open(pending) => pending.complete(open(&pending.request).as_deref()).unwrap(),
    };
    assert_eq!(content_type, 22);
    let (msg_type, length, rest) = parse_handshake_header(&payload).unwrap();
    assert_eq!(rest.len(), length);
    (msg_type, rest.to_vec())
}

/// Installs the keys that two derivations came to: the client's for
/// writing, the server's for reading.
fn install(layer: &mut RecordLayer, suite: u16, client: &Derivation, server: &Derivation) {
    layer
        .set_write_cipher(suite, &client.outcome(0).unwrap(), &client.outcome(1).unwrap())
        .unwrap();
    layer
        .set_read_cipher(suite, &server.outcome(0).unwrap(), &server.outcome(1).unwrap())
        .unwrap();
}

fn write(layer: &mut RecordLayer, content_type: u8, payload: &[u8]) -> Vec<u8> {
    match layer.write_record(content_type, payload).unwrap() {
        WriteStep::Plain(record) => record,
        WriteStep::Seal(pending) => {
            let request = &pending.request;
            let sealed = seal(&request.key, &request.nonce, &request.aad, &request.input);
            pending.complete(&sealed).unwrap()
        }
    }
}

#[test]
fn a_whole_handshake_and_an_exchange_of_data() {
    let shared = [0x5cu8; 32];
    let leaf_der = certificate("leaf", "Root", &["example.com"]);
    let root_der = certificate("Root", "Root", &[]);
    let mut trust = TrustStore::new();
    trust.add_anchor(&root_der).unwrap();
    let config = TlsConfig::default();

    // The client says hello.
    let mut state =
        HandshakeState::new("example.com", [0x11; 32], GROUP_X25519, vec![0x22; 32]).unwrap();
    let mut records = RecordLayer::new();
    let hello = state.build_client_hello_for(&config).unwrap();
    let record = write(&mut records, 22, &hello);
    state.client_hello_sent(&hello).unwrap();
    assert_eq!(&record[5..], &hello[..]);

    // The server answers, and derives its keys on its own.
    let hello_body = server_hello();
    let hello_message = frame_message(2, &hello_body);
    let mut transcript = hello.clone();
    transcript.extend_from_slice(&hello_message);
    let zeros = [0u8; 32];
    let early = hmac(&zeros, &zeros);
    let derived = expand(&early, b"derived", &digest(&[]), 32);
    let handshake_secret = hmac(&derived, &shared);
    let hello_hash = digest(&transcript);
    let client_secret = expand(&handshake_secret, b"c hs traffic", &hello_hash, 32);
    let server_secret = expand(&handshake_secret, b"s hs traffic", &hello_hash, 32);
    let mut peer = Peer {
        transcript,
        write_key: expand(&server_secret, b"key", &[], 16),
        write_iv: expand(&server_secret, b"iv", &[], 12),
        write_sequence: 0,
        read_key: expand(&client_secret, b"key", &[], 16),
        read_iv: expand(&client_secret, b"iv", &[], 12),
        read_sequence: 0,
    };

    // The client takes the hello in and derives the same keys.
    let mut plain = vec![22u8, 3, 3, 0, hello_message.len() as u8];
    plain.extend_from_slice(&hello_message);
    let (msg_type, body) = read_message(&mut records, &plain);
    assert_eq!(msg_type, 2);
    state.parse_server_hello(&body).unwrap();
    let (hash, key_len) = suite_parameters(state.cipher_suite).unwrap();
    assert_eq!((hash, key_len), (HashAlgorithm::Sha256, 16));
    let (group, peer_key) = state.key_agreement().unwrap();
    assert_eq!((group, peer_key), (GROUP_X25519, vec![0xbb; 32]));
    let secrets = run(
        handshake_secrets(hash, &shared, &digest(&[]), &digest(&state.transcript)).unwrap(),
    );
    let client_secret_here = secrets.outcome(CLIENT_HANDSHAKE_SECRET).unwrap();
    let server_secret_here = secrets.outcome(SERVER_HANDSHAKE_SECRET).unwrap();
    assert_eq!(client_secret_here, client_secret);
    assert_eq!(server_secret_here, server_secret);
    let client_keys = run(traffic_keys(hash, &client_secret_here, key_len).unwrap());
    let server_keys = run(traffic_keys(hash, &server_secret_here, key_len).unwrap());
    assert_eq!(server_keys.outcome(0).unwrap(), peer.write_key);
    assert_eq!(server_keys.outcome(1).unwrap(), peer.write_iv);
    assert_eq!(client_keys.outcome(0).unwrap(), peer.read_key);
    install(&mut records, state.cipher_suite, &client_keys, &server_keys);

    // EncryptedExtensions.
    let message = frame_message(8, &[0, 0]);
    peer.transcript.extend_from_slice(&message);
    let record = peer.protect(22, &message);
    let (msg_type, body) = read_message(&mut records, &record);
    assert_eq!(msg_type, 8);
    state.parse_encrypted_extensions(&body).unwrap();

    // Certificate.
    let mut list = Vec::new();
    list.extend_from_slice(&[0, (leaf_der.len() >> 8) as u8, leaf_der.len() as u8]);
    list.extend_from_slice(&leaf_der);
    list.extend_from_slice(&[0, 0]);
    let mut body = vec![0u8, 0, (list.len() >> 8) as u8, list.len() as u8];
    body.extend_from_slice(&list);
    let message = frame_message(11, &body);
    peer.transcript.extend_from_slice(&message);
    let record = peer.protect(22, &message);
    let (msg_type, body) = read_message(&mut records, &record);
    assert_eq!(msg_type, 11);
    let chain: Vec<Certificate> = state.parse_certificate(&body).unwrap();
    assert_eq!(chain.len(), 1);
    assert_eq!(chain[0].raw, parse_der(&leaf_der).unwrap().raw);

    // CertificateVerify.
    let signed_hash = digest(&state.transcript);
    assert_eq!(signed_hash, digest(&peer.transcript));
    let message = frame_message(15, &[4, 3, 0, 3, 0xd1, 0xd2, 0xd3]);
    peer.transcript.extend_from_slice(&message);
    let record = peer.protect(22, &message);
    let (msg_type, body) = read_message(&mut records, &record);
    assert_eq!(msg_type, 15);
    let (scheme, signature) = state.parse_certificate_verify(&body).unwrap();
    let proof = handshake_signature(&chain[0], scheme, &signature, &signed_hash).unwrap();
    assert_eq!(&proof.signed[98..], &signed_hash[..]);
    let checks = trust.evaluate(&config, &chain, b"example.com", 2026_10_28_00_00_00).unwrap();
    assert_eq!(checks.len(), 1);
    conclude(checks.len(), &[true]).unwrap();

    // Finished of the server.
    let server_finished_key = expand(&server_secret, b"finished", &[], 32);
    let verify_data = hmac(&server_finished_key, &digest(&peer.transcript));
    let message = frame_message(20, &verify_data);
    peer.transcript.extend_from_slice(&message);
    let record = peer.protect(22, &message);
    let (msg_type, body) = read_message(&mut records, &record);
    assert_eq!(msg_type, 20);
    let request =
        finished_request(hash, &server_keys.outcome(2).unwrap(), &digest(&state.transcript));
    let expected = hmac(&request.key, &request.data);
    state.parse_finished(&body, &expected).unwrap();
    assert_eq!(state.phase, HandshakePhase::ReceivedFinished);
    assert_eq!(state.transcript, peer.transcript);

    // Finished of the client.
    let full_hash = digest(&state.transcript);
    let request = finished_request(hash, &client_keys.outcome(2).unwrap(), &full_hash);
    let finished = frame_message(20, &hmac(&request.key, &request.data));
    let record = write(&mut records, 22, &finished);
    state.client_finished_sent(&finished).unwrap();
    assert!(state.is_complete());
    let (content_type, got) = peer.unprotect(&record);
    assert_eq!(content_type, 22);
    assert_eq!(got, finished);
    let client_finished_key = expand(&client_secret, b"finished", &[], 32);
    assert_eq!(&got[4..], &hmac(&client_finished_key, &digest(&peer.transcript))[..]);

    // Both sides move on to the keys for application data.
    let master_here = secrets.outcome(MASTER_SECRET).unwrap();
    let application = run(application_secrets(hash, &master_here, &full_hash).unwrap());
    let client_keys = run(traffic_keys(hash, &application.outcome(0).unwrap(), key_len).unwrap());
    let server_keys = run(traffic_keys(hash, &application.outcome(1).unwrap(), key_len).unwrap());
    install(&mut records, state.cipher_suite, &client_keys, &server_keys);
    let derived = expand(&handshake_secret, b"derived", &digest(&[]), 32);
    let master = hmac(&derived, &zeros);
    let client_secret = expand(&master, b"c ap traffic", &digest(&peer.transcript), 32);
    let server_secret = expand(&master, b"s ap traffic", &digest(&peer.transcript), 32);
    peer.read_key = expand(&client_secret, b"key", &[], 16);
    peer.read_iv = expand(&client_secret, b"iv", &[], 12);
    peer.read_sequence = 0;
    peer.write_key = expand(&server_secret, b"key", &[], 16);
    peer.write_iv = expand(&server_secret, b"iv", &[], 12);
    peer.write_sequence = 0;

    // Data goes both ways.
    for round in 0..3u8 {
        let request = vec![round; 100 + round as usize];
        let record = write(&mut records, 23, &request);
        assert_eq!(peer.unprotect(&record), (23, request));
        let answer = vec![0xf0 | round; 1000];
        let record = peer.protect(23, &answer);
        match records.read_record(&record).unwrap() {
            ReadStep::Open(pending) => {
                let opened = open(&pending.request);
                assert_eq!(pending.complete(opened.as_deref()).unwrap(), (23, answer));
            }
            ReadStep::Plain(..) => panic!("the direction is protected"),
        }
    }
}

#[test]
fn a_wrong_finished_fails_the_connection() {
    let mut state =
        HandshakeState::new("example.com", [0x11; 32], GROUP_X25519, vec![0x22; 32]).unwrap();
    state.parse_server_hello(&server_hello()).unwrap();
    let leaf_der = certificate("leaf", "Root", &["example.com"]);
    let mut list = vec![0u8, (leaf_der.len() >> 8) as u8, leaf_der.len() as u8];
    list.extend_from_slice(&leaf_der);
    list.extend_from_slice(&[0, 0]);
    let mut body = vec![0u8, 0, (list.len() >> 8) as u8, list.len() as u8];
    body.extend_from_slice(&list);
    state.parse_certificate(&body).unwrap();
    state.parse_certificate_verify(&[4, 3, 0, 1, 9]).unwrap();
    let before = state.transcript.clone();
    assert!(matches!(
        state.parse_finished(&[1u8; 32], &[2u8; 32]),
        Err(TlsError::Handshake(_))
    ));
    assert_eq!(state.phase, HandshakePhase::Failed);
    assert_eq!(state.transcript, before);
    assert!(matches!(
        state.parse_finished(&[2u8; 32], &[2u8; 32]),
        Err(TlsError::ConnectionClosed)
    ));
    assert!(matches!(state.client_finished_sent(&[]), Err(TlsError::ConnectionClosed)));
}

#[test]
fn key_agreement_needs_a_hello_and_the_offered_group() {
    let mut state =
        HandshakeState::new("example.com", [0x11; 32], GROUP_X25519, vec![0x22; 32]).unwrap();
    assert!(matches!(state.key_agreement(), Err(TlsError::Handshake(_))));
    state.parse_server_hello(&server_hello()).unwrap();
    assert_eq!(state.key_agreement().unwrap(), (GROUP_X25519, vec![0xbb; 32]));

    let mut other =
        HandshakeState::new("example.com", [0x11; 32], 0x0017, vec![4; 65]).unwrap();
    other.parse_server_hello(&server_hello()).unwrap();
    assert_eq!(other.selected_group, GROUP_X25519);
    assert!(matches!(other.key_agreement(), Err(TlsError::Handshake(_))));
}
