use webtor::tls::error::TlsError;
use webtor::tls::key_schedule::{
    application_secrets, finished_request, handshake_secrets, make_expand_data, traffic_keys,
    Derivation, CLIENT_HANDSHAKE_SECRET, MASTER_SECRET, SERVER_HANDSHAKE_SECRET,
};
use webtor::tls::prf::HashAlgorithm;

fn keyed(key: &[u8], data: &[u8], out_len: usize) -> Vec<u8> {
    let mut state: u64 = 0xcbf2_9ce4_8422_2325;
    for part in [key, data] {
        for &b in part {
            state ^= b as u64;
            state = state.wrapping_mul(0x0000_0100_0000_01b3);
        }
        state ^= 0xff;
        state = state.wrapping_mul(0x0000_0100_0000_01b3);
    }
    let mut out = Vec::new();
    let mut counter: u64 = 0;
    while out.len() < out_len {
        let mut s = state ^ counter;
        s = s.wrapping_mul(0xbf58_476d_1ce4_e5b9);
        s ^= s >> 29;
        s = s.wrapping_mul(0x94d0_49bb_1331_11eb);
        s ^= s >> 32;
        out.extend_from_slice(&s.to_be_bytes());
        counter += 1;
    }
    out.truncate(out_len);
    out
}

fn run(derivation: &mut Derivation) {
    let len = derivation.hash.output_len();
    while let Some(request) = derivation.request() {
        derivation.respond(&keyed(&request.key, &request.data, len)).unwrap();
    }
    assert!(derivation.done());
}

fn label(length: u16, text: &[u8], context: &[u8]) -> Vec<u8> {
    let mut out = vec![(length >> 8) as u8, length as u8, (6 + text.len()) as u8];
    out.extend_from_slice(b"tls13 ");
    out.extend_from_slice(text);
    out.push(context.len() as u8);
    out.extend_from_slice(context);
    out.push(1);
    out
}

fn expand(secret: &[u8], text: &[u8], context: &[u8], length: usize, hash_len: usize) -> Vec<u8> {
    let mut out = keyed(secret, &label(length as u16, text, context), hash_len);
    out.truncate(length);
    out
}

#[test]
fn expand_label_data_is_the_hkdf_label_and_a_counter() {
    assert_eq!(
        make_expand_data(32, b"derived", &[0xaa, 0xbb]),
        vec![
            0, 32, 13, b't', b'l', b's', b'1', b'3', b' ', b'd', b'e', b'r', b'i', b'v', b'e',
            b'd', 2, 0xaa, 0xbb, 1
        ]
    );
    assert_eq!(
        make_expand_data(12, b"iv", &[]),
        vec![0, 12, 8, b't', b'l', b's', b'1', b'3', b' ', b'i', b'v', 0, 1]
    );
    assert_eq!(make_expand_data(0x0123, b"", &[]), vec![1, 0x23, 6, 116, 108, 115, 49, 51, 32, 0, 1]);
}

#[test]
fn handshake_secrets_follow_the_key_schedule() {
    let shared = [0x11u8; 32];
    let empty_hash = [0x22u8; 32];
    let hello_hash = [0x33u8; 32];
    let mut derivation =
        handshake_secrets(HashAlgorithm::Sha256, &shared, &empty_hash, &hello_hash).unwrap();
    assert_eq!(derivation.steps.len(), 7);
    let first = derivation.request().unwrap();
    assert_eq!(first.hash, HashAlgorithm::Sha256);
    assert_eq!(first.key, vec![0u8; 32]);
    assert_eq!(first.data, vec![0u8; 32]);
    run(&mut derivation);

    let zeros = [0u8; 32];
    let early = keyed(&zeros, &zeros, 32);
    let derived = expand(&early, b"derived", &empty_hash, 32, 32);
    let handshake = keyed(&derived, &shared, 32);
    let client = expand(&handshake, b"c hs traffic", &hello_hash, 32, 32);
    let server = expand(&handshake, b"s hs traffic", &hello_hash, 32, 32);
    let derived_again = expand(&handshake, b"derived", &empty_hash, 32, 32);
    let master = keyed(&derived_again, &zeros, 32);
    assert_eq!(derivation.outcome(CLIENT_HANDSHAKE_SECRET).unwrap(), client);
    assert_eq!(derivation.outcome(SERVER_HANDSHAKE_SECRET).unwrap(), server);
    assert_eq!(derivation.outcome(MASTER_SECRET).unwrap(), master);
    assert_ne!(client, server);
    assert!(derivation.outcome(7).is_none());
}

#[test]
fn handshake_secrets_for_sha384_are_48_bytes() {
    let mut derivation =
        handshake_secrets(HashAlgorithm::Sha384, &[1u8; 48], &[2u8; 48], &[3u8; 48]).unwrap();
    assert_eq!(derivation.request().unwrap().key.len(), 48);
    assert!(matches!(derivation.respond(&[0u8; 32]), Err(TlsError::Crypto(_))));
    run(&mut derivation);
    assert_eq!(derivation.outcome(MASTER_SECRET).unwrap().len(), 48);
}

#[test]
fn hashes_must_have_the_length_of_the_hash() {
    assert!(matches!(
        handshake_secrets(HashAlgorithm::Sha256, &[1u8; 32], &[2u8; 31], &[3u8; 32]),
        Err(TlsError::Crypto(_))
    ));
    assert!(matches!(
        handshake_secrets(HashAlgorithm::Sha256, &[1u8; 32], &[2u8; 32], &[3u8; 48]),
        Err(TlsError::Crypto(_))
    ));
    assert!(handshake_secrets(HashAlgorithm::Sha256, &[], &[2u8; 32], &[3u8; 32]).is_ok());
    assert!(matches!(
        application_secrets(HashAlgorithm::Sha384, &[1u8; 48], &[2u8; 32]),
        Err(TlsError::Crypto(_))
    ));
}

#[test]
fn application_secrets_are_expanded_from_the_master_secret() {
    let master = [0x44u8; 32];
    let finished_hash = [0x55u8; 32];
    let mut derivation =
        application_secrets(HashAlgorithm::Sha256, &master, &finished_hash).unwrap();
    run(&mut derivation);
    assert_eq!(
        derivation.outcome(0).unwrap(),
        expand(&master, b"c ap traffic", &finished_hash, 32, 32)
    );
    assert_eq!(
        derivation.outcome(1).unwrap(),
        expand(&master, b"s ap traffic", &finished_hash, 32, 32)
    );
    assert!(derivation.outcome(2).is_none());
}

#[test]
fn traffic_keys_are_key_iv_and_finished_key() {
    let secret = [0x66u8; 32];
    for key_len in [16usize, 32] {
        let mut derivation = traffic_keys(HashAlgorithm::Sha256, &secret, key_len).unwrap();
        run(&mut derivation);
        assert_eq!(derivation.outcome(0).unwrap(), expand(&secret, b"key", &[], key_len, 32));
        assert_eq!(derivation.outcome(1).unwrap(), expand(&secret, b"iv", &[], 12, 32));
        assert_eq!(derivation.outcome(2).unwrap(), expand(&secret, b"finished", &[], 32, 32));
    }
    let mut wide = traffic_keys(HashAlgorithm::Sha384, &[7u8; 48], 32).unwrap();
    run(&mut wide);
    assert_eq!(wide.outcome(0).unwrap().len(), 32);
    assert_eq!(wide.outcome(1).unwrap().len(), 12);
    assert_eq!(wide.outcome(2).unwrap().len(), 48);
}

#[test]
fn key_lengths_are_sixteen_or_thirty_two() {
    for key_len in [0usize, 12, 24, 33, 48] {
        assert!(matches!(
            traffic_keys(HashAlgorithm::Sha256, &[0u8; 32], key_len),
            Err(TlsError::Crypto(_))
        ));
    }
    assert!(matches!(
        traffic_keys(HashAlgorithm::Sha1, &[0u8; 20], 32),
        Err(TlsError::Crypto(_))
    ));
    assert!(traffic_keys(HashAlgorithm::Sha1, &[0u8; 20], 16).is_ok());
}

#[test]
fn derivation_takes_one_answer_per_step() {
    let mut derivation =
        application_secrets(HashAlgorithm::Sha256, &[1u8; 32], &[2u8; 32]).unwrap();
    assert!(!derivation.done());
    assert!(derivation.outcome(0).is_none());
    assert!(matches!(derivation.respond(&[0u8; 31]), Err(TlsError::Crypto(_))));
    assert!(derivation.outcomes.is_empty());
    derivation.respond(&[0xa0u8; 32]).unwrap();
    assert_eq!(derivation.outcome(0).unwrap(), vec![0xa0u8; 32]);
    derivation.respond(&[0xb0u8; 32]).unwrap();
    assert!(derivation.done());
    assert!(derivation.request().is_none());
    assert!(matches!(derivation.respond(&[0u8; 32]), Err(TlsError::Crypto(_))));
    assert_eq!(derivation.outcomes.len(), 2);
}

#[test]
fn finished_request_is_the_hash_under_the_finished_key() {
    let request = finished_request(HashAlgorithm::Sha384, &[1, 2, 3], &[4, 5]);
    assert_eq!(request.hash, HashAlgorithm::Sha384);
    assert_eq!(request.key, vec![1, 2, 3]);
    assert_eq!(request.data, vec![4, 5]);
}

#[test]
fn derivations_check_their_own_shape() {
    let mut derivation =
        application_secrets(HashAlgorithm::Sha256, &[1u8; 32], &[2u8; 32]).unwrap();
    assert!(derivation.is_well_formed());
    derivation.outcomes.push(vec![0u8; 31]);
    assert!(!derivation.is_well_formed());
    derivation.outcomes[0].push(0);
    assert!(derivation.is_well_formed());
    derivation.steps[1].keep = 33;
    assert!(!derivation.is_well_formed());
    let mut derivation =
        handshake_secrets(HashAlgorithm::Sha256, &[1u8; 32], &[2u8; 32], &[3u8; 32]).unwrap();
    derivation.steps.swap(0, 1);
    assert!(!derivation.is_well_formed());
}
