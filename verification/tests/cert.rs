use webtor::tls::cert::{parse_chain, parse_der, parse_time, read_tlv};
use webtor::tls::error::TlsError;
use webtor::tls::handshake::parse_certificate;

fn tlv(tag: u8, content: &[u8]) -> Vec<u8> {
    let mut out = vec![tag];
    let n = content.len();
    if n < 128 {
        out.push(n as u8);
    } else if n < 256 {
        out.extend_from_slice(&[0x81, n as u8]);
    } else if n < 65536 {
        out.extend_from_slice(&[0x82, (n >> 8) as u8, n as u8]);
    } else {
        out.extend_from_slice(&[0x83, (n >> 16) as u8, (n >> 8) as u8, n as u8]);
    }
    out.extend_from_slice(content);
    out
}

fn join(parts: &[Vec<u8>]) -> Vec<u8> {
    parts.iter().flat_map(|p| p.iter().copied()).collect()
}

fn name(common_name: &str) -> Vec<u8> {
    let attribute = tlv(
        0x30,
        &join(&[tlv(0x06, &[0x55, 0x04, 0x03]), tlv(0x0c, common_name.as_bytes())]),
    );
    tlv(0x30, &tlv(0x31, &attribute))
}

fn spki() -> Vec<u8> {
    let algorithm = tlv(
        0x30,
        &join(&[
            tlv(0x06, &[0x2a, 0x86, 0x48, 0xce, 0x3d, 0x02, 0x01]),
            tlv(0x06, &[0x2a, 0x86, 0x48, 0xce, 0x3d, 0x03, 0x01, 0x07]),
        ]),
    );
    let mut bits = vec![0u8];
    bits.push(4);
    bits.extend_from_slice(&[0x55; 64]);
    tlv(0x30, &join(&[algorithm, tlv(0x03, &bits)]))
}

fn san(names: &[&str]) -> Vec<u8> {
    let general: Vec<Vec<u8>> = names.iter().map(|n| tlv(0x82, n.as_bytes())).collect();
    let value = tlv(0x30, &join(&general));
    let extension = tlv(0x30, &join(&[tlv(0x06, &[0x55, 0x1d, 0x11]), tlv(0x04, &value)]));
    tlv(0xa3, &tlv(0x30, &extension))
}

fn certificate(subject: &str, issuer: &str, names: &[&str]) -> Vec<u8> {
    let signature_algorithm = tlv(0x30, &tlv(0x06, &[0x2a, 0x86, 0x48, 0xce, 0x3d, 0x04, 0x03, 0x02]));
    let mut parts = vec![
        tlv(0xa0, &tlv(0x02, &[2])),
        tlv(0x02, &[0x01, 0x23]),
        signature_algorithm.clone(),
        name(issuer),
        tlv(
            0x30,
            &join(&[tlv(0x17, b"240101000000Z"), tlv(0x18, b"20500101000000Z")]),
        ),
        name(subject),
        spki(),
    ];
    if !names.is_empty() {
        parts.push(san(names));
    }
    let tbs = tlv(0x30, &join(&parts));
    let mut signature = vec![0u8];
    signature.extend_from_slice(&[0xab; 70]);
    tlv(0x30, &join(&[tbs, signature_algorithm, tlv(0x03, &signature)]))
}

fn message(certs: &[Vec<u8>]) -> Vec<u8> {
    let mut list = Vec::new();
    for c in certs {
        list.extend_from_slice(&[(c.len() >> 16) as u8, (c.len() >> 8) as u8, c.len() as u8]);
        list.extend_from_slice(c);
        list.extend_from_slice(&[0, 0]);
    }
    let mut out = vec![0u8];
    out.extend_from_slice(&[(list.len() >> 16) as u8, (list.len() >> 8) as u8, list.len() as u8]);
    out.extend_from_slice(&list);
    out
}

#[test]
fn certificate_fields_are_taken_apart() {
    let der = certificate("leaf.example", "Issuing CA", &["leaf.example", "*.leaf.example"]);
    let cert = parse_der(&der).expect("a well-formed certificate");
    assert_eq!(cert.raw, der);
    assert_eq!(cert.subject, name("leaf.example"));
    assert_eq!(cert.issuer, name("Issuing CA"));
    assert_eq!(cert.not_before, 2024_01_01_00_00_00);
    assert_eq!(cert.not_after, 2050_01_01_00_00_00);
    assert_eq!(cert.spki, spki());
    assert_eq!(cert.key_algorithm, vec![0x2a, 0x86, 0x48, 0xce, 0x3d, 0x02, 0x01]);
    let mut key = vec![4u8];
    key.extend_from_slice(&[0x55; 64]);
    assert_eq!(cert.public_key, key);
    assert_eq!(
        cert.signature_algorithm,
        vec![0x2a, 0x86, 0x48, 0xce, 0x3d, 0x04, 0x03, 0x02]
    );
    assert_eq!(cert.signature, vec![0xab; 70]);
    // The signed part is the first element inside the outer sequence,
    // whose header takes four bytes here.
    assert_eq!(&der[..2], &[0x30, 0x82]);
    assert_eq!(&der[4..4 + cert.tbs.len()], &cert.tbs[..]);
    assert_eq!(cert.tbs[0], 0x30);
    let san_field = san(&["leaf.example", "*.leaf.example"]);
    assert_eq!(cert.extensions, &san_field[2..]);
}

#[test]
fn certificate_without_version_or_extensions_parses() {
    let signature_algorithm = tlv(0x30, &tlv(0x06, &[0x2a, 0x03]));
    let tbs = tlv(
        0x30,
        &join(&[
            tlv(0x02, &[1]),
            signature_algorithm.clone(),
            name("a"),
            tlv(0x30, &join(&[tlv(0x17, b"490101000000Z"), tlv(0x17, b"500101000000Z")])),
            name("a"),
            spki(),
        ]),
    );
    let der = tlv(0x30, &join(&[tbs, signature_algorithm, tlv(0x03, &[0, 1])]));
    let cert = parse_der(&der).unwrap();
    assert!(cert.extensions.is_empty());
    assert_eq!(cert.not_before, 2049_01_01_00_00_00);
    assert_eq!(cert.not_after, 1950_01_01_00_00_00);
    assert_eq!(cert.signature, vec![1]);
}

#[test]
fn truncated_certificates_are_refused_at_every_length() {
    let der = certificate("leaf.example", "CA", &["leaf.example"]);
    for len in 0..der.len() {
        assert!(parse_der(&der[..len]).is_none(), "a prefix of {} bytes", len);
    }
    let mut longer = der.clone();
    longer.push(0);
    assert!(parse_der(&longer).is_none());
}

#[test]
fn every_single_byte_flip_is_survived() {
    let der = certificate("leaf.example", "CA", &["leaf.example"]);
    for i in 0..der.len() {
        let mut changed = der.clone();
        changed[i] ^= 0xff;
        let _ = parse_der(&changed);
        let _ = parse_certificate(&message(&[changed]));
    }
}

#[test]
fn der_elements_are_read_with_their_lengths() {
    let t = read_tlv(&[0x30, 0x02, 7, 8], 0, 4).unwrap();
    assert_eq!((t.tag, t.start, t.end), (0x30, 2, 4));
    let mut long = vec![0x04, 0x81, 0x80];
    long.extend_from_slice(&[0u8; 128]);
    let t = read_tlv(&long, 0, long.len()).unwrap();
    assert_eq!((t.tag, t.start, t.end), (0x04, 3, 131));
    let mut longer = vec![0x04, 0x82, 0x01, 0x00];
    longer.extend_from_slice(&[0u8; 256]);
    let t = read_tlv(&longer, 0, longer.len()).unwrap();
    assert_eq!((t.start, t.end), (4, 260));
    // An element inside a window.
    let t = read_tlv(&[9, 9, 0x02, 0x01, 5, 9], 2, 5).unwrap();
    assert_eq!((t.tag, t.start, t.end), (0x02, 4, 5));
}

#[test]
fn der_lengths_must_be_definite_minimal_and_in_bounds() {
    assert!(read_tlv(&[], 0, 0).is_none());
    assert!(read_tlv(&[0x30], 0, 1).is_none());
    assert!(read_tlv(&[0x30, 0x01], 0, 2).is_none());
    assert!(read_tlv(&[0x30, 0x80, 0, 0], 0, 4).is_none());
    assert!(read_tlv(&[0x30, 0x81, 0x7f], 0, 3).is_none());
    assert!(read_tlv(&[0x30, 0x82, 0x00, 0xff], 0, 4).is_none());
    assert!(read_tlv(&[0x30, 0x84, 0, 0, 0, 1, 0], 0, 7).is_none());
    assert!(read_tlv(&[0x1f, 0x01, 0], 0, 3).is_none());
    assert!(read_tlv(&[0x30, 0x02, 7, 8], 0, 3).is_none());
    assert!(read_tlv(&[0x30, 0x02, 7, 8], 0, 5).is_none());
    assert!(read_tlv(&[0x30, 0x02, 7, 8], 3, 2).is_none());
    assert!(read_tlv(&[0x30, 0x02, 7, 8], usize::MAX, 4).is_none());
}

#[test]
fn times_are_read_as_decimal_stamps() {
    assert_eq!(parse_time(0x17, b"991231235959Z"), Some(1999_12_31_23_59_59));
    assert_eq!(parse_time(0x17, b"000101000000Z"), Some(2000_01_01_00_00_00));
    assert_eq!(parse_time(0x17, b"491231235959Z"), Some(2049_12_31_23_59_59));
    assert_eq!(parse_time(0x17, b"500101000000Z"), Some(1950_01_01_00_00_00));
    assert_eq!(parse_time(0x18, b"20991231235959Z"), Some(2099_12_31_23_59_59));
    assert_eq!(parse_time(0x18, b"99991231235959Z"), Some(9999_12_31_23_59_59));
}

#[test]
fn malformed_times_are_refused() {
    assert_eq!(parse_time(0x17, b"9912312359Z"), None);
    assert_eq!(parse_time(0x17, b"991231235959+"), None);
    assert_eq!(parse_time(0x17, b"99123123595aZ"), None);
    assert_eq!(parse_time(0x17, b"991331235959Z"), None);
    assert_eq!(parse_time(0x17, b"990031235959Z"), None);
    assert_eq!(parse_time(0x17, b"991200235959Z"), None);
    assert_eq!(parse_time(0x17, b"991232235959Z"), None);
    assert_eq!(parse_time(0x17, b"991231245959Z"), None);
    assert_eq!(parse_time(0x17, b"991231236059Z"), None);
    assert_eq!(parse_time(0x17, b"991231235960Z"), None);
    assert_eq!(parse_time(0x18, b"991231235959Z"), None);
    assert_eq!(parse_time(0x17, b"20991231235959Z"), None);
    assert_eq!(parse_time(0x16, b"991231235959Z"), None);
    assert_eq!(parse_time(0x17, b""), None);
}

#[test]
fn certificate_message_gives_the_chain_leaf_first() {
    let leaf = certificate("leaf.example", "Intermediate", &["leaf.example"]);
    let middle = certificate("Intermediate", "Root", &[]);
    let chain = parse_certificate(&message(&[leaf.clone(), middle.clone()])).unwrap();
    assert_eq!(chain.len(), 2);
    assert_eq!(chain[0].raw, leaf);
    assert_eq!(chain[1].raw, middle);
    assert_eq!(chain[0].issuer, chain[1].subject);
}

#[test]
fn certificate_message_errors_are_typed() {
    for bad in [
        vec![],
        vec![0],
        vec![0, 0, 0],
        vec![0, 0, 0, 0],
        vec![0, 0, 0, 1, 0],
        vec![0, 0, 0, 5, 0, 0, 0, 0, 0],
        vec![1, 0, 0, 0, 0],
        vec![0xff; 64],
    ] {
        assert!(
            matches!(parse_certificate(&bad), Err(TlsError::Certificate(_))),
            "{:?}",
            bad
        );
    }
    let leaf = certificate("leaf.example", "CA", &[]);
    let mut short = message(&[leaf.clone()]);
    short.pop();
    assert!(matches!(parse_certificate(&short), Err(TlsError::Certificate(_))));
    let mut garbage_entry = message(&[leaf.clone(), vec![0x30, 0x00]]);
    assert!(matches!(parse_certificate(&garbage_entry), Err(TlsError::Certificate(_))));
    garbage_entry.clear();
    // A request context in front is skipped.
    let mut with_context = vec![2u8, 0xaa, 0xbb];
    with_context.extend_from_slice(&message(&[leaf])[1..]);
    assert_eq!(parse_certificate(&with_context).unwrap().len(), 1);
}

#[test]
fn tls12_certificate_list_has_no_entry_extensions() {
    let leaf = certificate("leaf.example", "CA", &[]);
    let mut list = vec![(leaf.len() >> 16) as u8, (leaf.len() >> 8) as u8, leaf.len() as u8];
    list.extend_from_slice(&leaf);
    assert_eq!(parse_chain(&list, false).unwrap().len(), 1);
    assert!(parse_chain(&list, true).is_none());
    assert!(parse_chain(&[], false).is_none());
    let mut body = vec![(list.len() >> 16) as u8, (list.len() >> 8) as u8, list.len() as u8];
    body.extend_from_slice(&list);
    let chain = webtor::tls::handshake_1_2::parse_certificate(&body).unwrap();
    assert_eq!(chain[0].raw, leaf);
    body.push(0);
    assert!(matches!(
        webtor::tls::handshake_1_2::parse_certificate(&body),
        Err(TlsError::Certificate(_))
    ));
}
