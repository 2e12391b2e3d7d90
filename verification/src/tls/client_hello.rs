//! The ClientHello of both protocol versions, and the rule for the server
//! names it may carry.

use vstd::prelude::*;
use crate::tls::codec::{be16_bytes, be24_bytes, push_all, push_u16, push_u24};

verus! {

/// Whether `c` may occur in a server name: a letter, a digit, a hyphen or a
/// dot.
pub open spec fn is_name_byte(c: u8) -> bool {
    (48 <= c <= 57) || (65 <= c <= 90) || (97 <= c <= 122) || c == 45 || c == 46
}

/// Whether `n` is acceptable as a server name: between 1 and 253 bytes of
/// letters, digits, hyphens and dots, neither starting nor ending with a
/// hyphen or a dot, and without an empty label.
pub open spec fn is_valid_hostname(n: Seq<u8>) -> bool {
    &&& 1 <= n.len() <= 253
    &&& forall|i: int| 0 <= i < n.len() ==> is_name_byte(#[trigger] n[i])
    &&& n[0] != 45 && n[0] != 46
    &&& n[n.len() - 1] != 45 && n[n.len() - 1] != 46
    &&& forall|i: int| 0 <= i < n.len() - 1 ==> !(#[trigger] n[i] == 46 && n[i + 1] == 46)
}

/// Checks a server name.
pub fn check_hostname(name: &[u8]) -> (ok: bool)
    ensures
        ok == is_valid_hostname(name@),
{
    let n = name.len();
    if n < 1 || n > 253 {
        return false;
    }
    if name[0] == 45 || name[0] == 46 || name[n - 1] == 45 || name[n - 1] == 46 {
        return false;
    }
    let mut i: usize = 0;
    while i < n
        invariant
            i <= n == name@.len(),
            forall|k: int| 0 <= k < i ==> is_name_byte(#[trigger] name@[k]),
            forall|k: int| 0 <= k < i && k < n - 1 ==> !(#[trigger] name@[k] == 46 && name@[k + 1]
                == 46),
        decreases n - i,
    {
        let c = name[i];
        let allowed = (48 <= c && c <= 57) || (65 <= c && c <= 90) || (97 <= c && c <= 122) || c
            == 45 || c == 46;
        if !allowed {
            return false;
        }
        if c == 46 && i + 1 < n && name[i + 1] == 46 {
            return false;
        }
        i += 1;
    }
    true
}

/// The server-name extension for `name`: one entry of type host name.
pub open spec fn sni_extension(name: Seq<u8>) -> Seq<u8> {
    seq![0u8, 0u8] + be16_bytes(name.len() as int + 5) + be16_bytes(name.len() as int + 3) + seq![0u8]
        + be16_bytes(name.len() as int) + name
}

/// The supported-versions extension, offering TLS 1.3 alone.
pub open spec fn supported_versions_extension() -> Seq<u8> {
    seq![0u8, 43u8, 0u8, 3u8, 2u8, 3u8, 4u8]
}

/// The supported-groups extension: X25519, then secp256r1.
pub open spec fn supported_groups_extension() -> Seq<u8> {
    seq![0u8, 10u8, 0u8, 6u8, 0u8, 4u8, 0u8, 0x1du8, 0u8, 0x17u8]
}

/// The signature-algorithms extension: ECDSA with P-256 and P-384, RSA-PSS
/// and RSA PKCS#1, each with SHA-256 and SHA-384.
pub open spec fn signature_algorithms_extension() -> Seq<u8> {
    seq![
        0u8,
        13u8,
        0u8,
        14u8,
        0u8,
        12u8,
        4u8,
        3u8,
        8u8,
        4u8,
        4u8,
        1u8,
        5u8,
        3u8,
        8u8,
        5u8,
        5u8,
        1u8,
    ]
}

/// The point-formats extension of TLS 1.2: uncompressed points only.
pub open spec fn point_formats_extension() -> Seq<u8> {
    seq![0u8, 11u8, 0u8, 2u8, 1u8, 0u8]
}

/// The extension that asks for CBC records to be encrypted first and
/// authenticated after.
pub open spec fn encrypt_then_mac_extension() -> Seq<u8> {
    seq![0u8, 22u8, 0u8, 0u8]
}

/// The key-share extension with one share, `key` for `group`.
pub open spec fn key_share_extension(group: u16, key: Seq<u8>) -> Seq<u8> {
    seq![0u8, 51u8] + be16_bytes(key.len() as int + 6) + be16_bytes(key.len() as int + 4) + be16_bytes(
        group as int,
    ) + be16_bytes(key.len() as int) + key
}

/// The extensions of a TLS 1.3 ClientHello.
pub open spec fn extensions_13(name: Seq<u8>, group: u16, key: Seq<u8>) -> Seq<u8> {
    sni_extension(name) + supported_versions_extension() + supported_groups_extension()
        + signature_algorithms_extension() + key_share_extension(group, key)
}

/// The extensions of a TLS 1.2 ClientHello.
pub open spec fn extensions_12(name: Seq<u8>) -> Seq<u8> {
    sni_extension(name) + supported_groups_extension() + point_formats_extension()
        + signature_algorithms_extension() + encrypt_then_mac_extension()
}

/// The cipher suites a TLS 1.3 ClientHello offers, behind their length.
pub open spec fn suites_13() -> Seq<u8> {
    seq![0u8, 6u8, 0x13u8, 0x01u8, 0x13u8, 0x02u8, 0x13u8, 0x03u8]
}

/// The cipher suites a TLS 1.2 ClientHello offers, behind their length.
pub open spec fn suites_12() -> Seq<u8> {
    seq![0u8, 8u8, 0xc0u8, 0x2fu8, 0xc0u8, 0x30u8, 0xc0u8, 0x27u8, 0xc0u8, 0x13u8]
}

/// A ClientHello body: legacy version, random, an empty session
/// identifier, the suites, null compression, and the extensions behind
/// their length.
pub open spec fn hello_body(random: Seq<u8>, suites: Seq<u8>, extensions: Seq<u8>) -> Seq<u8> {
    seq![3u8, 3u8] + random + seq![0u8] + suites + seq![1u8, 0u8] + be16_bytes(
        extensions.len() as int,
    ) + extensions
}

/// A handshake message: its type, the length of its body in three bytes,
/// and the body.
pub open spec fn framed(msg_type: u8, body: Seq<u8>) -> Seq<u8> {
    seq![msg_type] + be24_bytes(body.len() as int) + body
}

/// The TLS 1.3 ClientHello for a connection to `name`.
pub open spec fn client_hello_13(random: Seq<u8>, name: Seq<u8>, group: u16, key: Seq<u8>) -> Seq<
    u8,
> {
    framed(1, hello_body(random, suites_13(), extensions_13(name, group, key)))
}

/// A list of application protocols, each behind one length byte.
pub open spec fn protocol_list(protocols: Seq<Seq<u8>>) -> Seq<u8>
    decreases protocols.len(),
{
    if protocols.len() == 0 {
        Seq::empty()
    } else {
        protocol_list(protocols.drop_last()) + seq![protocols.last().len() as u8]
            + protocols.last()
    }
}

/// The extension that offers the application protocols `protocols`, the
/// preferred one first; nothing at all where there is none to offer.
pub open spec fn alpn_extension(protocols: Seq<Seq<u8>>) -> Seq<u8> {
    if protocols.len() == 0 {
        Seq::empty()
    } else {
        seq![0u8, 16u8] + be16_bytes(protocol_list(protocols).len() as int + 2) + be16_bytes(
            protocol_list(protocols).len() as int,
        ) + protocol_list(protocols)
    }
}

/// Whether the application protocols `protocols` can be offered: each
/// name has between 1 and 255 bytes, and all of them together fit into an
/// extension of a ClientHello.
pub open spec fn can_offer(protocols: Seq<Seq<u8>>) -> bool {
    &&& forall|i: int| 0 <= i < protocols.len() ==> 1 <= (#[trigger] protocols[i]).len() <= 255
    &&& protocol_list(protocols).len() <= 0x8000
}

/// The TLS 1.3 ClientHello for a connection to `name` that offers the
/// application protocols `protocols`.
pub open spec fn client_hello_with(
    random: Seq<u8>,
    name: Seq<u8>,
    group: u16,
    key: Seq<u8>,
    protocols: Seq<Seq<u8>>,
) -> Seq<u8> {
    framed(
        1,
        hello_body(
            random,
            suites_13(),
            extensions_13(name, group, key) + alpn_extension(protocols),
        ),
    )
}

/// The names of `protocols` as bytes.
pub open spec fn protocol_bytes(protocols: Seq<String>) -> Seq<Seq<u8>> {
    Seq::new(protocols.len(), |i: int| vstd::utf8::encode_utf8(protocols[i]@))
}

/// The TLS 1.2 ClientHello for a connection to `name`.
pub open spec fn client_hello_12(random: Seq<u8>, name: Seq<u8>) -> Seq<u8> {
    framed(1, hello_body(random, suites_12(), extensions_12(name)))
}

/// Appends the server-name extension.
fn push_sni(out: &mut Vec<u8>, name: &[u8])
    requires
        name@.len() <= 253,
    ensures
        final(out)@ == old(out)@ + sni_extension(name@),
{
    out.push(0);
    out.push(0);
    push_u16(out, (name.len() + 5) as u16);
    push_u16(out, (name.len() + 3) as u16);
    out.push(0);
    push_u16(out, name.len() as u16);
    push_all(out, name);
}

/// Appends the key-share extension.
fn push_key_share(out: &mut Vec<u8>, group: u16, key: &[u8])
    requires
        key@.len() <= 1024,
    ensures
        final(out)@ == old(out)@ + key_share_extension(group, key@),
{
    out.push(0);
    out.push(51);
    push_u16(out, (key.len() + 6) as u16);
    push_u16(out, (key.len() + 4) as u16);
    push_u16(out, group);
    push_u16(out, key.len() as u16);
    push_all(out, key);
}

/// Frames `body` as a handshake message of type `msg_type`.
pub fn frame_message(msg_type: u8, body: &[u8]) -> (out: Vec<u8>)
    requires
        body@.len() < 0x100_0000,
    ensures
        out@ == framed(msg_type, body@),
{
    let mut out: Vec<u8> = Vec::new();
    out.push(msg_type);
    push_u24(&mut out, body.len() as u32);
    push_all(&mut out, body);
    out
}

/// Puts a ClientHello body together.
fn build_body(random: &[u8], suites: &[u8], extensions: &[u8]) -> (out: Vec<u8>)
    requires
        extensions@.len() <= 0xffff,
    ensures
        out@ == hello_body(random@, suites@, extensions@),
{
    let mut out: Vec<u8> = Vec::new();
    out.push(3);
    out.push(3);
    push_all(&mut out, random);
    out.push(0);
    push_all(&mut out, suites);
    out.push(1);
    out.push(0);
    push_u16(&mut out, extensions.len() as u16);
    push_all(&mut out, extensions);
    out
}

/// Builds the extensions that every TLS 1.3 ClientHello carries.
fn build_extensions_13(name: &[u8], group: u16, key: &[u8]) -> (exts: Vec<u8>)
    requires
        name@.len() <= 253,
        key@.len() <= 1024,
    ensures
        exts@ == extensions_13(name@, group, key@),
        exts@.len() <= 2000,
{
    let mut exts: Vec<u8> = Vec::new();
    push_sni(&mut exts, name);
    let versions: [u8; 7] = [0, 43, 0, 3, 2, 3, 4];
    push_all(&mut exts, vstd::array::array_as_slice(&versions));
    let groups: [u8; 10] = [0, 10, 0, 6, 0, 4, 0, 0x1d, 0, 0x17];
    push_all(&mut exts, vstd::array::array_as_slice(&groups));
    let algorithms: [u8; 18] = [0, 13, 0, 14, 0, 12, 4, 3, 8, 4, 4, 1, 5, 3, 8, 5, 5, 1];
    push_all(&mut exts, vstd::array::array_as_slice(&algorithms));
    push_key_share(&mut exts, group, key);
    exts
}

/// Builds the TLS 1.3 ClientHello, handshake header included.
pub fn build_client_hello_13(random: &[u8], name: &[u8], group: u16, key: &[u8]) -> (out: Vec<u8>)
    requires
        random@.len() == 32,
        name@.len() <= 253,
        key@.len() <= 1024,
    ensures
        out@ == client_hello_13(random@, name@, group, key@),
{
    let exts = build_extensions_13(name, group, key);
    let suites: [u8; 8] = [0, 6, 0x13, 0x01, 0x13, 0x02, 0x13, 0x03];
    let body = build_body(random, vstd::array::array_as_slice(&suites), exts.as_slice());
    frame_message(1, body.as_slice())
}

/// Builds the list of an application-protocol extension, or says that the
/// protocols cannot be offered.
fn build_protocol_list(protocols: &Vec<String>) -> (r: Option<Vec<u8>>)
    ensures
        r is Some <==> can_offer(protocol_bytes(protocols@)),
        r matches Some(list) ==> list@ == protocol_list(protocol_bytes(protocols@)),
{
    let ghost all = protocol_bytes(protocols@);
    let mut list: Vec<u8> = Vec::new();
    let mut i: usize = 0;
    while i < protocols.len()
        invariant
            i <= protocols@.len(),
            all == protocol_bytes(protocols@),
            list@ == protocol_list(all.take(i as int)),
            list@.len() <= 0x8000,
            forall|k: int| 0 <= k < i ==> 1 <= (#[trigger] all[k]).len() <= 255,
        decreases protocols@.len() - i,
    {
        let name = protocols[i].as_str().as_bytes();
        assert(all.take(i + 1).drop_last() =~= all.take(i as int));
        assert(all.take(i + 1).last() == all[i as int]);
        if name.len() < 1 || name.len() > 255 {
            return None;
        }
        if list.len() + 1 + name.len() > 0x8000 {
            proof {
                lemma_protocol_list_grows(all, i + 1);
            }
            return None;
        }
        list.push(name.len() as u8);
        push_all(&mut list, name);
        i += 1;
    }
    assert(all.take(protocols@.len() as int) =~= all);
    Some(list)
}

/// A list of protocols is at least as long as the list of its first `n`.
proof fn lemma_protocol_list_grows(protocols: Seq<Seq<u8>>, n: int)
    requires
        0 <= n <= protocols.len(),
    ensures
        protocol_list(protocols.take(n)).len() <= protocol_list(protocols).len(),
    decreases protocols.len() - n,
{
    if n < protocols.len() {
        lemma_protocol_list_grows(protocols, n + 1);
        assert(protocols.take(n + 1).drop_last() =~= protocols.take(n));
    } else {
        assert(protocols.take(n) =~= protocols);
    }
}

/// Builds the TLS 1.3 ClientHello that offers the application protocols
/// `protocols`, handshake header included. Where the protocols cannot be
/// offered there is no hello.
pub fn build_client_hello_with(
    random: &[u8],
    name: &[u8],
    group: u16,
    key: &[u8],
    protocols: &Vec<String>,
) -> (r: Option<Vec<u8>>)
    requires
        random@.len() == 32,
        name@.len() <= 253,
        key@.len() <= 1024,
    ensures
        r is Some <==> can_offer(protocol_bytes(protocols@)),
        r matches Some(out) ==> out@ == client_hello_with(
            random@,
            name@,
            group,
            key@,
            protocol_bytes(protocols@),
        ),
{
    let list = build_protocol_list(protocols)?;
    let mut exts = build_extensions_13(name, group, key);
    if protocols.len() > 0 {
        exts.push(0);
        exts.push(16);
        push_u16(&mut exts, (list.len() + 2) as u16);
        push_u16(&mut exts, list.len() as u16);
        push_all(&mut exts, list.as_slice());
    }
    let suites: [u8; 8] = [0, 6, 0x13, 0x01, 0x13, 0x02, 0x13, 0x03];
    let body = build_body(random, vstd::array::array_as_slice(&suites), exts.as_slice());
    Some(frame_message(1, body.as_slice()))
}

/// Builds the TLS 1.2 ClientHello, handshake header included.
pub fn build_client_hello_12(random: &[u8], name: &[u8]) -> (out: Vec<u8>)
    requires
        random@.len() == 32,
        name@.len() <= 253,
    ensures
        out@ == client_hello_12(random@, name@),
{
    let mut exts: Vec<u8> = Vec::new();
    push_sni(&mut exts, name);
    let groups: [u8; 10] = [0, 10, 0, 6, 0, 4, 0, 0x1d, 0, 0x17];
    push_all(&mut exts, vstd::array::array_as_slice(&groups));
    let formats: [u8; 6] = [0, 11, 0, 2, 1, 0];
    push_all(&mut exts, vstd::array::array_as_slice(&formats));
    let algorithms: [u8; 18] = [0, 13, 0, 14, 0, 12, 4, 3, 8, 4, 4, 1, 5, 3, 8, 5, 5, 1];
    push_all(&mut exts, vstd::array::array_as_slice(&algorithms));
    let encrypt_then_mac: [u8; 4] = [0, 22, 0, 0];
    push_all(&mut exts, vstd::array::array_as_slice(&encrypt_then_mac));
    let suites: [u8; 10] = [0, 8, 0xc0, 0x2f, 0xc0, 0x30, 0xc0, 0x27, 0xc0, 0x13];
    let body = build_body(random, vstd::array::array_as_slice(&suites), exts.as_slice());
    frame_message(1, body.as_slice())
}

} // verus!
