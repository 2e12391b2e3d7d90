//! TLS 1.3 handshake messages: framing, the ServerHello and its extensions,
//! the messages that follow it, and the order in which they may arrive.

use vstd::prelude::*;
use vstd::string::*;
use crate::tls::cert::{certificate_list, is_chain, parse_chain, parsed_from, Certificate};
use crate::tls::client_hello::{
    build_client_hello_13, build_client_hello_with, can_offer, check_hostname, client_hello_13,
    client_hello_with, framed, is_valid_hostname, protocol_bytes,
};
use crate::tls::codec::{
    be16, be24, bytes_equal, copy_range, push_all, push_u24, read_u16, read_u24,
};
use crate::tls::connector::TlsConfig;
use crate::tls::error::TlsError;
use crate::tls::prf::HashAlgorithm;

verus! {

pub const CONTENT_TYPE_CHANGE_CIPHER_SPEC: u8 = 20;

pub const CONTENT_TYPE_ALERT: u8 = 21;

pub const CONTENT_TYPE_HANDSHAKE: u8 = 22;

pub const CONTENT_TYPE_APPLICATION_DATA: u8 = 23;

pub const HANDSHAKE_CLIENT_HELLO: u8 = 1;

pub const HANDSHAKE_SERVER_HELLO: u8 = 2;

pub const HANDSHAKE_ENCRYPTED_EXTENSIONS: u8 = 8;

pub const HANDSHAKE_CERTIFICATE: u8 = 11;

pub const HANDSHAKE_SERVER_KEY_EXCHANGE: u8 = 12;

pub const HANDSHAKE_SERVER_HELLO_DONE: u8 = 14;

pub const HANDSHAKE_CERTIFICATE_VERIFY: u8 = 15;

pub const HANDSHAKE_CLIENT_KEY_EXCHANGE: u8 = 16;

pub const HANDSHAKE_FINISHED: u8 = 20;

/// The version every record and every hello carries in its legacy field.
pub const LEGACY_VERSION: u16 = 0x0303;

pub const TLS_VERSION_1_3: u16 = 0x0304;

pub const EXT_SERVER_NAME: u16 = 0;

pub const EXT_SUPPORTED_GROUPS: u16 = 10;

pub const EXT_SIGNATURE_ALGORITHMS: u16 = 13;

pub const EXT_ALPN: u16 = 16;

pub const EXT_SUPPORTED_VERSIONS: u16 = 43;

pub const EXT_KEY_SHARE: u16 = 51;

pub const GROUP_SECP256R1: u16 = 0x0017;

pub const GROUP_X25519: u16 = 0x001d;

pub const TLS_AES_128_GCM_SHA256: u16 = 0x1301;

pub const TLS_AES_256_GCM_SHA384: u16 = 0x1302;

pub const TLS_CHACHA20_POLY1305_SHA256: u16 = 0x1303;

/// Whether `suite` is one of the AEAD suites this client negotiates.
pub open spec fn is_supported_suite(suite: int) -> bool {
    suite == 0x1301 || suite == 0x1302 || suite == 0x1303
}

/// Whether `group` is one of the key-exchange groups this client offers.
pub open spec fn is_supported_group(group: int) -> bool {
    group == 0x0017 || group == 0x001d
}

/// How long a public key of `group` is on the wire: 32 bytes for X25519, an
/// uncompressed point of 65 bytes for secp256r1.
pub open spec fn key_share_len(group: int) -> int {
    if group == 0x001d {
        32
    } else {
        65
    }
}

/// How long a public key of the supported group `group` is on the wire.
pub fn public_key_len(group: u16) -> (len: usize)
    ensures
        len == key_share_len(group as int),
{
    if group == GROUP_X25519 {
        32
    } else {
        65
    }
}

/// The hash of the transcript and of the key schedule under a supported
/// suite: SHA-384 for AES-256-GCM, SHA-256 for the others.
pub open spec fn suite_hash(suite: u16) -> HashAlgorithm {
    if suite == 0x1302 {
        HashAlgorithm::Sha384
    } else {
        HashAlgorithm::Sha256
    }
}

/// The hash and the key length of a suite, or a `Handshake` error for a
/// suite that this client does not negotiate.
pub fn suite_parameters(suite: u16) -> (r: Result<(HashAlgorithm, usize), TlsError>)
    ensures
        r is Ok <==> is_supported_suite(suite as int),
        r matches Ok((hash, key_len)) ==> hash == suite_hash(suite) && key_len
            == crate::tls::record::suite_key_len(suite),
        r matches Err(e) ==> e is Handshake,
{
    if suite == TLS_AES_128_GCM_SHA256 {
        Ok((HashAlgorithm::Sha256, 16))
    } else if suite == TLS_AES_256_GCM_SHA384 {
        Ok((HashAlgorithm::Sha384, 32))
    } else if suite == TLS_CHACHA20_POLY1305_SHA256 {
        Ok((HashAlgorithm::Sha256, 32))
    } else {
        Err(TlsError::handshake("Unsupported cipher suite"))
    }
}

/// Whether `b` starts with a handshake header whose declared body is
/// present in full.
pub open spec fn has_handshake_header(b: Seq<u8>) -> bool {
    b.len() >= 4 && 4 + be24(b, 1) <= b.len()
}

/// Splits a handshake message into its type, the declared length of its
/// body, and everything that follows the four header bytes. The body is the
/// first `length` bytes of that remainder.
pub fn parse_handshake_header(data: &[u8]) -> (r: Result<(u8, usize, &[u8]), TlsError>)
    ensures
        r is Ok <==> has_handshake_header(data@),
        r matches Ok((msg_type, length, rest)) ==> {
            &&& msg_type == data@[0]
            &&& length == be24(data@, 1)
            &&& rest@ == data@.subrange(4, data@.len() as int)
            &&& length <= rest@.len()
        },
        r matches Err(e) ==> e is Protocol,
{
    if data.len() < 4 {
        return Err(TlsError::protocol("Handshake header too short"));
    }
    let length = read_u24(data, 1) as usize;
    if data.len() - 4 < length {
        return Err(TlsError::protocol("Handshake message truncated"));
    }
    Ok((data[0], length, vstd::slice::slice_subrange(data, 4, data.len())))
}

/// Whether `e` is a run of extensions, each a 16-bit type, a 16-bit length
/// and that many bytes, with nothing left over.
pub open spec fn extensions_wf(e: Seq<u8>) -> bool
    decreases e.len(),
{
    if e.len() == 0 {
        true
    } else if e.len() < 4 || 4 + be16(e, 2) > e.len() {
        false
    } else {
        extensions_wf(e.skip(4 + be16(e, 2)))
    }
}

/// The body of the first extension of type `typ` in `e`, if there is one
/// before the block ends or stops being well formed.
pub open spec fn find_extension(e: Seq<u8>, typ: int) -> Option<Seq<u8>>
    decreases e.len(),
{
    if e.len() < 4 || 4 + be16(e, 2) > e.len() {
        None
    } else if be16(e, 0) == typ {
        Some(e.subrange(4, 4 + be16(e, 2)))
    } else {
        find_extension(e.skip(4 + be16(e, 2)), typ)
    }
}

/// Checks that an extension block is well formed.
pub fn check_extensions(exts: &[u8]) -> (ok: bool)
    ensures
        ok == extensions_wf(exts@),
{
    let mut pos: usize = 0;
    assert(exts@.skip(0) =~= exts@);
    while pos < exts.len()
        invariant
            pos <= exts@.len(),
            extensions_wf(exts@) == extensions_wf(exts@.skip(pos as int)),
        decreases exts@.len() - pos,
    {
        let ghost rest = exts@.skip(pos as int);
        if exts.len() - pos < 4 {
            return false;
        }
        let len = read_u16(exts, pos + 2) as usize;
        if exts.len() - pos - 4 < len {
            return false;
        }
        assert(rest.skip(4 + len) =~= exts@.skip(pos + 4 + len));
        pos = pos + 4 + len;
    }
    true
}

/// Looks up the first extension of type `typ` and hands back where its body
/// starts and ends in `exts`.
pub fn locate_extension(exts: &[u8], typ: u16) -> (r: Option<(usize, usize)>)
    ensures
        r is Some <==> find_extension(exts@, typ as int) is Some,
        r matches Some((from, to)) ==> {
            &&& from <= to <= exts@.len()
            &&& find_extension(exts@, typ as int) == Some(exts@.subrange(from as int, to as int))
        },
{
    let mut pos: usize = 0;
    assert(exts@.skip(0) =~= exts@);
    while pos < exts.len()
        invariant
            pos <= exts@.len(),
            find_extension(exts@, typ as int) == find_extension(
                exts@.skip(pos as int),
                typ as int,
            ),
        decreases exts@.len() - pos,
    {
        let ghost rest = exts@.skip(pos as int);
        if exts.len() - pos < 4 {
            return None;
        }
        let len = read_u16(exts, pos + 2) as usize;
        if exts.len() - pos - 4 < len {
            return None;
        }
        let t = read_u16(exts, pos);
        if t == typ {
            return Some((pos + 4, pos + 4 + len));
        }
        assert(rest.skip(4 + len) =~= exts@.skip(pos + 4 + len));
        pos = pos + 4 + len;
    }
    None
}

/// Why a ServerHello was turned down.
#[derive(Clone, Copy, Debug, PartialEq, Eq)]
pub enum HelloReject {
    /// The message ends before its fixed fields do.
    Truncated,
    /// The session identifier claims more than 32 bytes.
    SessionId,
    /// The legacy version field, or the negotiated version, is not the one
    /// this client speaks.
    Version,
    /// The cipher suite is not one this client offers.
    CipherSuite,
    /// The compression method is not null.
    Compression,
    /// The extension block is malformed or does not fill the message.
    Extensions,
    /// No key share came with the hello.
    KeyShareMissing,
    /// The key share does not have the length it declares.
    KeyShareMalformed,
    /// The key share is for a group this client does not offer.
    Group,
    /// A TLS 1.2 hello names another version than TLS 1.2.
    UnexpectedVersion,
}

impl HelloReject {
    /// Whether the rejection is about the shape of the bytes rather than
    /// about what was negotiated.
    pub open spec fn is_malformed(self) -> bool {
        self is Truncated || self is SessionId || self is Compression || self is Extensions
            || self is KeyShareMalformed
    }

    /// The message of the error that reports this rejection.
    pub open spec fn text(self) -> Seq<char> {
        match self {
            HelloReject::Truncated => "ServerHello too short"@,
            HelloReject::SessionId => "Invalid session ID length"@,
            HelloReject::Version => "Unsupported TLS version"@,
            HelloReject::CipherSuite => "Unsupported cipher suite"@,
            HelloReject::Compression => "Compression method must be null"@,
            HelloReject::Extensions => "Malformed extensions"@,
            HelloReject::KeyShareMissing => "Missing key_share extension"@,
            HelloReject::KeyShareMalformed => "Malformed key_share extension"@,
            HelloReject::Group => "Unsupported key exchange group"@,
            HelloReject::UnexpectedVersion => "Unexpected TLS version"@,
        }
    }

    /// The error that reports this rejection: a `Protocol` error for
    /// malformed bytes, a `Handshake` error for a failed negotiation.
    pub fn to_error(self) -> (e: TlsError)
        ensures
            self.is_malformed() ==> e is Protocol,
            !self.is_malformed() ==> e is Handshake,
            e.text() == self.text(),
    {
        match self {
            HelloReject::Truncated => TlsError::protocol("ServerHello too short"),
            HelloReject::SessionId => TlsError::protocol("Invalid session ID length"),
            HelloReject::Version => TlsError::handshake("Unsupported TLS version"),
            HelloReject::CipherSuite => TlsError::handshake("Unsupported cipher suite"),
            HelloReject::Compression => TlsError::protocol("Compression method must be null"),
            HelloReject::Extensions => TlsError::protocol("Malformed extensions"),
            HelloReject::KeyShareMissing => TlsError::handshake("Missing key_share extension"),
            HelloReject::KeyShareMalformed => TlsError::protocol("Malformed key_share extension"),
            HelloReject::Group => TlsError::handshake("Unsupported key exchange group"),
            HelloReject::UnexpectedVersion => TlsError::handshake("Unexpected TLS version"),
        }
    }
}

/// What a ServerHello settles.
#[derive(Debug)]
pub struct ServerHello {
    pub random: Vec<u8>,
    pub session_id: Vec<u8>,
    pub cipher_suite: u16,
    pub selected_group: u16,
    pub key_share: Vec<u8>,
}

/// The model of `ServerHello` in contracts.
pub ghost struct ServerHelloView {
    pub random: Seq<u8>,
    pub session_id: Seq<u8>,
    pub cipher_suite: u16,
    pub selected_group: u16,
    pub key_share: Seq<u8>,
}

impl View for ServerHello {
    type V = ServerHelloView;

    open spec fn view(&self) -> ServerHelloView {
        ServerHelloView {
            random: self.random@,
            session_id: self.session_id@,
            cipher_suite: self.cipher_suite,
            selected_group: self.selected_group,
            key_share: self.key_share@,
        }
    }
}

/// The extension block of a ServerHello whose fixed fields are present.
pub open spec fn hello_extensions(b: Seq<u8>) -> Seq<u8> {
    b.subrange(40 + b[34] as int, b.len() as int)
}

/// The first reason to turn the ServerHello body `b` down, or `None` if it
/// is acceptable. The supported-versions extension has to be present and to
/// name TLS 1.3 exactly; no other version is let through.
pub open spec fn hello_reject(b: Seq<u8>) -> Option<HelloReject> {
    if b.len() < 35 {
        Some(HelloReject::Truncated)
    } else if b[34] > 32 {
        Some(HelloReject::SessionId)
    } else if b.len() < 40 + b[34] {
        Some(HelloReject::Truncated)
    } else if be16(b, 0) != 0x0303 {
        Some(HelloReject::Version)
    } else if !is_supported_suite(be16(b, 35 + b[34])) {
        Some(HelloReject::CipherSuite)
    } else if b[37 + b[34]] != 0 {
        Some(HelloReject::Compression)
    } else if be16(b, 38 + b[34]) != b.len() - 40 - b[34] || !extensions_wf(hello_extensions(b)) {
        Some(HelloReject::Extensions)
    } else {
        match find_extension(hello_extensions(b), 43) {
            None => Some(HelloReject::Version),
            Some(v) => if v.len() != 2 || be16(v, 0) != 0x0304 {
                Some(HelloReject::Version)
            } else {
                match find_extension(hello_extensions(b), 51) {
                    None => Some(HelloReject::KeyShareMissing),
                    Some(k) => if k.len() < 4 || be16(k, 2) != k.len() - 4 {
                        Some(HelloReject::KeyShareMalformed)
                    } else if !is_supported_group(be16(k, 0)) {
                        Some(HelloReject::Group)
                    } else if k.len() - 4 != key_share_len(be16(k, 0)) {
                        Some(HelloReject::KeyShareMalformed)
                    } else {
                        None
                    },
                }
            },
        }
    }
}

/// What an acceptable ServerHello body `b` settles.
pub open spec fn hello_fields(b: Seq<u8>) -> ServerHelloView {
    let k = find_extension(hello_extensions(b), 51).unwrap();
    ServerHelloView {
        random: b.subrange(2, 34),
        session_id: b.subrange(35, 35 + b[34]),
        cipher_suite: be16(b, 35 + b[34]) as u16,
        selected_group: be16(k, 0) as u16,
        key_share: k.skip(4),
    }
}

/// Decodes the body of a ServerHello, the bytes after the handshake header.
pub fn decode_server_hello(data: &[u8]) -> (r: Result<ServerHello, HelloReject>)
    ensures
        r is Ok <==> hello_reject(data@) is None,
        r matches Ok(h) ==> h@ == hello_fields(data@),
        r matches Err(why) ==> hello_reject(data@) == Some(why),
{
    if data.len() < 35 {
        return Err(HelloReject::Truncated);
    }
    let sid = data[34] as usize;
    if sid > 32 {
        return Err(HelloReject::SessionId);
    }
    if data.len() < 40 + sid {
        return Err(HelloReject::Truncated);
    }
    if read_u16(data, 0) != LEGACY_VERSION {
        return Err(HelloReject::Version);
    }
    let cipher_suite = read_u16(data, 35 + sid);
    if cipher_suite != TLS_AES_128_GCM_SHA256 && cipher_suite != TLS_AES_256_GCM_SHA384
        && cipher_suite != TLS_CHACHA20_POLY1305_SHA256 {
        return Err(HelloReject::CipherSuite);
    }
    if data[37 + sid] != 0 {
        return Err(HelloReject::Compression);
    }
    let ext_len = read_u16(data, 38 + sid) as usize;
    if ext_len != data.len() - 40 - sid {
        return Err(HelloReject::Extensions);
    }
    let exts = vstd::slice::slice_subrange(data, 40 + sid, data.len());
    if !check_extensions(exts) {
        return Err(HelloReject::Extensions);
    }
    let (vf, vt) = match locate_extension(exts, EXT_SUPPORTED_VERSIONS) {
        None => {
            return Err(HelloReject::Version);
        },
        Some(at) => at,
    };
    if vt - vf != 2 {
        return Err(HelloReject::Version);
    }
    let version = read_u16(exts, vf);
    if version != TLS_VERSION_1_3 {
        return Err(HelloReject::Version);
    }
    let (kf, kt) = match locate_extension(exts, EXT_KEY_SHARE) {
        None => {
            return Err(HelloReject::KeyShareMissing);
        },
        Some(at) => at,
    };
    let ghost k = exts@.subrange(kf as int, kt as int);
    if kt - kf < 4 {
        return Err(HelloReject::KeyShareMalformed);
    }
    let key_len = read_u16(exts, kf + 2) as usize;
    if key_len != kt - kf - 4 {
        return Err(HelloReject::KeyShareMalformed);
    }
    let selected_group = read_u16(exts, kf);
    if selected_group != GROUP_X25519 && selected_group != GROUP_SECP256R1 {
        return Err(HelloReject::Group);
    }
    if key_len != public_key_len(selected_group) {
        return Err(HelloReject::KeyShareMalformed);
    }
    let key_share = copy_range(exts, kf + 4, kt);
    assert(key_share@ =~= k.skip(4));
    Ok(
        ServerHello {
            random: copy_range(data, 2, 34),
            session_id: copy_range(data, 35, 35 + sid),
            cipher_suite,
            selected_group,
            key_share,
        },
    )
}

/// Whether `b` is the body of a Certificate message that carries a
/// non-empty chain of well-formed certificates.
pub open spec fn is_certificate_message(b: Seq<u8>) -> bool {
    certificate_list(b) is Some && is_chain(certificate_list(b).unwrap())
}

/// Parses the body of a Certificate message into its chain, leaf first.
pub fn parse_certificate(data: &[u8]) -> (r: Result<Vec<Certificate>, TlsError>)
    ensures
        r is Ok <==> is_certificate_message(data@),
        r matches Ok(chain) ==> parsed_from(chain@, certificate_list(data@).unwrap()),
        r matches Err(e) ==> e is Certificate,
{
    if data.len() < 1 {
        return Err(TlsError::certificate("Certificate message too short"));
    }
    let ctx = data[0] as usize;
    if data.len() < 4 + ctx {
        return Err(TlsError::certificate("Certificate message too short"));
    }
    let list_len = read_u24(data, 1 + ctx) as usize;
    if list_len != data.len() - 4 - ctx {
        return Err(TlsError::certificate("Certificate list length mismatch"));
    }
    let list = vstd::slice::slice_subrange(data, 4 + ctx, data.len());
    match parse_chain(list, true) {
        Some(chain) => Ok(chain),
        None => Err(TlsError::certificate("Malformed certificate chain")),
    }
}

/// Whether `b` is the body of a CertificateVerify message: a 16-bit
/// signature scheme, then a signature behind a 16-bit length that covers the
/// rest of the message.
pub open spec fn is_certificate_verify(b: Seq<u8>) -> bool {
    b.len() >= 4 && be16(b, 2) == b.len() - 4
}

/// Takes a CertificateVerify body apart into the signature scheme and the
/// signature. The signature is not checked here.
pub fn parse_certificate_verify(data: &[u8]) -> (r: Result<(u16, Vec<u8>), TlsError>)
    ensures
        r is Ok <==> is_certificate_verify(data@),
        r matches Ok((scheme, signature)) ==> scheme == be16(data@, 0) && signature@
            == data@.skip(4),
        r matches Err(e) ==> e is Protocol,
{
    if data.len() < 4 {
        return Err(TlsError::protocol("CertificateVerify too short"));
    }
    let len = read_u16(data, 2) as usize;
    if len != data.len() - 4 {
        return Err(TlsError::protocol("CertificateVerify length mismatch"));
    }
    let signature = copy_range(data, 4, data.len());
    Ok((read_u16(data, 0), signature))
}

/// Whether `b` can be the verify data of a Finished message: it is as long
/// as the output of one of the two transcript hashes.
pub open spec fn is_finished(b: Seq<u8>) -> bool {
    b.len() == 32 || b.len() == 48
}

/// Checks a Finished body against the verify data computed on this side.
/// A body of the wrong shape is a `Protocol` error, one that differs from
/// `expected` a `Handshake` error; otherwise the verify data is handed back.
pub fn parse_finished(data: &[u8], expected: &[u8]) -> (r: Result<Vec<u8>, TlsError>)
    ensures
        r is Ok <==> is_finished(data@) && data@ == expected@,
        r matches Ok(verify_data) ==> verify_data@ == data@,
        r matches Err(e) ==> if is_finished(data@) {
            e is Handshake
        } else {
            e is Protocol
        },
{
    if data.len() != 32 && data.len() != 48 {
        return Err(TlsError::protocol("Invalid Finished length"));
    }
    if !bytes_equal(data, expected) {
        return Err(TlsError::handshake("Finished verify data mismatch"));
    }
    let verify_data = vstd::slice::slice_to_vec(data);
    Ok(verify_data)
}

/// Whether `b` is the body of an EncryptedExtensions message.
pub open spec fn is_encrypted_extensions(b: Seq<u8>) -> bool {
    b.len() >= 2 && be16(b, 0) == b.len() - 2 && extensions_wf(b.skip(2))
}

/// Checks the shape of an EncryptedExtensions body.
pub fn parse_encrypted_extensions(data: &[u8]) -> (r: Result<(), TlsError>)
    ensures
        r is Ok <==> is_encrypted_extensions(data@),
        r matches Err(e) ==> e is Protocol,
{
    if data.len() < 2 {
        return Err(TlsError::protocol("EncryptedExtensions too short"));
    }
    if read_u16(data, 0) as usize != data.len() - 2 {
        return Err(TlsError::protocol("EncryptedExtensions length mismatch"));
    }
    let exts = vstd::slice::slice_subrange(data, 2, data.len());
    if !check_extensions(exts) {
        return Err(TlsError::protocol("Malformed extensions"));
    }
    Ok(())
}

/// How far a handshake has come.
#[derive(Clone, Copy, Debug, PartialEq, Eq, Structural)]
pub enum HandshakePhase {
    Start,
    SentClientHello,
    ReceivedServerHello,
    ReceivedCertificate,
    ReceivedCertificateVerify,
    ReceivedFinished,
    Established,
    Failed,
}

/// The phase that a message of type `msg_type` leads to when it arrives in
/// `phase`, or `None` if it may not arrive there. A ServerHello is also
/// taken straight after construction; EncryptedExtensions leave the phase
/// as it is.
pub open spec fn next_phase(phase: HandshakePhase, msg_type: u8) -> Option<HandshakePhase> {
    match phase {
        HandshakePhase::Start | HandshakePhase::SentClientHello => if msg_type == 2 {
            Some(HandshakePhase::ReceivedServerHello)
        } else {
            None
        },
        HandshakePhase::ReceivedServerHello => if msg_type == 8 {
            Some(HandshakePhase::ReceivedServerHello)
        } else if msg_type == 11 {
            Some(HandshakePhase::ReceivedCertificate)
        } else {
            None
        },
        HandshakePhase::ReceivedCertificate => if msg_type == 15 {
            Some(HandshakePhase::ReceivedCertificateVerify)
        } else {
            None
        },
        HandshakePhase::ReceivedCertificateVerify => if msg_type == 20 {
            Some(HandshakePhase::ReceivedFinished)
        } else {
            None
        },
        _ => None,
    }
}

/// The name of the message that is due in `phase`.
pub open spec fn expected_name(phase: HandshakePhase) -> Seq<char> {
    match phase {
        HandshakePhase::Start | HandshakePhase::SentClientHello => "ServerHello"@,
        HandshakePhase::ReceivedServerHello => "Certificate"@,
        HandshakePhase::ReceivedCertificate => "CertificateVerify"@,
        HandshakePhase::ReceivedCertificateVerify => "Finished"@,
        _ => "no handshake message"@,
    }
}

/// The name of the handshake message type `msg_type`.
pub open spec fn message_name(msg_type: u8) -> Seq<char> {
    if msg_type == 1 {
        "ClientHello"@
    } else if msg_type == 2 {
        "ServerHello"@
    } else if msg_type == 8 {
        "EncryptedExtensions"@
    } else if msg_type == 11 {
        "Certificate"@
    } else if msg_type == 12 {
        "ServerKeyExchange"@
    } else if msg_type == 14 {
        "ServerHelloDone"@
    } else if msg_type == 15 {
        "CertificateVerify"@
    } else if msg_type == 16 {
        "ClientKeyExchange"@
    } else if msg_type == 20 {
        "Finished"@
    } else {
        "unknown message"@
    }
}

/// Decides where a message of type `msg_type` leads from `phase`.
pub fn advance(phase: HandshakePhase, msg_type: u8) -> (r: Option<HandshakePhase>)
    ensures
        r == next_phase(phase, msg_type),
{
    match phase {
        HandshakePhase::Start | HandshakePhase::SentClientHello => if msg_type
            == HANDSHAKE_SERVER_HELLO {
            Some(HandshakePhase::ReceivedServerHello)
        } else {
            None
        },
        HandshakePhase::ReceivedServerHello => if msg_type == HANDSHAKE_ENCRYPTED_EXTENSIONS {
            Some(HandshakePhase::ReceivedServerHello)
        } else if msg_type == HANDSHAKE_CERTIFICATE {
            Some(HandshakePhase::ReceivedCertificate)
        } else {
            None
        },
        HandshakePhase::ReceivedCertificate => if msg_type == HANDSHAKE_CERTIFICATE_VERIFY {
            Some(HandshakePhase::ReceivedCertificateVerify)
        } else {
            None
        },
        HandshakePhase::ReceivedCertificateVerify => if msg_type == HANDSHAKE_FINISHED {
            Some(HandshakePhase::ReceivedFinished)
        } else {
            None
        },
        _ => None,
    }
}

/// Names the message that is due in `phase`.
pub fn expected_message(phase: HandshakePhase) -> (name: &'static str)
    ensures
        name@ == expected_name(phase),
{
    match phase {
        HandshakePhase::Start | HandshakePhase::SentClientHello => "ServerHello",
        HandshakePhase::ReceivedServerHello => "Certificate",
        HandshakePhase::ReceivedCertificate => "CertificateVerify",
        HandshakePhase::ReceivedCertificateVerify => "Finished",
        _ => "no handshake message",
    }
}

/// Names a handshake message type.
pub fn message_kind(msg_type: u8) -> (name: &'static str)
    ensures
        name@ == message_name(msg_type),
{
    if msg_type == HANDSHAKE_CLIENT_HELLO {
        "ClientHello"
    } else if msg_type == HANDSHAKE_SERVER_HELLO {
        "ServerHello"
    } else if msg_type == HANDSHAKE_ENCRYPTED_EXTENSIONS {
        "EncryptedExtensions"
    } else if msg_type == HANDSHAKE_CERTIFICATE {
        "Certificate"
    } else if msg_type == HANDSHAKE_SERVER_KEY_EXCHANGE {
        "ServerKeyExchange"
    } else if msg_type == HANDSHAKE_SERVER_HELLO_DONE {
        "ServerHelloDone"
    } else if msg_type == HANDSHAKE_CERTIFICATE_VERIFY {
        "CertificateVerify"
    } else if msg_type == HANDSHAKE_CLIENT_KEY_EXCHANGE {
        "ClientKeyExchange"
    } else if msg_type == HANDSHAKE_FINISHED {
        "Finished"
    } else {
        "unknown message"
    }
}

/// The state of one TLS 1.3 connection attempt.
#[derive(Debug)]
pub struct HandshakeState {
    /// The name the server is asked for.
    pub server_name: String,
    /// The random value of the ClientHello, fixed at construction.
    pub client_random: [u8; 32],
    /// The negotiated cipher suite; 0 until a ServerHello is accepted.
    pub cipher_suite: u16,
    /// The negotiated key-exchange group; 0 until a ServerHello is accepted.
    pub selected_group: u16,
    /// The group of the key share this client offers.
    pub key_share_group: u16,
    /// The public half of the ephemeral key pair.
    pub key_share: Vec<u8>,
    /// The server's random value; empty until a ServerHello is accepted.
    pub server_random: Vec<u8>,
    /// The server's public key; empty until a ServerHello is accepted.
    pub server_key_share: Vec<u8>,
    /// Every handshake message exchanged so far, headers included.
    pub transcript: Vec<u8>,
    pub phase: HandshakePhase,
}

/// The model of `HandshakeState` in contracts, with the server name as bytes.
pub ghost struct HandshakeStateView {
    pub server_name: Seq<u8>,
    pub client_random: Seq<u8>,
    pub cipher_suite: u16,
    pub selected_group: u16,
    pub key_share_group: u16,
    pub key_share: Seq<u8>,
    pub server_random: Seq<u8>,
    pub server_key_share: Seq<u8>,
    pub transcript: Seq<u8>,
    pub phase: HandshakePhase,
}

impl View for HandshakeState {
    type V = HandshakeStateView;

    open spec fn view(&self) -> HandshakeStateView {
        HandshakeStateView {
            server_name: vstd::utf8::encode_utf8(self.server_name@),
            client_random: self.client_random@,
            cipher_suite: self.cipher_suite,
            selected_group: self.selected_group,
            key_share_group: self.key_share_group,
            key_share: self.key_share@,
            server_random: self.server_random@,
            server_key_share: self.server_key_share@,
            transcript: self.transcript@,
            phase: self.phase,
        }
    }
}

/// The state right after construction.
pub open spec fn initial_state(
    server_name: Seq<u8>,
    client_random: Seq<u8>,
    group: u16,
    key: Seq<u8>,
) -> HandshakeStateView {
    HandshakeStateView {
        server_name,
        client_random,
        cipher_suite: 0,
        selected_group: 0,
        key_share_group: group,
        key_share: key,
        server_random: Seq::empty(),
        server_key_share: Seq::empty(),
        transcript: Seq::empty(),
        phase: HandshakePhase::Start,
    }
}

/// What becomes of the state `pre` when a message of type `msg_type` with
/// body `body` is refused before it is looked at, and the error `e` that
/// says so. A failed connection stays as it is and answers
/// `ConnectionClosed`. A message that is not due, or whose body is too long
/// for a handshake message, fails the connection.
pub open spec fn refusal(
    pre: HandshakeStateView,
    post: HandshakeStateView,
    e: TlsError,
    msg_type: u8,
    body: Seq<u8>,
) -> bool {
    if pre.phase is Failed {
        e is ConnectionClosed && post == pre
    } else if next_phase(pre.phase, msg_type) is None {
        &&& e matches TlsError::UnexpectedMessage { expected, got }
        &&& expected@ == expected_name(pre.phase)
        &&& got@ == message_name(msg_type)
        &&& post == HandshakeStateView { phase: HandshakePhase::Failed, ..pre }
    } else {
        &&& e is Protocol
        &&& post == HandshakeStateView { phase: HandshakePhase::Failed, ..pre }
    }
}

/// Whether a message is refused before it is looked at.
pub open spec fn is_refused(pre: HandshakeStateView, msg_type: u8, body: Seq<u8>) -> bool {
    pre.phase is Failed || next_phase(pre.phase, msg_type) is None || body.len() >= 0x100_0000
}

/// The state after the message `body` of type `msg_type` was accepted in
/// `pre`: the phase moves on and the transcript grows by the framed
/// message.
pub open spec fn accepted(pre: HandshakeStateView, msg_type: u8, body: Seq<u8>)
    -> HandshakeStateView {
    HandshakeStateView {
        phase: next_phase(pre.phase, msg_type).unwrap(),
        transcript: pre.transcript + framed(msg_type, body),
        ..pre
    }
}

/// The state after a message was looked at and turned down.
pub open spec fn failed(pre: HandshakeStateView) -> HandshakeStateView {
    HandshakeStateView { phase: HandshakePhase::Failed, ..pre }
}

impl HandshakeState {
    /// Whether the state is one that this module's functions produce: the
    /// server name is valid and the key share fits its group.
    pub open spec fn wf(&self) -> bool {
        &&& is_valid_hostname(self@.server_name)
        &&& is_supported_group(self.key_share_group as int)
        &&& self.key_share@.len() == key_share_len(self.key_share_group as int)
    }

    /// Checks at run time that the state is one this module's functions
    /// produce.
    pub fn is_well_formed(&self) -> (ok: bool)
        ensures
            ok == self.wf(),
    {
        check_hostname(self.server_name.as_str().as_bytes()) && (self.key_share_group
            == GROUP_X25519 || self.key_share_group == GROUP_SECP256R1) && self.key_share.len()
            == public_key_len(self.key_share_group)
    }

    /// Starts a connection attempt to `server_name`. The random value and
    /// the public half of a fresh key pair for `group` come from the
    /// caller. It fails with a `Handshake` error if the name is not a valid
    /// server name, the group is not offered by this client, or the key
    /// does not have the length of the group's public keys.
    pub fn new(server_name: &str, client_random: [u8; 32], group: u16, public_key: Vec<u8>) -> (r:
        Result<Self, TlsError>)
        ensures
            r is Ok <==> is_valid_hostname(server_name.spec_bytes()) && is_supported_group(
                group as int,
            ) && public_key@.len() == key_share_len(group as int),
            r matches Ok(state) ==> state.wf() && state@ == initial_state(
                server_name.spec_bytes(),
                client_random@,
                group,
                public_key@,
            ),
            r matches Err(e) ==> e is Handshake,
    {
        if !check_hostname(server_name.as_bytes()) {
            return Err(TlsError::handshake("Invalid server name"));
        }
        if group != GROUP_X25519 && group != GROUP_SECP256R1 {
            return Err(TlsError::handshake("Unsupported key exchange group"));
        }
        if public_key.len() != public_key_len(group) {
            return Err(TlsError::handshake("Invalid key share length"));
        }
        Ok(
            HandshakeState {
                server_name: String::from_str(server_name),
                client_random,
                cipher_suite: 0,
                selected_group: 0,
                key_share_group: group,
                key_share: public_key,
                server_random: Vec::new(),
                server_key_share: Vec::new(),
                transcript: Vec::new(),
                phase: HandshakePhase::Start,
            },
        )
    }

    /// Whether the handshake has been completed.
    pub fn is_complete(&self) -> (done: bool)
        ensures
            done == (self.phase is Established),
    {
        self.phase == HandshakePhase::Established
    }

    /// The ClientHello of this connection attempt, handshake header
    /// included.
    pub fn build_client_hello(&self) -> (hello: Vec<u8>)
        requires
            self.wf(),
        ensures
            hello@ == client_hello_13(
                self@.client_random,
                self@.server_name,
                self.key_share_group,
                self@.key_share,
            ),
    {
        build_client_hello_13(
            vstd::array::array_as_slice(&self.client_random),
            self.server_name.as_str().as_bytes(),
            self.key_share_group,
            self.key_share.as_slice(),
        )
    }

    /// The ClientHello of this connection attempt under the options
    /// `config`: it offers the application protocols of the options, the
    /// preferred one first. Protocols that cannot be offered, because a
    /// name is empty or longer than 255 bytes or because they are too many
    /// for one extension, are a `Handshake` error.
    pub fn build_client_hello_for(&self, config: &TlsConfig) -> (r: Result<Vec<u8>, TlsError>)
        requires
            self.wf(),
        ensures
            r is Ok <==> can_offer(protocol_bytes(config.alpn_protocols@)),
            r matches Ok(hello) ==> hello@ == client_hello_with(
                self@.client_random,
                self@.server_name,
                self.key_share_group,
                self@.key_share,
                protocol_bytes(config.alpn_protocols@),
            ),
            r matches Err(e) ==> e is Handshake,
    {
        match build_client_hello_with(
            vstd::array::array_as_slice(&self.client_random),
            self.server_name.as_str().as_bytes(),
            self.key_share_group,
            self.key_share.as_slice(),
            &config.alpn_protocols,
        ) {
            Some(hello) => Ok(hello),
            None => Err(TlsError::handshake("Invalid application protocol list")),
        }
    }

    /// Records that `hello` went out. Only a fresh connection takes this
    /// step.
    pub fn client_hello_sent(&mut self, hello: &[u8]) -> (r: Result<(), TlsError>)
        ensures
            r is Ok <==> old(self).phase is Start,
            r is Ok ==> final(self)@ == (HandshakeStateView {
                phase: HandshakePhase::SentClientHello,
                transcript: old(self)@.transcript + hello@,
                ..old(self)@
            }),
            r matches Err(e) ==> {
                &&& final(self)@ == old(self)@
                &&& if old(self).phase is Failed {
                    e is ConnectionClosed
                } else {
                    e is Handshake
                }
            },
    {
        if self.phase == HandshakePhase::Failed {
            return Err(TlsError::ConnectionClosed);
        }
        if self.phase != HandshakePhase::Start {
            return Err(TlsError::handshake("ClientHello already sent"));
        }
        push_all(&mut self.transcript, hello);
        self.phase = HandshakePhase::SentClientHello;
        Ok(())
    }

    /// Decides whether a message of type `msg_type` may be looked at now,
    /// and fails the connection if it may not. The answer is the phase
    /// that the message leads to once it is accepted.
    pub fn admit_message(&mut self, msg_type: u8, body: &[u8]) -> (r: Result<
        HandshakePhase,
        TlsError,
    >)
        ensures
            r is Err <==> is_refused(old(self)@, msg_type, body@),
            r matches Err(e) ==> refusal(old(self)@, final(self)@, e, msg_type, body@),
            r matches Ok(next) ==> final(self)@ == old(self)@ && Some(next) == next_phase(
                old(self).phase,
                msg_type,
            ),
    {
        if self.phase == HandshakePhase::Failed {
            return Err(TlsError::ConnectionClosed);
        }
        match advance(self.phase, msg_type) {
            None => {
                let e = TlsError::unexpected(expected_message(self.phase), message_kind(msg_type));
                self.phase = HandshakePhase::Failed;
                Err(e)
            },
            Some(next) => {
                if body.len() >= 0x100_0000 {
                    self.phase = HandshakePhase::Failed;
                    return Err(TlsError::protocol("Handshake message too long"));
                }
                Ok(next)
            },
        }
    }

    /// Adds an accepted message to the transcript and moves on.
    fn absorb(&mut self, next: HandshakePhase, msg_type: u8, body: &[u8])
        requires
            body@.len() < 0x100_0000,
        ensures
            final(self)@ == (HandshakeStateView {
                phase: next,
                transcript: old(self)@.transcript + framed(msg_type, body@),
                ..old(self)@
            }),
    {
        self.transcript.push(msg_type);
        push_u24(&mut self.transcript, body.len() as u32);
        push_all(&mut self.transcript, body);
        self.phase = next;
        assert(self.transcript@ =~= old(self)@.transcript + framed(msg_type, body@));
    }

    /// Takes in the body of a ServerHello. On success the cipher suite, the
    /// group, the server's random value and its key share are those of the
    /// message. A second ServerHello is not due and fails the connection,
    /// as does a body that is turned down.
    pub fn parse_server_hello(&mut self, data: &[u8]) -> (r: Result<(), TlsError>)
        ensures
            is_refused(old(self)@, 2, data@) ==> (r matches Err(e) && refusal(
                old(self)@,
                final(self)@,
                e,
                2,
                data@,
            )),
            !is_refused(old(self)@, 2, data@) ==> match hello_reject(data@) {
                None => {
                    &&& r is Ok
                    &&& final(self)@ == (HandshakeStateView {
                        cipher_suite: hello_fields(data@).cipher_suite,
                        selected_group: hello_fields(data@).selected_group,
                        server_random: hello_fields(data@).random,
                        server_key_share: hello_fields(data@).key_share,
                        ..accepted(old(self)@, 2, data@)
                    })
                },
                Some(why) => {
                    &&& r matches Err(e)
                    &&& e.text() == why.text()
                    &&& e is Protocol <==> why.is_malformed()
                    &&& e is Handshake <==> !why.is_malformed()
                    &&& final(self)@ == failed(old(self)@)
                },
            },
    {
        let next = self.admit_message(HANDSHAKE_SERVER_HELLO, data)?;
        match decode_server_hello(data) {
            Ok(hello) => {
                self.cipher_suite = hello.cipher_suite;
                self.selected_group = hello.selected_group;
                self.server_random = hello.random;
                self.server_key_share = hello.key_share;
                self.absorb(next, HANDSHAKE_SERVER_HELLO, data);
                Ok(())
            },
            Err(why) => {
                self.phase = HandshakePhase::Failed;
                Err(why.to_error())
            },
        }
    }

    /// What the key agreement is to be made with once a ServerHello has
    /// been accepted: the group and the server's public key. Before that,
    /// and where the server chose another group than the one this client
    /// sent a key for, it is a `Handshake` error.
    pub fn key_agreement(&self) -> (r: Result<(u16, Vec<u8>), TlsError>)
        ensures
            r is Ok <==> self.cipher_suite != 0 && self.selected_group == self.key_share_group,
            r matches Ok((group, peer_key)) ==> group == self.selected_group && peer_key@
                == self.server_key_share@,
            r matches Err(e) ==> e is Handshake,
    {
        if self.cipher_suite == 0 {
            return Err(TlsError::handshake("No ServerHello has been accepted"));
        }
        if self.selected_group != self.key_share_group {
            return Err(TlsError::handshake("The server chose a group without a key share"));
        }
        Ok((self.selected_group, vstd::slice::slice_to_vec(self.server_key_share.as_slice())))
    }

    /// Takes in the body of an EncryptedExtensions message.
    pub fn parse_encrypted_extensions(&mut self, data: &[u8]) -> (r: Result<(), TlsError>)
        ensures
            is_refused(old(self)@, 8, data@) ==> (r matches Err(e) && refusal(
                old(self)@,
                final(self)@,
                e,
                8,
                data@,
            )),
            !is_refused(old(self)@, 8, data@) ==> if is_encrypted_extensions(data@) {
                r is Ok && final(self)@ == accepted(old(self)@, 8, data@)
            } else {
                r matches Err(e) && e is Protocol && final(self)@ == failed(old(self)@)
            },
    {
        let next = self.admit_message(HANDSHAKE_ENCRYPTED_EXTENSIONS, data)?;
        match self::parse_encrypted_extensions(data) {
            Ok(()) => {
                self.absorb(next, HANDSHAKE_ENCRYPTED_EXTENSIONS, data);
                Ok(())
            },
            Err(e) => {
                self.phase = HandshakePhase::Failed;
                Err(e)
            },
        }
    }

    /// Takes in the body of a Certificate message and hands out the chain
    /// it carries, leaf first.
    pub fn parse_certificate(&mut self, data: &[u8]) -> (r: Result<Vec<Certificate>, TlsError>)
        ensures
            is_refused(old(self)@, 11, data@) ==> (r matches Err(e) && refusal(
                old(self)@,
                final(self)@,
                e,
                11,
                data@,
            )),
            !is_refused(old(self)@, 11, data@) ==> if is_certificate_message(data@) {
                &&& r matches Ok(chain)
                &&& parsed_from(chain@, certificate_list(data@).unwrap())
                &&& final(self)@ == accepted(old(self)@, 11, data@)
            } else {
                r matches Err(e) && e is Certificate && final(self)@ == failed(old(self)@)
            },
    {
        let next = self.admit_message(HANDSHAKE_CERTIFICATE, data)?;
        match self::parse_certificate(data) {
            Ok(chain) => {
                self.absorb(next, HANDSHAKE_CERTIFICATE, data);
                Ok(chain)
            },
            Err(e) => {
                self.phase = HandshakePhase::Failed;
                Err(e)
            },
        }
    }

    /// Takes in the body of a CertificateVerify message and hands out the
    /// signature scheme and the signature. Whether the signature holds is
    /// for the caller to find out.
    pub fn parse_certificate_verify(&mut self, data: &[u8]) -> (r: Result<(u16, Vec<u8>), TlsError>)
        ensures
            is_refused(old(self)@, 15, data@) ==> (r matches Err(e) && refusal(
                old(self)@,
                final(self)@,
                e,
                15,
                data@,
            )),
            !is_refused(old(self)@, 15, data@) ==> if is_certificate_verify(data@) {
                &&& r matches Ok((scheme, signature))
                &&& scheme == be16(data@, 0)
                &&& signature@ == data@.skip(4)
                &&& final(self)@ == accepted(old(self)@, 15, data@)
            } else {
                r matches Err(e) && e is Protocol && final(self)@ == failed(old(self)@)
            },
    {
        let next = self.admit_message(HANDSHAKE_CERTIFICATE_VERIFY, data)?;
        match self::parse_certificate_verify(data) {
            Ok(found) => {
                self.absorb(next, HANDSHAKE_CERTIFICATE_VERIFY, data);
                Ok(found)
            },
            Err(e) => {
                self.phase = HandshakePhase::Failed;
                Err(e)
            },
        }
    }

    /// Takes in the body of the server's Finished message and holds it
    /// against `expected`, the verify data computed on this side. Anything
    /// but an exact match fails the connection.
    pub fn parse_finished(&mut self, data: &[u8], expected: &[u8]) -> (r: Result<(), TlsError>)
        ensures
            is_refused(old(self)@, 20, data@) ==> (r matches Err(e) && refusal(
                old(self)@,
                final(self)@,
                e,
                20,
                data@,
            )),
            !is_refused(old(self)@, 20, data@) ==> if is_finished(data@) && data@ == expected@ {
                r is Ok && final(self)@ == accepted(old(self)@, 20, data@)
            } else {
                &&& r matches Err(e)
                &&& if is_finished(data@) {
                    e is Handshake
                } else {
                    e is Protocol
                }
                &&& final(self)@ == failed(old(self)@)
            },
    {
        let next = self.admit_message(HANDSHAKE_FINISHED, data)?;
        match self::parse_finished(data, expected) {
            Ok(_) => {
                self.absorb(next, HANDSHAKE_FINISHED, data);
                Ok(())
            },
            Err(e) => {
                self.phase = HandshakePhase::Failed;
                Err(e)
            },
        }
    }

    /// Records that this side's Finished message `finished` went out, which
    /// completes the handshake. It is due only once the server's Finished
    /// has been accepted; at any other time it fails the connection.
    pub fn client_finished_sent(&mut self, finished: &[u8]) -> (r: Result<(), TlsError>)
        ensures
            r is Ok <==> old(self).phase is ReceivedFinished,
            r is Ok ==> final(self)@ == (HandshakeStateView {
                phase: HandshakePhase::Established,
                transcript: old(self)@.transcript + finished@,
                ..old(self)@
            }),
            r matches Err(e) ==> if old(self).phase is Failed {
                e is ConnectionClosed && final(self)@ == old(self)@
            } else {
                e is Handshake && final(self)@ == failed(old(self)@)
            },
    {
        if self.phase == HandshakePhase::Failed {
            return Err(TlsError::ConnectionClosed);
        }
        if self.phase != HandshakePhase::ReceivedFinished {
            self.phase = HandshakePhase::Failed;
            return Err(TlsError::handshake("Finished is not due"));
        }
        push_all(&mut self.transcript, finished);
        self.phase = HandshakePhase::Established;
        Ok(())
    }

    /// Gives the connection up: whatever the phase was, it is `Failed` from
    /// now on.
    pub fn fail(&mut self)
        ensures
            final(self)@ == failed(old(self)@),
    {
        self.phase = HandshakePhase::Failed;
    }
}

/// Out of order, nothing is taken: a Certificate before the ServerHello is
/// answered with `UnexpectedMessage`, and so is every message that is not
/// the one `next_phase` allows.
pub proof fn lemma_order_is_enforced(pre: HandshakeStateView, msg_type: u8, body: Seq<u8>)
    requires
        !(pre.phase is Failed),
        !(msg_type == 2 && (pre.phase is Start || pre.phase is SentClientHello)),
        !((msg_type == 8 || msg_type == 11) && pre.phase is ReceivedServerHello),
        !(msg_type == 15 && pre.phase is ReceivedCertificate),
        !(msg_type == 20 && pre.phase is ReceivedCertificateVerify),
    ensures
        is_refused(pre, msg_type, body),
        forall|post: HandshakeStateView, e: TlsError|
            refusal(pre, post, e, msg_type, body) ==> e is UnexpectedMessage && post.phase is Failed,
{
}

/// `Failed` is terminal: no message leads out of it.
pub proof fn lemma_failed_is_terminal(pre: HandshakeStateView, msg_type: u8, body: Seq<u8>)
    requires
        pre.phase is Failed,
    ensures
        is_refused(pre, msg_type, body),
        forall|post: HandshakeStateView, e: TlsError|
            refusal(pre, post, e, msg_type, body) ==> e is ConnectionClosed && post == pre,
{
}

/// A ClientHello is framed as `parse_handshake_header` expects: type 1, a
/// length that covers exactly the body, then the legacy version and the
/// client random.
pub proof fn lemma_client_hello_framed(random: Seq<u8>, name: Seq<u8>, group: u16, key: Seq<u8>)
    requires
        random.len() == 32,
        name.len() <= 253,
        key.len() <= 1024,
    ensures
        has_handshake_header(client_hello_13(random, name, group, key)),
        client_hello_13(random, name, group, key)[0] == 1,
        be24(client_hello_13(random, name, group, key), 1) == client_hello_13(
            random,
            name,
            group,
            key,
        ).len() - 4,
        client_hello_13(random, name, group, key).subrange(4, 6) == seq![3u8, 3u8],
        client_hello_13(random, name, group, key).subrange(6, 38) == random,
{
    let hello = client_hello_13(random, name, group, key);
    let body = hello.subrange(4, hello.len() as int);
    crate::tls::codec::lemma_be24_round_trip(body.len() as int);
}

} // verus!
