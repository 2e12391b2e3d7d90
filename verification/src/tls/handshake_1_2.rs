//! The TLS 1.2 handshake: cipher-suite parameters, the ClientHello, and a
//! ServerHello that is held to TLS 1.2 exactly.

use vstd::prelude::*;
use vstd::string::*;
use crate::tls::cert::{chain_of, is_chain, parse_chain, parsed_from, Certificate};
use crate::tls::client_hello::{
    build_client_hello_12, check_hostname, client_hello_12, frame_message, framed,
    is_valid_hostname,
};
use crate::tls::codec::{
    be16, be24, bytes_equal, copy_range, push_all, push_u24, read_u16, read_u24,
};
use crate::tls::error::TlsError;
use crate::tls::handshake::{
    check_extensions, extensions_wf, find_extension, is_supported_group, key_share_len,
    locate_extension, message_kind, message_name, public_key_len, HelloReject, GROUP_SECP256R1,
    GROUP_X25519, HANDSHAKE_CERTIFICATE, HANDSHAKE_CLIENT_HELLO, HANDSHAKE_CLIENT_KEY_EXCHANGE,
    HANDSHAKE_FINISHED, HANDSHAKE_SERVER_HELLO, HANDSHAKE_SERVER_HELLO_DONE,
    HANDSHAKE_SERVER_KEY_EXCHANGE,
};
use crate::tls::prf::HashAlgorithm;
use crate::tls::trust_store::{SignatureAlgorithm, SignatureCheck};

verus! {

pub const TLS_VERSION_1_2: u16 = 0x0303;

pub const EXT_ENCRYPT_THEN_MAC: u16 = 22;

pub const TLS_ECDHE_RSA_WITH_AES_128_CBC_SHA: u16 = 0xc013;

pub const TLS_ECDHE_RSA_WITH_AES_128_CBC_SHA256: u16 = 0xc027;

pub const TLS_ECDHE_RSA_WITH_AES_128_GCM_SHA256: u16 = 0xc02f;

pub const TLS_ECDHE_RSA_WITH_AES_256_GCM_SHA384: u16 = 0xc030;

/// Whether `suite` is one of the four suites this client negotiates.
pub open spec fn is_supported_suite_12(suite: int) -> bool {
    suite == 0xc013 || suite == 0xc027 || suite == 0xc02f || suite == 0xc030
}

/// The sizes a cipher suite fixes.
#[derive(Clone, Copy, Debug, PartialEq, Eq, Structural)]
pub struct CipherSuiteParams {
    /// Length of the symmetric key.
    pub key_len: usize,
    /// Length of the fixed part of the IV; 0 where each record brings its
    /// whole IV.
    pub iv_len: usize,
    /// Length of the MAC key; 0 for AEAD suites.
    pub mac_key_len: usize,
    /// Whether the suite protects records with an AEAD.
    pub is_aead: bool,
}

/// The parameters of the supported suite `suite`.
pub open spec fn suite_params(suite: int) -> CipherSuiteParams {
    if suite == 0xc02f {
        CipherSuiteParams { key_len: 16, iv_len: 4, mac_key_len: 0, is_aead: true }
    } else if suite == 0xc030 {
        CipherSuiteParams { key_len: 32, iv_len: 4, mac_key_len: 0, is_aead: true }
    } else if suite == 0xc027 {
        CipherSuiteParams { key_len: 16, iv_len: 0, mac_key_len: 32, is_aead: false }
    } else {
        CipherSuiteParams { key_len: 16, iv_len: 0, mac_key_len: 20, is_aead: false }
    }
}

impl CipherSuiteParams {
    /// Whether these are the parameters of a supported suite.
    pub open spec fn wf(&self) -> bool {
        exists|suite: int| is_supported_suite_12(suite) && *self == suite_params(suite)
    }

    /// The number of bytes the key block must hold: two keys and two fixed
    /// IVs for an AEAD suite, two MAC keys and two keys otherwise.
    pub open spec fn spec_key_block_len(&self) -> int {
        if self.is_aead {
            2 * (self.key_len + self.iv_len)
        } else {
            2 * (self.mac_key_len + self.key_len)
        }
    }

    /// Looks a suite up. Any identifier but the four supported ones is
    /// turned down with a `Handshake` error.
    pub fn for_suite(suite: u16) -> (r: Result<Self, TlsError>)
        ensures
            r is Ok <==> is_supported_suite_12(suite as int),
            r matches Ok(params) ==> params == suite_params(suite as int) && params.wf(),
            r matches Err(e) ==> e is Handshake,
    {
        if suite == TLS_ECDHE_RSA_WITH_AES_128_GCM_SHA256 {
            Ok(CipherSuiteParams { key_len: 16, iv_len: 4, mac_key_len: 0, is_aead: true })
        } else if suite == TLS_ECDHE_RSA_WITH_AES_256_GCM_SHA384 {
            Ok(CipherSuiteParams { key_len: 32, iv_len: 4, mac_key_len: 0, is_aead: true })
        } else if suite == TLS_ECDHE_RSA_WITH_AES_128_CBC_SHA256 {
            Ok(CipherSuiteParams { key_len: 16, iv_len: 0, mac_key_len: 32, is_aead: false })
        } else if suite == TLS_ECDHE_RSA_WITH_AES_128_CBC_SHA {
            Ok(CipherSuiteParams { key_len: 16, iv_len: 0, mac_key_len: 20, is_aead: false })
        } else {
            Err(TlsError::handshake("Unsupported cipher suite"))
        }
    }

    /// Checks at run time that these are the parameters of a supported
    /// suite.
    pub fn is_well_formed(&self) -> (ok: bool)
        ensures
            ok == self.wf(),
    {
        let ok = if self.is_aead {
            (self.key_len == 16 || self.key_len == 32) && self.iv_len == 4 && self.mac_key_len == 0
        } else {
            self.key_len == 16 && self.iv_len == 0 && (self.mac_key_len == 32 || self.mac_key_len
                == 20)
        };
        proof {
            if ok {
                if self.is_aead && self.key_len == 16 {
                    assert(is_supported_suite_12(0xc02f) && *self == suite_params(0xc02f));
                } else if self.is_aead {
                    assert(is_supported_suite_12(0xc030) && *self == suite_params(0xc030));
                } else if self.mac_key_len == 32 {
                    assert(is_supported_suite_12(0xc027) && *self == suite_params(0xc027));
                } else {
                    assert(is_supported_suite_12(0xc013) && *self == suite_params(0xc013));
                }
            }
        }
        ok
    }

    /// The number of bytes the key block must hold.
    pub fn key_block_len(&self) -> (n: usize)
        requires
            self.wf(),
        ensures
            n == self.spec_key_block_len(),
    {
        if self.is_aead {
            2 * (self.key_len + self.iv_len)
        } else {
            2 * (self.mac_key_len + self.key_len)
        }
    }
}

/// The hash under the pseudorandom function of a supported suite: SHA-384
/// for the suite that names it, SHA-256 for the others.
pub open spec fn suite_prf_hash(suite: u16) -> HashAlgorithm {
    if suite == 0xc030 {
        HashAlgorithm::Sha384
    } else {
        HashAlgorithm::Sha256
    }
}

/// The hash under the pseudorandom function of a suite, or a `Handshake`
/// error for a suite that this client does not negotiate.
pub fn prf_hash(suite: u16) -> (r: Result<HashAlgorithm, TlsError>)
    ensures
        r is Ok <==> is_supported_suite_12(suite as int),
        r matches Ok(hash) ==> hash == suite_prf_hash(suite),
        r matches Err(e) ==> e is Handshake,
{
    if suite == TLS_ECDHE_RSA_WITH_AES_256_GCM_SHA384 {
        Ok(HashAlgorithm::Sha384)
    } else if suite == TLS_ECDHE_RSA_WITH_AES_128_GCM_SHA256 || suite
        == TLS_ECDHE_RSA_WITH_AES_128_CBC_SHA256 || suite == TLS_ECDHE_RSA_WITH_AES_128_CBC_SHA {
        Ok(HashAlgorithm::Sha256)
    } else {
        Err(TlsError::handshake("Unsupported cipher suite"))
    }
}

/// The key block lengths of the supported suites: 40 bytes for AES-128-GCM,
/// 72 for AES-256-GCM, 96 for AES-128-CBC with SHA-256 and 72 for
/// AES-128-CBC with SHA-1.
pub proof fn lemma_key_block_lengths()
    ensures
        suite_params(0xc02f).spec_key_block_len() == 40,
        suite_params(0xc030).spec_key_block_len() == 72,
        suite_params(0xc027).spec_key_block_len() == 96,
        suite_params(0xc013).spec_key_block_len() == 72,
{
}

/// The extension block of a TLS 1.2 ServerHello that has one.
pub open spec fn hello_extensions_12(b: Seq<u8>) -> Seq<u8> {
    b.subrange(40 + b[34] as int, b.len() as int)
}

/// The first reason to turn the TLS 1.2 ServerHello body `b` down, or
/// `None` if it is acceptable. The version has to be TLS 1.2 exactly: TLS
/// 1.1, TLS 1.0, SSL 3.0 and everything else are refused. The extension
/// block may be absent.
pub open spec fn hello_reject_12(b: Seq<u8>) -> Option<HelloReject> {
    if b.len() < 35 {
        Some(HelloReject::Truncated)
    } else if b[34] > 32 {
        Some(HelloReject::SessionId)
    } else if b.len() < 38 + b[34] {
        Some(HelloReject::Truncated)
    } else if be16(b, 0) != 0x0303 {
        Some(HelloReject::UnexpectedVersion)
    } else if !is_supported_suite_12(be16(b, 35 + b[34])) {
        Some(HelloReject::CipherSuite)
    } else if b[37 + b[34]] != 0 {
        Some(HelloReject::Compression)
    } else if b.len() == 38 + b[34] {
        None
    } else if b.len() < 40 + b[34] || be16(b, 38 + b[34]) != b.len() - 40 - b[34]
        || !extensions_wf(hello_extensions_12(b)) {
        Some(HelloReject::Extensions)
    } else {
        None
    }
}

/// Whether the acceptable ServerHello body `b` agrees to encrypt CBC
/// records first and authenticate them after.
pub open spec fn agrees_encrypt_then_mac(b: Seq<u8>) -> bool {
    b.len() > 38 + b[34] && find_extension(hello_extensions_12(b), 22) is Some
}

/// What a TLS 1.2 ServerHello settles.
#[derive(Debug)]
pub struct ServerHello12 {
    pub random: Vec<u8>,
    pub session_id: Vec<u8>,
    pub cipher_suite: u16,
    pub encrypt_then_mac: bool,
}

/// Decodes the body of a TLS 1.2 ServerHello.
pub fn decode_server_hello_12(data: &[u8]) -> (r: Result<ServerHello12, HelloReject>)
    ensures
        r is Ok <==> hello_reject_12(data@) is None,
        r matches Ok(h) ==> {
            &&& h.random@ == data@.subrange(2, 34)
            &&& h.session_id@ == data@.subrange(35, 35 + data@[34])
            &&& h.cipher_suite == be16(data@, 35 + data@[34])
            &&& h.encrypt_then_mac == agrees_encrypt_then_mac(data@)
        },
        r matches Err(why) ==> hello_reject_12(data@) == Some(why),
{
    if data.len() < 35 {
        return Err(HelloReject::Truncated);
    }
    let sid = data[34] as usize;
    if sid > 32 {
        return Err(HelloReject::SessionId);
    }
    if data.len() < 38 + sid {
        return Err(HelloReject::Truncated);
    }
    if read_u16(data, 0) != TLS_VERSION_1_2 {
        return Err(HelloReject::UnexpectedVersion);
    }
    let cipher_suite = read_u16(data, 35 + sid);
    if cipher_suite != TLS_ECDHE_RSA_WITH_AES_128_GCM_SHA256 && cipher_suite
        != TLS_ECDHE_RSA_WITH_AES_256_GCM_SHA384 && cipher_suite
        != TLS_ECDHE_RSA_WITH_AES_128_CBC_SHA256 && cipher_suite
        != TLS_ECDHE_RSA_WITH_AES_128_CBC_SHA {
        return Err(HelloReject::CipherSuite);
    }
    if data[37 + sid] != 0 {
        return Err(HelloReject::Compression);
    }
    let mut encrypt_then_mac = false;
    if data.len() > 38 + sid {
        if data.len() < 40 + sid {
            return Err(HelloReject::Extensions);
        }
        if read_u16(data, 38 + sid) as usize != data.len() - 40 - sid {
            return Err(HelloReject::Extensions);
        }
        let exts = vstd::slice::slice_subrange(data, 40 + sid, data.len());
        if !check_extensions(exts) {
            return Err(HelloReject::Extensions);
        }
        encrypt_then_mac = locate_extension(exts, EXT_ENCRYPT_THEN_MAC).is_some();
    }
    Ok(
        ServerHello12 {
            random: copy_range(data, 2, 34),
            session_id: copy_range(data, 35, 35 + sid),
            cipher_suite,
            encrypt_then_mac,
        },
    )
}

/// How far a TLS 1.2 handshake has come.
#[derive(Clone, Copy, Debug, PartialEq, Eq, Structural)]
pub enum Handshake12Phase {
    Start,
    SentClientHello,
    ReceivedServerHello,
    ReceivedCertificate,
    ReceivedServerKeyExchange,
    ReceivedServerHelloDone,
    SentKeyExchange,
    SentFinished,
    Established,
    Failed,
}

/// The phase that a message of type `msg_type` from the server leads to
/// when it arrives in `phase`, or `None` if it may not arrive there. A
/// ServerHello is also taken straight after construction.
pub open spec fn next_phase_12(phase: Handshake12Phase, msg_type: u8) -> Option<Handshake12Phase> {
    match phase {
        Handshake12Phase::Start | Handshake12Phase::SentClientHello => if msg_type == 2 {
            Some(Handshake12Phase::ReceivedServerHello)
        } else {
            None
        },
        Handshake12Phase::ReceivedServerHello => if msg_type == 11 {
            Some(Handshake12Phase::ReceivedCertificate)
        } else {
            None
        },
        Handshake12Phase::ReceivedCertificate => if msg_type == 12 {
            Some(Handshake12Phase::ReceivedServerKeyExchange)
        } else {
            None
        },
        Handshake12Phase::ReceivedServerKeyExchange => if msg_type == 14 {
            Some(Handshake12Phase::ReceivedServerHelloDone)
        } else {
            None
        },
        Handshake12Phase::SentFinished => if msg_type == 20 {
            Some(Handshake12Phase::Established)
        } else {
            None
        },
        _ => None,
    }
}

/// The phase that sending a message of type `msg_type` leads to from
/// `phase`, or `None` if this client may not send it there.
pub open spec fn next_sent_12(phase: Handshake12Phase, msg_type: u8) -> Option<Handshake12Phase> {
    match phase {
        Handshake12Phase::Start => if msg_type == 1 {
            Some(Handshake12Phase::SentClientHello)
        } else {
            None
        },
        Handshake12Phase::ReceivedServerHelloDone => if msg_type == 16 {
            Some(Handshake12Phase::SentKeyExchange)
        } else {
            None
        },
        Handshake12Phase::SentKeyExchange => if msg_type == 20 {
            Some(Handshake12Phase::SentFinished)
        } else {
            None
        },
        _ => None,
    }
}

/// The name of the message that is due from the server in `phase`.
pub open spec fn expected_name_12(phase: Handshake12Phase) -> Seq<char> {
    match phase {
        Handshake12Phase::Start | Handshake12Phase::SentClientHello => "ServerHello"@,
        Handshake12Phase::ReceivedServerHello => "Certificate"@,
        Handshake12Phase::ReceivedCertificate => "ServerKeyExchange"@,
        Handshake12Phase::ReceivedServerKeyExchange => "ServerHelloDone"@,
        Handshake12Phase::SentFinished => "Finished"@,
        _ => "no handshake message"@,
    }
}

/// Decides where a message of type `msg_type` from the server leads from
/// `phase`.
pub fn advance_12(phase: Handshake12Phase, msg_type: u8) -> (r: Option<Handshake12Phase>)
    ensures
        r == next_phase_12(phase, msg_type),
{
    match phase {
        Handshake12Phase::Start | Handshake12Phase::SentClientHello => if msg_type == HANDSHAKE_SERVER_HELLO {
            Some(Handshake12Phase::ReceivedServerHello)
        } else {
            None
        },
        Handshake12Phase::ReceivedServerHello => if msg_type == HANDSHAKE_CERTIFICATE {
            Some(Handshake12Phase::ReceivedCertificate)
        } else {
            None
        },
        Handshake12Phase::ReceivedCertificate => if msg_type == HANDSHAKE_SERVER_KEY_EXCHANGE {
            Some(Handshake12Phase::ReceivedServerKeyExchange)
        } else {
            None
        },
        Handshake12Phase::ReceivedServerKeyExchange => if msg_type == HANDSHAKE_SERVER_HELLO_DONE {
            Some(Handshake12Phase::ReceivedServerHelloDone)
        } else {
            None
        },
        Handshake12Phase::SentFinished => if msg_type == HANDSHAKE_FINISHED {
            Some(Handshake12Phase::Established)
        } else {
            None
        },
        _ => None,
    }
}

/// Names the message that is due from the server in `phase`.
pub fn expected_message_12(phase: Handshake12Phase) -> (name: &'static str)
    ensures
        name@ == expected_name_12(phase),
{
    match phase {
        Handshake12Phase::Start | Handshake12Phase::SentClientHello => "ServerHello",
        Handshake12Phase::ReceivedServerHello => "Certificate",
        Handshake12Phase::ReceivedCertificate => "ServerKeyExchange",
        Handshake12Phase::ReceivedServerKeyExchange => "ServerHelloDone",
        Handshake12Phase::SentFinished => "Finished",
        _ => "no handshake message",
    }
}

/// The state of one TLS 1.2 connection attempt.
#[derive(Debug)]
pub struct Handshake12State {
    /// The name the server is asked for.
    pub server_name: String,
    /// The random value of the ClientHello, fixed at construction.
    pub client_random: [u8; 32],
    /// The server's random value; empty until a ServerHello is accepted.
    pub server_random: Vec<u8>,
    /// The session the server assigned; empty until a ServerHello is
    /// accepted.
    pub session_id: Vec<u8>,
    /// The negotiated cipher suite; 0 until a ServerHello is accepted.
    pub cipher_suite: u16,
    /// Whether the server agreed to encrypt CBC records first and
    /// authenticate them after.
    pub encrypt_then_mac: bool,
    /// Every handshake message exchanged so far, headers included.
    pub transcript: Vec<u8>,
    pub phase: Handshake12Phase,
}

/// The model of `Handshake12State` in contracts, with the server name as
/// bytes.
pub ghost struct Handshake12StateView {
    pub server_name: Seq<u8>,
    pub client_random: Seq<u8>,
    pub server_random: Seq<u8>,
    pub session_id: Seq<u8>,
    pub cipher_suite: u16,
    pub encrypt_then_mac: bool,
    pub transcript: Seq<u8>,
    pub phase: Handshake12Phase,
}

impl View for Handshake12State {
    type V = Handshake12StateView;

    open spec fn view(&self) -> Handshake12StateView {
        Handshake12StateView {
            server_name: vstd::utf8::encode_utf8(self.server_name@),
            client_random: self.client_random@,
            server_random: self.server_random@,
            session_id: self.session_id@,
            cipher_suite: self.cipher_suite,
            encrypt_then_mac: self.encrypt_then_mac,
            transcript: self.transcript@,
            phase: self.phase,
        }
    }
}

/// Whether a message from the server is refused before it is looked at.
pub open spec fn is_refused_12(pre: Handshake12StateView, msg_type: u8, body: Seq<u8>) -> bool {
    pre.phase is Failed || next_phase_12(pre.phase, msg_type) is None || body.len() >= 0x100_0000
}

/// The state after a message was turned down.
pub open spec fn failed_12(pre: Handshake12StateView) -> Handshake12StateView {
    Handshake12StateView { phase: Handshake12Phase::Failed, ..pre }
}

/// What becomes of the state `pre` when a message of type `msg_type` with
/// body `body` is refused before it is looked at, and the error `e` that
/// says so. A failed connection stays as it is and answers
/// `ConnectionClosed`. A message that is not due, or whose body is too
/// long for a handshake message, fails the connection.
pub open spec fn refusal_12(
    pre: Handshake12StateView,
    post: Handshake12StateView,
    e: TlsError,
    msg_type: u8,
    body: Seq<u8>,
) -> bool {
    if pre.phase is Failed {
        e is ConnectionClosed && post == pre
    } else if next_phase_12(pre.phase, msg_type) is None {
        &&& e matches TlsError::UnexpectedMessage { expected, got }
        &&& expected@ == expected_name_12(pre.phase)
        &&& got@ == message_name(msg_type)
        &&& post == failed_12(pre)
    } else {
        e is Protocol && post == failed_12(pre)
    }
}

/// The state after the message `body` of type `msg_type` from the server
/// was accepted in `pre`: the phase moves on and the transcript grows by
/// the framed message.
pub open spec fn accepted_12(pre: Handshake12StateView, msg_type: u8, body: Seq<u8>)
    -> Handshake12StateView {
    Handshake12StateView {
        phase: next_phase_12(pre.phase, msg_type).unwrap(),
        transcript: pre.transcript + framed(msg_type, body),
        ..pre
    }
}

/// The key exchange of a server: the curve, the server's public key on
/// it, and the server's signature over both random values and these
/// parameters.
#[derive(Debug)]
pub struct ServerKeyExchange {
    pub curve: u16,
    pub public_key: Vec<u8>,
    /// The parameters as they were received: what the signature covers
    /// after the random values.
    pub params: Vec<u8>,
    pub scheme: u16,
    pub signature: Vec<u8>,
}

/// Whether `b` does not have the shape of a ServerKeyExchange with a
/// named curve: the curve type 3, a curve, a public key behind a one-byte
/// length, a signature scheme, and a signature behind a two-byte length
/// that covers the rest of the message.
pub open spec fn is_malformed_key_exchange(b: Seq<u8>) -> bool {
    b.len() < 4 || b[0] != 3 || b.len() < 8 + b[3] || be16(b, 6 + b[3]) != b.len() - 8 - b[3]
}

/// Whether the well-shaped ServerKeyExchange `b` is on a curve this
/// client offers, with a public key of the length that curve takes.
pub open spec fn is_usable_key_exchange(b: Seq<u8>) -> bool {
    is_supported_group(be16(b, 1)) && b[3] == key_share_len(be16(b, 1))
}

/// Takes a ServerKeyExchange body apart. A body of the wrong shape is a
/// `Protocol` error; a curve that this client does not offer, or a key
/// that does not fit it, a `Handshake` error. The signature is not
/// checked here.
pub fn parse_server_key_exchange(data: &[u8]) -> (r: Result<ServerKeyExchange, TlsError>)
    ensures
        r is Ok <==> !is_malformed_key_exchange(data@) && is_usable_key_exchange(data@),
        r matches Ok(exchange) ==> {
            &&& exchange.curve == be16(data@, 1)
            &&& exchange.public_key@ == data@.subrange(4, 4 + data@[3])
            &&& exchange.params@ == data@.subrange(0, 4 + data@[3])
            &&& exchange.scheme == be16(data@, 4 + data@[3])
            &&& exchange.signature@ == data@.skip(8 + data@[3])
        },
        r matches Err(e) ==> if is_malformed_key_exchange(data@) {
            e is Protocol
        } else {
            e is Handshake
        },
{
    if data.len() < 4 || data[0] != 3 {
        return Err(TlsError::protocol("Malformed ServerKeyExchange"));
    }
    let key_len = data[3] as usize;
    if data.len() < 8 + key_len {
        return Err(TlsError::protocol("Malformed ServerKeyExchange"));
    }
    if read_u16(data, 6 + key_len) as usize != data.len() - 8 - key_len {
        return Err(TlsError::protocol("Malformed ServerKeyExchange"));
    }
    let curve = read_u16(data, 1);
    if curve != GROUP_X25519 && curve != GROUP_SECP256R1 {
        return Err(TlsError::handshake("Unsupported key exchange group"));
    }
    if key_len != public_key_len(curve) {
        return Err(TlsError::handshake("Invalid key share length"));
    }
    let signature = copy_range(data, 8 + key_len, data.len());
    Ok(
        ServerKeyExchange {
            curve,
            public_key: copy_range(data, 4, 4 + key_len),
            params: copy_range(data, 0, 4 + key_len),
            scheme: read_u16(data, 4 + key_len),
            signature,
        },
    )
}

/// Whether an RSA key can have made a signature of scheme `scheme` over a
/// key exchange: the suites of this client all authenticate the server by
/// RSA, with PKCS#1 or probabilistic padding, over SHA-256 or SHA-384.
pub open spec fn scheme_fits_12(scheme: u16, key_algorithm: Seq<u8>) -> bool {
    (scheme == 0x0401 || scheme == 0x0501 || scheme == 0x0804 || scheme == 0x0805)
        && key_algorithm == seq![
        0x2au8,
        0x86u8,
        0x48u8,
        0x86u8,
        0xf7u8,
        0x0du8,
        0x01u8,
        0x01u8,
        0x01u8,
    ]
}

/// The check of the signature in a ServerKeyExchange: the signature of
/// `exchange`, over the client's random value, the server's, and the
/// parameters of the exchange, made with the key of the leaf
/// certificate. A scheme that the leaf's key cannot have made is a
/// `Handshake` error.
pub fn key_exchange_signature(
    leaf: &Certificate,
    exchange: &ServerKeyExchange,
    client_random: &[u8],
    server_random: &[u8],
) -> (r: Result<SignatureCheck, TlsError>)
    ensures
        r is Ok <==> scheme_fits_12(exchange.scheme, leaf@.key_algorithm),
        r matches Ok(check) ==> {
            &&& check.signed@ == client_random@ + server_random@ + exchange.params@
            &&& check.signature@ == exchange.signature@
            &&& check.algorithm matches SignatureAlgorithm::Scheme(s) && s == exchange.scheme
            &&& check.key@ == leaf@.spki
        },
        r matches Err(e) ==> e is Handshake,
{
    let rsa: [u8; 9] = [0x2a, 0x86, 0x48, 0x86, 0xf7, 0x0d, 0x01, 0x01, 0x01];
    let scheme = exchange.scheme;
    let known = scheme == 0x0401 || scheme == 0x0501 || scheme == 0x0804 || scheme == 0x0805;
    if !known || !bytes_equal(leaf.key_algorithm.as_slice(), vstd::array::array_as_slice(&rsa)) {
        return Err(TlsError::handshake("Signature scheme does not fit the certificate"));
    }
    let mut signed = vstd::slice::slice_to_vec(client_random);
    push_all(&mut signed, server_random);
    push_all(&mut signed, exchange.params.as_slice());
    Ok(
        SignatureCheck {
            signed,
            signature: vstd::slice::slice_to_vec(exchange.signature.as_slice()),
            algorithm: SignatureAlgorithm::Scheme(scheme),
            key: vstd::slice::slice_to_vec(leaf.spki.as_slice()),
        },
    )
}

/// The ClientKeyExchange message for the public key `public_key`: the key
/// behind a one-byte length, framed as a handshake message of type 16.
pub open spec fn client_key_exchange(public_key: Seq<u8>) -> Seq<u8> {
    framed(16, seq![public_key.len() as u8] + public_key)
}

/// Builds the ClientKeyExchange message, handshake header included. A key
/// of more than 255 bytes does not fit and is a `Handshake` error.
pub fn build_client_key_exchange(public_key: &[u8]) -> (r: Result<Vec<u8>, TlsError>)
    ensures
        r is Ok <==> public_key@.len() <= 255,
        r matches Ok(message) ==> message@ == client_key_exchange(public_key@),
        r matches Err(e) ==> e is Handshake,
{
    if public_key.len() > 255 {
        return Err(TlsError::handshake("Invalid key share length"));
    }
    let mut body: Vec<u8> = Vec::new();
    body.push(public_key.len() as u8);
    push_all(&mut body, public_key);
    Ok(frame_message(HANDSHAKE_CLIENT_KEY_EXCHANGE, body.as_slice()))
}

impl Handshake12State {
    /// Whether the state is one that this module's functions produce.
    pub open spec fn wf(&self) -> bool {
        is_valid_hostname(self@.server_name)
    }

    /// Checks at run time that the state is one this module's functions
    /// produce.
    pub fn is_well_formed(&self) -> (ok: bool)
        ensures
            ok == self.wf(),
    {
        check_hostname(self.server_name.as_str().as_bytes())
    }

    /// Starts a connection attempt to `server_name` with the random value
    /// `client_random`. It fails with a `Handshake` error if the name is
    /// not a valid server name.
    pub fn new(server_name: &str, client_random: [u8; 32]) -> (r: Result<Self, TlsError>)
        ensures
            r is Ok <==> is_valid_hostname(server_name.spec_bytes()),
            r matches Ok(state) ==> state.wf() && state@ == (Handshake12StateView {
                server_name: server_name.spec_bytes(),
                client_random: client_random@,
                server_random: Seq::empty(),
                session_id: Seq::empty(),
                cipher_suite: 0,
                encrypt_then_mac: false,
                transcript: Seq::empty(),
                phase: Handshake12Phase::Start,
            }),
            r matches Err(e) ==> e is Handshake,
    {
        if !check_hostname(server_name.as_bytes()) {
            return Err(TlsError::handshake("Invalid server name"));
        }
        Ok(
            Handshake12State {
                server_name: String::from_str(server_name),
                client_random,
                server_random: Vec::new(),
                session_id: Vec::new(),
                cipher_suite: 0,
                encrypt_then_mac: false,
                transcript: Vec::new(),
                phase: Handshake12Phase::Start,
            },
        )
    }

    /// Whether the handshake has been completed.
    pub fn is_complete(&self) -> (done: bool)
        ensures
            done == (self.phase is Established),
    {
        self.phase == Handshake12Phase::Established
    }

    /// The ClientHello of this connection attempt, handshake header
    /// included.
    pub fn build_client_hello(&self) -> (hello: Vec<u8>)
        requires
            self.wf(),
        ensures
            hello@ == client_hello_12(self@.client_random, self@.server_name),
    {
        build_client_hello_12(
            vstd::array::array_as_slice(&self.client_random),
            self.server_name.as_str().as_bytes(),
        )
    }

    /// Records that this client sent the handshake message `message`,
    /// header included, of type `msg_type`: a ClientHello from a fresh
    /// state, a ClientKeyExchange once the server's hello is done, and a
    /// Finished after that. A message that may not be sent now is a
    /// `Handshake` error and fails the connection; a failed connection
    /// answers `ConnectionClosed`.
    pub fn message_sent(&mut self, msg_type: u8, message: &[u8]) -> (r: Result<(), TlsError>)
        ensures
            r is Ok <==> next_sent_12(old(self).phase, msg_type) is Some,
            r is Ok ==> final(self)@ == (Handshake12StateView {
                phase: next_sent_12(old(self).phase, msg_type).unwrap(),
                transcript: old(self)@.transcript + message@,
                ..old(self)@
            }),
            r matches Err(e) ==> if old(self).phase is Failed {
                e is ConnectionClosed && final(self)@ == old(self)@
            } else {
                e is Handshake && final(self)@ == failed_12(old(self)@)
            },
    {
        let next = match self.phase {
            Handshake12Phase::Failed => {
                return Err(TlsError::ConnectionClosed);
            },
            Handshake12Phase::Start => if msg_type == HANDSHAKE_CLIENT_HELLO {
                Some(Handshake12Phase::SentClientHello)
            } else {
                None
            },
            Handshake12Phase::ReceivedServerHelloDone => if msg_type == HANDSHAKE_CLIENT_KEY_EXCHANGE {
                Some(Handshake12Phase::SentKeyExchange)
            } else {
                None
            },
            Handshake12Phase::SentKeyExchange => if msg_type == HANDSHAKE_FINISHED {
                Some(Handshake12Phase::SentFinished)
            } else {
                None
            },
            _ => None,
        };
        match next {
            Some(phase) => {
                push_all(&mut self.transcript, message);
                self.phase = phase;
                Ok(())
            },
            None => {
                self.phase = Handshake12Phase::Failed;
                Err(TlsError::handshake("Message may not be sent now"))
            },
        }
    }

    /// Decides whether a message of type `msg_type` from the server may
    /// be looked at now, and fails the connection if it may not. The
    /// answer is the phase that the message leads to once it is accepted.
    pub fn admit_message(&mut self, msg_type: u8, body: &[u8]) -> (r: Result<
        Handshake12Phase,
        TlsError,
    >)
        ensures
            r is Err <==> is_refused_12(old(self)@, msg_type, body@),
            r matches Err(e) ==> refusal_12(old(self)@, final(self)@, e, msg_type, body@),
            r matches Ok(next) ==> final(self)@ == old(self)@ && Some(next) == next_phase_12(
                old(self).phase,
                msg_type,
            ),
    {
        if self.phase == Handshake12Phase::Failed {
            return Err(TlsError::ConnectionClosed);
        }
        match advance_12(self.phase, msg_type) {
            None => {
                let e = TlsError::unexpected(
                    expected_message_12(self.phase),
                    message_kind(msg_type),
                );
                self.phase = Handshake12Phase::Failed;
                Err(e)
            },
            Some(next) => {
                if body.len() >= 0x100_0000 {
                    self.phase = Handshake12Phase::Failed;
                    return Err(TlsError::protocol("Handshake message too long"));
                }
                Ok(next)
            },
        }
    }

    /// Adds an accepted message to the transcript and moves on.
    fn absorb(&mut self, next: Handshake12Phase, msg_type: u8, body: &[u8])
        requires
            body@.len() < 0x100_0000,
        ensures
            final(self)@ == (Handshake12StateView {
                phase: next,
                transcript: old(self)@.transcript + framed(msg_type, body@),
                ..old(self)@
            }),
    {
        self.transcript.push(msg_type);
        push_u24(&mut self.transcript, body.len() as u32);
        push_all(&mut self.transcript, body);
        self.phase = next;
        assert(self.transcript@ =~= old(self)@.transcript + framed(msg_type, body@));
    }

    /// Takes in the body of a ServerHello. On success the cipher suite, the
    /// session and the server's random value are those of the message. A
    /// ServerHello that is not due, and a body that is turned down, fail
    /// the connection.
    pub fn parse_server_hello(&mut self, data: &[u8]) -> (r: Result<(), TlsError>)
        ensures
            is_refused_12(old(self)@, 2, data@) ==> (r matches Err(e) && refusal_12(
                old(self)@,
                final(self)@,
                e,
                2,
                data@,
            )),
            !is_refused_12(old(self)@, 2, data@) ==> match hello_reject_12(data@) {
                None => {
                    &&& r is Ok
                    &&& final(self)@ == (Handshake12StateView {
                        server_random: data@.subrange(2, 34),
                        session_id: data@.subrange(35, 35 + data@[34]),
                        cipher_suite: be16(data@, 35 + data@[34]) as u16,
                        encrypt_then_mac: agrees_encrypt_then_mac(data@),
                        ..accepted_12(old(self)@, 2, data@)
                    })
                },
                Some(why) => {
                    &&& r matches Err(e)
                    &&& e.text() == why.text()
                    &&& e is Protocol <==> why.is_malformed()
                    &&& e is Handshake <==> !why.is_malformed()
                    &&& final(self)@ == failed_12(old(self)@)
                },
            },
    {
        let next = self.admit_message(HANDSHAKE_SERVER_HELLO, data)?;
        match decode_server_hello_12(data) {
            Ok(hello) => {
                self.cipher_suite = hello.cipher_suite;
                self.session_id = hello.session_id;
                self.server_random = hello.random;
                self.encrypt_then_mac = hello.encrypt_then_mac;
                self.absorb(next, HANDSHAKE_SERVER_HELLO, data);
                Ok(())
            },
            Err(why) => {
                self.phase = Handshake12Phase::Failed;
                Err(why.to_error())
            },
        }
    }

    /// Takes in the body of a Certificate message and hands out the chain
    /// it carries, leaf first.
    pub fn parse_certificate(&mut self, data: &[u8]) -> (r: Result<Vec<Certificate>, TlsError>)
        ensures
            is_refused_12(old(self)@, 11, data@) ==> (r matches Err(e) && refusal_12(
                old(self)@,
                final(self)@,
                e,
                11,
                data@,
            )),
            !is_refused_12(old(self)@, 11, data@) ==> if is_certificate_message_12(data@) {
                &&& r matches Ok(chain)
                &&& parsed_from(chain@, chain_of(data@.skip(3), false).unwrap())
                &&& final(self)@ == accepted_12(old(self)@, 11, data@)
            } else {
                r matches Err(e) && e is Certificate && final(self)@ == failed_12(old(self)@)
            },
    {
        let next = self.admit_message(HANDSHAKE_CERTIFICATE, data)?;
        match self::parse_certificate(data) {
            Ok(chain) => {
                self.absorb(next, HANDSHAKE_CERTIFICATE, data);
                Ok(chain)
            },
            Err(e) => {
                self.phase = Handshake12Phase::Failed;
                Err(e)
            },
        }
    }

    /// Takes in the body of a ServerKeyExchange message and hands out
    /// what it holds. Whether the signature holds is for the caller to
    /// find out.
    pub fn parse_server_key_exchange(&mut self, data: &[u8]) -> (r: Result<
        ServerKeyExchange,
        TlsError,
    >)
        ensures
            is_refused_12(old(self)@, 12, data@) ==> (r matches Err(e) && refusal_12(
                old(self)@,
                final(self)@,
                e,
                12,
                data@,
            )),
            !is_refused_12(old(self)@, 12, data@) ==> if !is_malformed_key_exchange(data@)
                && is_usable_key_exchange(data@) {
                &&& r matches Ok(exchange)
                &&& exchange.curve == be16(data@, 1)
                &&& exchange.public_key@ == data@.subrange(4, 4 + data@[3])
                &&& exchange.params@ == data@.subrange(0, 4 + data@[3])
                &&& exchange.scheme == be16(data@, 4 + data@[3])
                &&& exchange.signature@ == data@.skip(8 + data@[3])
                &&& final(self)@ == accepted_12(old(self)@, 12, data@)
            } else {
                &&& r matches Err(e)
                &&& if is_malformed_key_exchange(data@) {
                    e is Protocol
                } else {
                    e is Handshake
                }
                &&& final(self)@ == failed_12(old(self)@)
            },
    {
        let next = self.admit_message(HANDSHAKE_SERVER_KEY_EXCHANGE, data)?;
        match self::parse_server_key_exchange(data) {
            Ok(exchange) => {
                self.absorb(next, HANDSHAKE_SERVER_KEY_EXCHANGE, data);
                Ok(exchange)
            },
            Err(e) => {
                self.phase = Handshake12Phase::Failed;
                Err(e)
            },
        }
    }

    /// Takes in the body of a ServerHelloDone message, which is empty. Any
    /// other body is a `Protocol` error and fails the connection.
    pub fn parse_server_hello_done(&mut self, data: &[u8]) -> (r: Result<(), TlsError>)
        ensures
            is_refused_12(old(self)@, 14, data@) ==> (r matches Err(e) && refusal_12(
                old(self)@,
                final(self)@,
                e,
                14,
                data@,
            )),
            !is_refused_12(old(self)@, 14, data@) ==> if data@.len() == 0 {
                r is Ok && final(self)@ == accepted_12(old(self)@, 14, data@)
            } else {
                r matches Err(e) && e is Protocol && final(self)@ == failed_12(old(self)@)
            },
    {
        let next = self.admit_message(HANDSHAKE_SERVER_HELLO_DONE, data)?;
        if data.len() != 0 {
            self.phase = Handshake12Phase::Failed;
            return Err(TlsError::protocol("ServerHelloDone is not empty"));
        }
        self.absorb(next, HANDSHAKE_SERVER_HELLO_DONE, data);
        Ok(())
    }

    /// Takes in the body of the server's Finished message and holds it
    /// against `expected`, the verify data computed on this side. Anything
    /// but an exact match fails the connection; a match completes the
    /// handshake.
    pub fn parse_finished(&mut self, data: &[u8], expected: &[u8]) -> (r: Result<(), TlsError>)
        ensures
            is_refused_12(old(self)@, 20, data@) ==> (r matches Err(e) && refusal_12(
                old(self)@,
                final(self)@,
                e,
                20,
                data@,
            )),
            !is_refused_12(old(self)@, 20, data@) ==> if data@.len() == 12 && data@ == expected@ {
                r is Ok && final(self)@ == accepted_12(old(self)@, 20, data@)
            } else {
                &&& r matches Err(e)
                &&& if data@.len() == 12 {
                    e is Handshake
                } else {
                    e is Protocol
                }
                &&& final(self)@ == failed_12(old(self)@)
            },
    {
        let next = self.admit_message(HANDSHAKE_FINISHED, data)?;
        match self::parse_finished(data, expected) {
            Ok(_) => {
                self.absorb(next, HANDSHAKE_FINISHED, data);
                Ok(())
            },
            Err(e) => {
                self.phase = Handshake12Phase::Failed;
                Err(e)
            },
        }
    }

    /// Whether the records of this connection can be protected as agreed:
    /// a suite has been negotiated, and where it is a CBC suite the server
    /// has agreed to encrypt first and authenticate after, which is the
    /// one way this client protects CBC records. Otherwise it is a
    /// `Handshake` error.
    pub fn protection_agreed(&self) -> (r: Result<CipherSuiteParams, TlsError>)
        ensures
            r is Ok <==> is_supported_suite_12(self.cipher_suite as int) && (suite_params(
                self.cipher_suite as int,
            ).is_aead || self.encrypt_then_mac),
            r matches Ok(params) ==> params == suite_params(self.cipher_suite as int)
                && params.wf(),
            r matches Err(e) ==> e is Handshake,
    {
        let params = CipherSuiteParams::for_suite(self.cipher_suite)?;
        if !params.is_aead && !self.encrypt_then_mac {
            return Err(TlsError::handshake("The server did not agree to encrypt-then-MAC"));
        }
        Ok(params)
    }

    /// Gives the connection up: whatever the phase was, it is `Failed`
    /// from now on.
    pub fn fail(&mut self)
        ensures
            final(self)@ == failed_12(old(self)@),
    {
        self.phase = Handshake12Phase::Failed;
    }
}

/// Whether `b` is the body of a TLS 1.2 Certificate message that carries
/// a non-empty chain of well-formed certificates.
pub open spec fn is_certificate_message_12(b: Seq<u8>) -> bool {
    &&& b.len() >= 3
    &&& be24(b, 0) == b.len() - 3
    &&& chain_of(b.skip(3), false) is Some
    &&& is_chain(chain_of(b.skip(3), false).unwrap())
}

/// Parses the body of a TLS 1.2 Certificate message into its chain, leaf
/// first: a certificate list behind a three-byte length that covers the
/// whole message, each entry a certificate behind a three-byte length.
pub fn parse_certificate(data: &[u8]) -> (r: Result<Vec<Certificate>, TlsError>)
    ensures
        r is Ok <==> is_certificate_message_12(data@),
        r matches Ok(chain) ==> parsed_from(chain@, chain_of(data@.skip(3), false).unwrap()),
        r matches Err(e) ==> e is Certificate,
{
    if data.len() < 3 {
        return Err(TlsError::certificate("Certificate message too short"));
    }
    if read_u24(data, 0) as usize != data.len() - 3 {
        return Err(TlsError::certificate("Certificate list length mismatch"));
    }
    let list = vstd::slice::slice_subrange(data, 3, data.len());
    match parse_chain(list, false) {
        Some(chain) => Ok(chain),
        None => Err(TlsError::certificate("Malformed certificate chain")),
    }
}

/// Checks the verify data of a TLS 1.2 Finished message, which is twelve
/// bytes long, against the value computed on this side.
pub fn parse_finished(data: &[u8], expected: &[u8]) -> (r: Result<Vec<u8>, TlsError>)
    ensures
        r is Ok <==> data@.len() == 12 && data@ == expected@,
        r matches Ok(verify_data) ==> verify_data@ == data@,
        r matches Err(e) ==> if data@.len() == 12 {
            e is Handshake
        } else {
            e is Protocol
        },
{
    if data.len() != 12 {
        return Err(TlsError::protocol("Invalid Finished length"));
    }
    if !bytes_equal(data, expected) {
        return Err(TlsError::handshake("Finished verify data mismatch"));
    }
    let verify_data = vstd::slice::slice_to_vec(data);
    Ok(verify_data)
}

} // verus!
