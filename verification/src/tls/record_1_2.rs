//! The TLS 1.2 record layer: AEAD records with an explicit nonce, and CBC
//! records that are encrypted first and authenticated after.

use vstd::prelude::*;
use vstd::slice::slice_to_vec;
use crate::tls::codec::{
    be64_bytes, copy_range, lemma_be16_round_trip, lemma_be64_injective, push_all, push_u64,
    read_u16,
};
use crate::tls::crypto::{tls_pad, tls_padded, tls_unpad, tls_unpadded, CbcRequest};
use crate::tls::error::TlsError;
use crate::tls::handshake_1_2::{is_supported_suite_12, suite_params, CipherSuiteParams};
use crate::tls::prf::{HashAlgorithm, HmacRequest};
use crate::tls::record::{
    is_record, make_header, plain_record, record_header, AeadRequest, AeadView, PendingOpen,
    PendingRecord,
};

verus! {

/// The keys of one direction and the number of records they have
/// protected.
#[derive(Debug)]
pub struct CipherState12 {
    pub key: Vec<u8>,
    /// The implicit part of the nonce of an AEAD suite; empty otherwise.
    pub iv: Vec<u8>,
    /// The MAC key of a CBC suite; empty otherwise.
    pub mac_key: Vec<u8>,
    pub sequence: u64,
}

/// The model of `CipherState12` in contracts.
pub ghost struct Cipher12View {
    pub key: Seq<u8>,
    pub iv: Seq<u8>,
    pub mac_key: Seq<u8>,
    pub sequence: u64,
}

impl View for CipherState12 {
    type V = Cipher12View;

    open spec fn view(&self) -> Cipher12View {
        Cipher12View {
            key: self.key@,
            iv: self.iv@,
            mac_key: self.mac_key@,
            sequence: self.sequence,
        }
    }
}

/// The view of a direction that may or may not be protected.
pub open spec fn direction_view_12(c: Option<CipherState12>) -> Option<Cipher12View> {
    match c {
        Some(c) => Some(c@),
        None => None,
    }
}

/// The cipher state after one more record.
pub open spec fn stepped_12(c: Cipher12View) -> Cipher12View {
    Cipher12View { sequence: (c.sequence + 1) as u64, ..c }
}

/// Whether keys of these lengths are the ones `suite` takes.
pub open spec fn keys_fit(suite: u16, key: Seq<u8>, iv: Seq<u8>, mac_key: Seq<u8>) -> bool {
    &&& is_supported_suite_12(suite as int)
    &&& key.len() == suite_params(suite as int).key_len
    &&& iv.len() == suite_params(suite as int).iv_len
    &&& mac_key.len() == suite_params(suite as int).mac_key_len
}

/// The hash under the MAC of the CBC suite `suite`: SHA-256 where the MAC
/// key has 32 bytes, SHA-1 where it has 20.
pub open spec fn mac_hash(suite: u16) -> HashAlgorithm {
    if suite_params(suite as int).mac_key_len == 32 {
        HashAlgorithm::Sha256
    } else {
        HashAlgorithm::Sha1
    }
}

/// The nonce of an AEAD record: the implicit IV, then the sequence number
/// as the explicit part.
pub open spec fn gcm_nonce(iv: Seq<u8>, sequence: u64) -> Seq<u8> {
    iv + be64_bytes(sequence)
}

/// The data an AEAD record is bound to: sequence number, content type,
/// version, and the length of the payload.
pub open spec fn gcm_aad(sequence: u64, content_type: u8, payload_len: int) -> Seq<u8> {
    be64_bytes(sequence) + record_header(content_type, payload_len)
}

/// What goes on the wire in front of the sealed text of an AEAD record:
/// the header, then the explicit part of the nonce.
pub open spec fn gcm_prefix(sequence: u64, content_type: u8, payload_len: int) -> Seq<u8> {
    record_header(content_type, payload_len + 24) + be64_bytes(sequence)
}

/// The request to seal the record of type `content_type` with payload
/// `payload` under `c`.
pub open spec fn seal_request_12(suite: u16, c: Cipher12View, content_type: u8, payload: Seq<u8>)
    -> AeadView {
    AeadView {
        suite,
        key: c.key,
        nonce: gcm_nonce(c.iv, c.sequence),
        aad: gcm_aad(c.sequence, content_type, payload.len() as int),
        input: payload,
    }
}

/// The request to open the AEAD record `record` under `c`: the nonce is
/// the implicit IV and the eight bytes behind the header.
pub open spec fn open_request_12(suite: u16, c: Cipher12View, record: Seq<u8>) -> AeadView {
    AeadView {
        suite,
        key: c.key,
        nonce: c.iv + record.subrange(5, 13),
        aad: gcm_aad(c.sequence, record[0], record.len() - 5 - 24),
        input: record.skip(13),
    }
}

/// The data the MAC of a CBC record is computed over: sequence number,
/// content type, version, the length of IV and ciphertext, then the IV and
/// the ciphertext themselves.
pub open spec fn mac_input(sequence: u64, content_type: u8, iv: Seq<u8>, ciphertext: Seq<u8>)
    -> Seq<u8> {
    be64_bytes(sequence) + record_header(content_type, 16 + ciphertext.len() as int) + iv + ciphertext
}

/// A CBC record that waits for its ciphertext.
#[derive(Debug)]
pub struct PendingEncrypt {
    pub request: CbcRequest,
    pub content_type: u8,
    pub sequence: u64,
    pub hash: HashAlgorithm,
    pub mac_key: Vec<u8>,
}

/// A CBC record that waits for its MAC.
#[derive(Debug)]
pub struct PendingMac {
    pub request: HmacRequest,
    /// Header, IV and ciphertext.
    pub prefix: Vec<u8>,
}

/// A CBC record whose MAC waits to be checked.
#[derive(Debug)]
pub struct PendingVerify {
    pub request: HmacRequest,
    /// The MAC the record came with.
    pub tag: Vec<u8>,
    pub decrypt: PendingDecrypt,
}

/// A CBC record that waits to be decrypted.
#[derive(Debug)]
pub struct PendingDecrypt {
    pub request: CbcRequest,
    pub content_type: u8,
}

/// What writing a record comes to.
#[derive(Debug)]
pub enum WriteStep12 {
    /// The record, ready for the wire.
    Plain(Vec<u8>),
    /// The record needs sealing first.
    Seal(PendingRecord),
    /// The record needs encrypting, and then a MAC.
    Encrypt(PendingEncrypt),
}

/// What reading a record comes to.
#[derive(Debug)]
pub enum ReadStep12 {
    /// The content type and the payload of an unprotected record.
    Plain(u8, Vec<u8>),
    /// The record needs opening first.
    Open(PendingOpen),
    /// The record's MAC needs checking, and then the record decrypting.
    Verify(PendingVerify),
}

/// Builds the data a MAC is computed over.
fn make_mac_input(sequence: u64, content_type: u8, iv: &[u8], ciphertext: &[u8]) -> (out: Vec<u8>)
    requires
        16 + ciphertext@.len() <= 0xffff,
    ensures
        out@ == mac_input(sequence, content_type, iv@, ciphertext@),
{
    let mut out: Vec<u8> = Vec::new();
    push_u64(&mut out, sequence);
    let header = make_header(content_type, (16 + ciphertext.len()) as u16);
    push_all(&mut out, header.as_slice());
    push_all(&mut out, iv);
    push_all(&mut out, ciphertext);
    out
}

impl PendingEncrypt {
    /// Whether this is a step that `write_record` hands out.
    pub open spec fn wf(&self) -> bool {
        &&& self.request.iv@.len() == 16
        &&& 16 + self.request.input@.len() + self.hash.spec_output_len() <= 0xffff
    }

    /// Checks at run time that this is a step that `write_record` hands
    /// out.
    pub fn is_well_formed(&self) -> (ok: bool)
        ensures
            ok == self.wf(),
    {
        self.request.iv.len() == 16 && self.request.input.len() <= 0xffff
            - 16 - self.hash.output_len()
    }

    /// The next step, given the ciphertext: the request for the MAC over
    /// sequence number, header, IV and ciphertext. A ciphertext that is
    /// not as long as the padded text is a `Crypto` error.
    pub fn encrypted(&self, ciphertext: &[u8]) -> (r: Result<PendingMac, TlsError>)
        requires
            self.wf(),
        ensures
            r is Ok <==> ciphertext@.len() == self.request.input@.len(),
            r matches Ok(next) ==> {
                &&& next.request.hash == self.hash
                &&& next.request.key@ == self.mac_key@
                &&& next.request.data@ == mac_input(
                    self.sequence,
                    self.content_type,
                    self.request.iv@,
                    ciphertext@,
                )
                &&& next.prefix@ == record_header(
                    self.content_type,
                    16 + ciphertext@.len() + self.hash.spec_output_len(),
                ) + self.request.iv@ + ciphertext@
            },
            r matches Err(e) ==> e is Crypto,
    {
        if ciphertext.len() != self.request.input.len() {
            return Err(TlsError::crypto("Ciphertext has the wrong length"));
        }
        let total = 16 + ciphertext.len() + self.hash.output_len();
        let mut prefix = make_header(self.content_type, total as u16);
        push_all(&mut prefix, self.request.iv.as_slice());
        push_all(&mut prefix, ciphertext);
        Ok(
            PendingMac {
                request: HmacRequest {
                    hash: self.hash,
                    key: slice_to_vec(self.mac_key.as_slice()),
                    data: make_mac_input(
                        self.sequence,
                        self.content_type,
                        self.request.iv.as_slice(),
                        ciphertext,
                    ),
                },
                prefix,
            },
        )
    }
}

impl PendingMac {
    /// The record on the wire, given the MAC. A MAC of another length
    /// than the hash gives is a `Crypto` error.
    pub fn complete(&self, mac: &[u8]) -> (r: Result<Vec<u8>, TlsError>)
        ensures
            r is Ok <==> mac@.len() == self.request.hash.spec_output_len(),
            r matches Ok(record) ==> record@ == self.prefix@ + mac@,
            r matches Err(e) ==> e is Crypto,
    {
        if mac.len() != self.request.hash.output_len() {
            return Err(TlsError::crypto("HMAC output has the wrong length"));
        }
        let mut record = slice_to_vec(self.prefix.as_slice());
        push_all(&mut record, mac);
        Ok(record)
    }
}

impl PendingVerify {
    /// The next step, given the MAC computed over the record: the request
    /// to decrypt it. A MAC that differs from the one the record came
    /// with is a `Crypto` error, and nothing is decrypted.
    pub fn verified(self, mac: &[u8]) -> (r: Result<PendingDecrypt, TlsError>)
        ensures
            r is Ok <==> mac@ == self.tag@,
            r matches Ok(next) ==> next == self.decrypt,
            r matches Err(e) ==> e is Crypto,
    {
        if !crate::tls::codec::bytes_equal(mac, self.tag.as_slice()) {
            return Err(TlsError::crypto("Record authentication failed"));
        }
        Ok(self.decrypt)
    }
}

impl PendingDecrypt {
    /// The content type and the payload, given the decrypted blocks.
    /// Blocks that do not end in valid padding are a `Crypto` error.
    pub fn complete(&self, decrypted: &[u8]) -> (r: Result<(u8, Vec<u8>), TlsError>)
        ensures
            r is Ok <==> tls_unpadded(decrypted@) is Some,
            r matches Ok((content_type, payload)) ==> content_type == self.content_type && Some(
                payload@,
            ) == tls_unpadded(decrypted@),
            r matches Err(e) ==> e is Crypto,
    {
        match tls_unpad(decrypted) {
            Ok(payload) => Ok((self.content_type, payload)),
            Err(e) => Err(e),
        }
    }
}

/// The record layer of one TLS 1.2 connection.
#[derive(Debug)]
pub struct RecordLayer12 {
    /// The negotiated suite; 0 until one is set.
    pub suite: u16,
    pub write: Option<CipherState12>,
    pub read: Option<CipherState12>,
}

impl RecordLayer12 {
    /// Whether the installed ciphers fit the suite.
    pub open spec fn wf(&self) -> bool {
        &&& self.write matches Some(c) ==> keys_fit(self.suite, c.key@, c.iv@, c.mac_key@)
        &&& self.read matches Some(c) ==> keys_fit(self.suite, c.key@, c.iv@, c.mac_key@)
    }

    /// Checks at run time that the installed ciphers fit the suite.
    pub fn is_well_formed(&self) -> (ok: bool)
        ensures
            ok == self.wf(),
    {
        let write_ok = match &self.write {
            Some(c) => fits(self.suite, c),
            None => true,
        };
        let read_ok = match &self.read {
            Some(c) => fits(self.suite, c),
            None => true,
        };
        write_ok && read_ok
    }

    /// A layer without a suite and with both directions unprotected.
    pub fn new() -> (layer: Self)
        ensures
            layer.wf(),
            layer.suite == 0,
            layer.write is None,
            layer.read is None,
    {
        RecordLayer12 { suite: 0, write: None, read: None }
    }

    /// Sets the suite that ciphers will be installed for. A suite that is
    /// not supported, and any suite once a cipher is installed, is a
    /// `Record` error and changes nothing.
    pub fn set_cipher_suite(&mut self, suite: u16) -> (r: Result<(), TlsError>)
        requires
            old(self).wf(),
        ensures
            final(self).wf(),
            r is Ok <==> is_supported_suite_12(suite as int) && old(self).write is None && old(
                self,
            ).read is None,
            r is Ok ==> final(self).suite == suite && final(self).write is None && final(self).read
                is None,
            r matches Err(e) ==> e is Record && *final(self) == *old(self),
    {
        if self.write.is_some() || self.read.is_some() {
            return Err(TlsError::record("A cipher is already installed"));
        }
        match CipherSuiteParams::for_suite(suite) {
            Ok(_) => {
                self.suite = suite;
                Ok(())
            },
            Err(_) => Err(TlsError::record("Unsupported cipher suite")),
        }
    }

    /// Installs the cipher of the write direction and starts its count at
    /// zero. Without a suite, or with keys that do not have the lengths
    /// the suite takes, it is a `Record` error and changes nothing.
    pub fn set_write_cipher(&mut self, key: &[u8], iv: &[u8], mac_key: &[u8]) -> (r: Result<
        (),
        TlsError,
    >)
        requires
            old(self).wf(),
        ensures
            final(self).wf(),
            final(self).suite == old(self).suite,
            direction_view_12(final(self).read) == direction_view_12(old(self).read),
            r is Ok <==> keys_fit(old(self).suite, key@, iv@, mac_key@),
            r is Ok ==> direction_view_12(final(self).write) == Some(
                Cipher12View { key: key@, iv: iv@, mac_key: mac_key@, sequence: 0 },
            ),
            r matches Err(e) ==> e is Record && direction_view_12(final(self).write)
                == direction_view_12(old(self).write),
    {
        match make_cipher(self.suite, key, iv, mac_key) {
            Some(c) => {
                self.write = Some(c);
                Ok(())
            },
            None => Err(TlsError::record("Keys do not fit the cipher suite")),
        }
    }

    /// Installs the cipher of the read direction and starts its count at
    /// zero. Without a suite, or with keys that do not have the lengths
    /// the suite takes, it is a `Record` error and changes nothing.
    pub fn set_read_cipher(&mut self, key: &[u8], iv: &[u8], mac_key: &[u8]) -> (r: Result<
        (),
        TlsError,
    >)
        requires
            old(self).wf(),
        ensures
            final(self).wf(),
            final(self).suite == old(self).suite,
            direction_view_12(final(self).write) == direction_view_12(old(self).write),
            r is Ok <==> keys_fit(old(self).suite, key@, iv@, mac_key@),
            r is Ok ==> direction_view_12(final(self).read) == Some(
                Cipher12View { key: key@, iv: iv@, mac_key: mac_key@, sequence: 0 },
            ),
            r matches Err(e) ==> e is Record && direction_view_12(final(self).read)
                == direction_view_12(old(self).read),
    {
        match make_cipher(self.suite, key, iv, mac_key) {
            Some(c) => {
                self.read = Some(c);
                Ok(())
            },
            None => Err(TlsError::record("Keys do not fit the cipher suite")),
        }
    }

    /// Whether a record with payload `payload` can be written with the
    /// fresh random bytes `entropy`: it must fit the 16-bit length field
    /// together with what protection adds, the sequence number must not be
    /// used up, and a CBC suite needs one block of random bytes for the
    /// IV.
    pub open spec fn can_write(&self, payload: Seq<u8>, entropy: Seq<u8>) -> bool {
        match self.write {
            None => payload.len() <= 0xffff,
            Some(c) => c.sequence < u64::MAX && if suite_params(self.suite as int).is_aead {
                payload.len() + 24 <= 0xffff
            } else {
                entropy.len() >= 16 && payload.len() + 16 + 16 + suite_params(
                    self.suite as int,
                ).mac_key_len <= 0xffff
            },
        }
    }

    /// Writes one record. Unprotected, it is ready at once. Under an AEAD
    /// suite it comes back as a request to seal the payload under the
    /// nonce made of the implicit IV and the sequence number, which is
    /// also written into the record. Under a CBC suite it comes back as a
    /// request to encrypt the padded payload under the first block of
    /// `entropy` as IV; the MAC is asked for once the ciphertext is there.
    /// In both cases the sequence number moves on by one. What cannot be
    /// written is a `Record` error and changes nothing.
    pub fn write_record(&mut self, content_type: u8, payload: &[u8], entropy: &[u8]) -> (r: Result<
        WriteStep12,
        TlsError,
    >)
        requires
            old(self).wf(),
        ensures
            final(self).wf(),
            final(self).suite == old(self).suite,
            direction_view_12(final(self).read) == direction_view_12(old(self).read),
            r is Ok <==> old(self).can_write(payload@, entropy@),
            r matches Err(e) ==> e is Record && direction_view_12(final(self).write)
                == direction_view_12(old(self).write),
            r matches Ok(step) ==> match old(self).write {
                None => {
                    &&& step matches WriteStep12::Plain(record)
                    &&& record@ == plain_record(content_type, payload@)
                    &&& final(self).write is None
                },
                Some(c) => {
                    &&& direction_view_12(final(self).write) == Some(stepped_12(c@))
                    &&& if suite_params(old(self).suite as int).is_aead {
                        &&& step matches WriteStep12::Seal(pending)
                        &&& pending.request@ == seal_request_12(
                            old(self).suite,
                            c@,
                            content_type,
                            payload@,
                        )
                        &&& pending.prefix@ == gcm_prefix(
                            c.sequence,
                            content_type,
                            payload@.len() as int,
                        )
                        &&& pending.sealed_len == payload@.len() + 16
                    } else {
                        &&& step matches WriteStep12::Encrypt(pending)
                        &&& pending.wf()
                        &&& pending.request.encrypt
                        &&& pending.request.key@ == c.key@
                        &&& pending.request.iv@ == entropy@.subrange(0, 16)
                        &&& pending.request.input@ == tls_padded(payload@)
                        &&& pending.content_type == content_type
                        &&& pending.sequence == c.sequence
                        &&& pending.hash == mac_hash(old(self).suite)
                        &&& pending.mac_key@ == c.mac_key@
                    }
                },
            },
    {
        let suite = self.suite;
        match &mut self.write {
            None => {
                if payload.len() > 0xffff {
                    return Err(TlsError::record("Record too long"));
                }
                let mut record = make_header(content_type, payload.len() as u16);
                push_all(&mut record, payload);
                Ok(WriteStep12::Plain(record))
            },
            Some(c) => {
                if c.sequence == u64::MAX {
                    return Err(TlsError::record("Sequence number used up"));
                }
                let sequence = c.sequence;
                if c.mac_key.len() == 0 {
                    if payload.len() > 0xffff - 24 {
                        return Err(TlsError::record("Record too long"));
                    }
                    let mut nonce = slice_to_vec(c.iv.as_slice());
                    push_u64(&mut nonce, sequence);
                    let mut aad: Vec<u8> = Vec::new();
                    push_u64(&mut aad, sequence);
                    let inner = make_header(content_type, payload.len() as u16);
                    push_all(&mut aad, inner.as_slice());
                    let mut prefix = make_header(content_type, (payload.len() + 24) as u16);
                    push_u64(&mut prefix, sequence);
                    let request = AeadRequest {
                        suite,
                        key: slice_to_vec(c.key.as_slice()),
                        nonce,
                        aad,
                        input: slice_to_vec(payload),
                    };
                    c.sequence = sequence + 1;
                    Ok(
                        WriteStep12::Seal(
                            PendingRecord { request, prefix, sealed_len: payload.len() + 16 },
                        ),
                    )
                } else {
                    let tag_len = c.mac_key.len();
                    if entropy.len() < 16 {
                        return Err(TlsError::record("A CBC record needs a fresh IV"));
                    }
                    if payload.len() > 0xffff - 32 - tag_len {
                        return Err(TlsError::record("Record too long"));
                    }
                    let hash = if tag_len == 32 {
                        HashAlgorithm::Sha256
                    } else {
                        HashAlgorithm::Sha1
                    };
                    let input = tls_pad(payload);
                    let pending = PendingEncrypt {
                        request: CbcRequest {
                            encrypt: true,
                            key: slice_to_vec(c.key.as_slice()),
                            iv: copy_range(entropy, 0, 16),
                            input,
                        },
                        content_type,
                        sequence,
                        hash,
                        mac_key: slice_to_vec(c.mac_key.as_slice()),
                    };
                    c.sequence = sequence + 1;
                    Ok(WriteStep12::Encrypt(pending))
                }
            },
        }
    }

    /// Whether the record `record` can be read: it must be one whole
    /// record, and where the direction is protected the sequence number
    /// must not be used up and the record must hold what the suite puts
    /// into every record: an explicit nonce and a tag, or an IV, at least
    /// one block of ciphertext in whole blocks, and a MAC.
    pub open spec fn can_read(&self, record: Seq<u8>) -> bool {
        &&& is_record(record)
        &&& self.read matches Some(c) ==> c.sequence < u64::MAX && if suite_params(
            self.suite as int,
        ).is_aead {
            record.len() >= 5 + 24
        } else {
            &&& record.len() >= 5 + 32 + suite_params(self.suite as int).mac_key_len
            &&& (record.len() - 5 - suite_params(self.suite as int).mac_key_len) % 16 == 0
        }
    }

    /// Reads one record, header included. An unprotected record comes
    /// back as it is. An AEAD record comes back as a request to open it; a
    /// CBC record as a request for the MAC over it, to be held against
    /// the MAC it came with before anything is decrypted. In both cases
    /// the sequence number moves on by one. A record whose length is not
    /// the one its header declares, and every other record that cannot be
    /// read, is a `Record` error and changes nothing.
    pub fn read_record(&mut self, record: &[u8]) -> (r: Result<ReadStep12, TlsError>)
        requires
            old(self).wf(),
        ensures
            final(self).wf(),
            final(self).suite == old(self).suite,
            direction_view_12(final(self).write) == direction_view_12(old(self).write),
            r is Ok <==> old(self).can_read(record@),
            r matches Err(e) ==> e is Record && direction_view_12(final(self).read)
                == direction_view_12(old(self).read),
            r matches Ok(step) ==> match old(self).read {
                None => {
                    &&& step matches ReadStep12::Plain(content_type, payload)
                    &&& content_type == record@[0]
                    &&& payload@ == record@.skip(5)
                    &&& final(self).read is None
                },
                Some(c) => {
                    &&& direction_view_12(final(self).read) == Some(stepped_12(c@))
                    &&& if suite_params(old(self).suite as int).is_aead {
                        &&& step matches ReadStep12::Open(pending)
                        &&& pending.request@ == open_request_12(old(self).suite, c@, record@)
                        &&& pending.outer_type == record@[0]
                        &&& !pending.inner_type
                    } else {
                        &&& step matches ReadStep12::Verify(pending)
                        &&& pending.request.hash == mac_hash(old(self).suite)
                        &&& pending.request.key@ == c.mac_key@
                        &&& pending.request.data@ == mac_input(
                            c.sequence,
                            record@[0],
                            record@.subrange(5, 21),
                            record@.subrange(21, record@.len() - c.mac_key@.len()),
                        )
                        &&& pending.tag@ == record@.skip(record@.len() - c.mac_key@.len())
                        &&& !pending.decrypt.request.encrypt
                        &&& pending.decrypt.request.key@ == c.key@
                        &&& pending.decrypt.request.iv@ == record@.subrange(5, 21)
                        &&& pending.decrypt.request.input@ == record@.subrange(
                            21,
                            record@.len() - c.mac_key@.len(),
                        )
                        &&& pending.decrypt.content_type == record@[0]
                    }
                },
            },
    {
        if record.len() < 5 {
            return Err(TlsError::record("Record too short"));
        }
        let declared = read_u16(record, 3) as usize;
        if declared != record.len() - 5 {
            return Err(TlsError::record("Record length mismatch"));
        }
        let suite = self.suite;
        let n = record.len();
        match &mut self.read {
            None => {
                let payload = copy_range(record, 5, n);
                Ok(ReadStep12::Plain(record[0], payload))
            },
            Some(c) => {
                if c.sequence == u64::MAX {
                    return Err(TlsError::record("Sequence number used up"));
                }
                let sequence = c.sequence;
                if c.mac_key.len() == 0 {
                    if n < 5 + 24 {
                        return Err(TlsError::record("Protected record too short"));
                    }
                    let mut nonce = slice_to_vec(c.iv.as_slice());
                    push_all(&mut nonce, vstd::slice::slice_subrange(record, 5, 13));
                    let mut aad: Vec<u8> = Vec::new();
                    push_u64(&mut aad, sequence);
                    let inner = make_header(record[0], (n - 5 - 24) as u16);
                    push_all(&mut aad, inner.as_slice());
                    let input = copy_range(record, 13, n);
                    let request = AeadRequest {
                        suite,
                        key: slice_to_vec(c.key.as_slice()),
                        nonce,
                        aad,
                        input,
                    };
                    c.sequence = sequence + 1;
                    Ok(
                        ReadStep12::Open(
                            PendingOpen { request, outer_type: record[0], inner_type: false },
                        ),
                    )
                } else {
                    let tag_len = c.mac_key.len();
                    if n < 5 + 32 + tag_len || (n - 5 - tag_len) % 16 != 0 {
                        return Err(TlsError::record("Protected record too short"));
                    }
                    let hash = if tag_len == 32 {
                        HashAlgorithm::Sha256
                    } else {
                        HashAlgorithm::Sha1
                    };
                    let iv = vstd::slice::slice_subrange(record, 5, 21);
                    let ciphertext = vstd::slice::slice_subrange(record, 21, n - tag_len);
                    let tag = copy_range(record, n - tag_len, n);
                    let pending = PendingVerify {
                        request: HmacRequest {
                            hash,
                            key: slice_to_vec(c.mac_key.as_slice()),
                            data: make_mac_input(sequence, record[0], iv, ciphertext),
                        },
                        tag,
                        decrypt: PendingDecrypt {
                            request: CbcRequest {
                                encrypt: false,
                                key: slice_to_vec(c.key.as_slice()),
                                iv: slice_to_vec(iv),
                                input: slice_to_vec(ciphertext),
                            },
                            content_type: record[0],
                        },
                    };
                    c.sequence = sequence + 1;
                    Ok(ReadStep12::Verify(pending))
                }
            },
        }
    }
}

/// Whether the keys of `c` have the lengths `suite` takes.
fn fits(suite: u16, c: &CipherState12) -> (ok: bool)
    ensures
        ok == keys_fit(suite, c.key@, c.iv@, c.mac_key@),
{
    match CipherSuiteParams::for_suite(suite) {
        Err(_) => false,
        Ok(params) => c.key.len() == params.key_len && c.iv.len() == params.iv_len
            && c.mac_key.len() == params.mac_key_len,
    }
}

/// Puts a cipher state together if the keys fit the suite.
fn make_cipher(suite: u16, key: &[u8], iv: &[u8], mac_key: &[u8]) -> (r: Option<CipherState12>)
    ensures
        r is Some <==> keys_fit(suite, key@, iv@, mac_key@),
        r matches Some(c) ==> c@ == (Cipher12View {
            key: key@,
            iv: iv@,
            mac_key: mac_key@,
            sequence: 0,
        }),
{
    match CipherSuiteParams::for_suite(suite) {
        Err(_) => None,
        Ok(params) => {
            if key.len() != params.key_len || iv.len() != params.iv_len || mac_key.len()
                != params.mac_key_len {
                return None;
            }
            Some(
                CipherState12 {
                    key: slice_to_vec(key),
                    iv: slice_to_vec(iv),
                    mac_key: slice_to_vec(mac_key),
                    sequence: 0,
                },
            )
        },
    }
}

/// Two AEAD records of one direction are never the same bytes, whatever
/// they carry: each holds its sequence number behind the header.
pub proof fn lemma_records_differ(
    first: u64,
    second: u64,
    first_type: u8,
    second_type: u8,
    first_len: int,
    second_len: int,
    first_sealed: Seq<u8>,
    second_sealed: Seq<u8>,
)
    requires
        first != second,
    ensures
        gcm_prefix(first, first_type, first_len) + first_sealed != gcm_prefix(
            second,
            second_type,
            second_len,
        ) + second_sealed,
{
    let a = gcm_prefix(first, first_type, first_len) + first_sealed;
    let b = gcm_prefix(second, second_type, second_len) + second_sealed;
    if a == b {
        assert(a.subrange(5, 13) =~= be64_bytes(first));
        assert(b.subrange(5, 13) =~= be64_bytes(second));
        lemma_be64_injective(first, second);
    }
}

/// Written under an AEAD suite and read back, a record gives the content
/// type and the payload that went in, whenever the two directions hold
/// the same keys and count, and opening undoes sealing. Such a record
/// carries a nonce and a tag, so its payload has at most 65511 bytes.
pub proof fn lemma_aead_round_trip(
    seal: spec_fn(AeadView) -> Seq<u8>,
    open: spec_fn(AeadView) -> Option<Seq<u8>>,
    suite: u16,
    writer: Cipher12View,
    reader: Cipher12View,
    content_type: u8,
    payload: Seq<u8>,
)
    requires
        forall|q: AeadView| #[trigger] seal(q).len() == q.input.len() + 16,
        forall|q: AeadView| open(AeadView { input: #[trigger] seal(q), ..q }) == Some(q.input),
        writer == reader,
        payload.len() + 24 <= 0xffff,
    ensures
        ({
            let request = seal_request_12(suite, writer, content_type, payload);
            let record = gcm_prefix(writer.sequence, content_type, payload.len() as int) + seal(
                request,
            );
            &&& is_record(record)
            &&& record.len() >= 5 + 24
            &&& record[0] == content_type
            &&& open(open_request_12(suite, reader, record)) == Some(payload)
        }),
{
    let request = seal_request_12(suite, writer, content_type, payload);
    let prefix = gcm_prefix(writer.sequence, content_type, payload.len() as int);
    let record = prefix + seal(request);
    lemma_be16_round_trip(payload.len() as int + 24);
    assert(record.subrange(5, 13) =~= be64_bytes(writer.sequence));
    assert(record.skip(13) =~= seal(request));
}

/// Written under a CBC suite and read back, a record gives the payload
/// that went in, whenever the two directions hold the same keys and
/// count, the MAC is a function of key and data, and decrypting undoes
/// encrypting: the reader asks for the MAC over the very data the writer
/// had authenticated, finds the MAC the record came with, and decrypts
/// the writer's ciphertext under the writer's IV.
pub proof fn lemma_cbc_record_round_trip(
    enc: spec_fn(Seq<u8>, Seq<u8>, Seq<u8>) -> Seq<u8>,
    dec: spec_fn(Seq<u8>, Seq<u8>, Seq<u8>) -> Seq<u8>,
    key: Seq<u8>,
    iv: Seq<u8>,
    mac: Seq<u8>,
    content_type: u8,
    payload: Seq<u8>,
)
    requires
        forall|k: Seq<u8>, i: Seq<u8>, x: Seq<u8>| #[trigger] enc(k, i, x).len() == x.len(),
        forall|k: Seq<u8>, i: Seq<u8>, x: Seq<u8>| dec(k, i, #[trigger] enc(k, i, x)) == x,
        iv.len() == 16,
        payload.len() + 32 + mac.len() <= 0xffff,
    ensures
        ({
            let ciphertext = enc(key, iv, tls_padded(payload));
            let record = record_header(content_type, 16 + ciphertext.len() as int + mac.len()) + iv
                + ciphertext + mac;
            &&& is_record(record)
            &&& record.len() >= 5 + 32 + mac.len()
            &&& (record.len() - 5 - mac.len()) % 16 == 0
            &&& record[0] == content_type
            &&& record.subrange(5, 21) == iv
            &&& record.subrange(21, record.len() - mac.len()) == ciphertext
            &&& record.skip(record.len() - mac.len()) == mac
            &&& tls_unpadded(
                dec(key, record.subrange(5, 21), record.subrange(21, record.len() - mac.len())),
            ) == Some(payload)
        }),
{
    let ciphertext = enc(key, iv, tls_padded(payload));
    let total = 16 + ciphertext.len() + mac.len();
    let record = record_header(content_type, total as int) + iv + ciphertext + mac;
    crate::tls::crypto::lemma_tls_padding_round_trip(payload);
    lemma_be16_round_trip(total as int);
    assert(record.subrange(5, 21) =~= iv);
    assert(record.subrange(21, record.len() - mac.len()) =~= ciphertext);
}

} // verus!
