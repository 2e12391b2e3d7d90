//! The TLS 1.3 record layer: framing, nonces and sequence numbers.
//!
//! Sealing and opening are done outside. To write a protected record the
//! layer hands out the request to seal and the bytes that go in front of
//! the sealed text; to read one it hands out the request to open and then
//! takes the opened text apart.

use vstd::prelude::*;
use vstd::slice::slice_to_vec;
use crate::tls::codec::{
    be16, be16_bytes, be64_bytes, copy_range, lemma_be16_round_trip, lemma_be64_injective,
    push_all, push_u16, push_u64, read_u16,
};
use crate::tls::error::TlsError;

verus! {

/// The length of an AEAD tag.
pub const TAG_LEN: usize = 16;

/// The most bytes a record may carry behind its header.
pub const MAX_RECORD_LEN: usize = 0xffff;

/// The keys of one direction and the number of records they have
/// protected.
#[derive(Debug)]
pub struct CipherState {
    pub suite: u16,
    pub key: Vec<u8>,
    pub iv: Vec<u8>,
    pub sequence: u64,
}

/// The model of `CipherState` in contracts.
pub ghost struct CipherView {
    pub suite: u16,
    pub key: Seq<u8>,
    pub iv: Seq<u8>,
    pub sequence: u64,
}

impl View for CipherState {
    type V = CipherView;

    open spec fn view(&self) -> CipherView {
        CipherView { suite: self.suite, key: self.key@, iv: self.iv@, sequence: self.sequence }
    }
}

/// The view of a direction that may or may not be protected.
pub open spec fn direction_view(c: Option<CipherState>) -> Option<CipherView> {
    match c {
        Some(c) => Some(c@),
        None => None,
    }
}

/// A request to seal or to open `input` under `key` and `nonce`, bound to
/// `aad`.
#[derive(Debug)]
pub struct AeadRequest {
    pub suite: u16,
    pub key: Vec<u8>,
    pub nonce: Vec<u8>,
    pub aad: Vec<u8>,
    pub input: Vec<u8>,
}

/// The model of `AeadRequest` in contracts.
pub ghost struct AeadView {
    pub suite: u16,
    pub key: Seq<u8>,
    pub nonce: Seq<u8>,
    pub aad: Seq<u8>,
    pub input: Seq<u8>,
}

impl View for AeadRequest {
    type V = AeadView;

    open spec fn view(&self) -> AeadView {
        AeadView {
            suite: self.suite,
            key: self.key@,
            nonce: self.nonce@,
            aad: self.aad@,
            input: self.input@,
        }
    }
}

/// A protected record that waits for its sealed text.
#[derive(Debug)]
pub struct PendingRecord {
    pub request: AeadRequest,
    /// What goes on the wire in front of the sealed text.
    pub prefix: Vec<u8>,
    /// How long the sealed text has to be.
    pub sealed_len: usize,
}

/// What writing a record comes to.
#[derive(Debug)]
pub enum WriteStep {
    /// The record, ready for the wire.
    Plain(Vec<u8>),
    /// The record needs sealing first.
    Seal(PendingRecord),
}

/// A protected record that waits to be opened.
#[derive(Debug)]
pub struct PendingOpen {
    pub request: AeadRequest,
    /// The content type of the record's header.
    pub outer_type: u8,
    /// Whether the content type is the last non-zero byte of the opened
    /// text, as in TLS 1.3, rather than the one of the header.
    pub inner_type: bool,
}

/// What reading a record comes to.
#[derive(Debug)]
pub enum ReadStep {
    /// The content type and the payload of an unprotected record.
    Plain(u8, Vec<u8>),
    /// The record needs opening first.
    Open(PendingOpen),
}

/// A record header: content type, the legacy version, and the length of
/// what follows.
pub open spec fn record_header(content_type: u8, len: int) -> Seq<u8> {
    seq![content_type, 3u8, 3u8] + be16_bytes(len)
}

/// An unprotected record.
pub open spec fn plain_record(content_type: u8, payload: Seq<u8>) -> Seq<u8> {
    record_header(content_type, payload.len() as int) + payload
}

/// Whether `record` is one whole record: a header, and exactly as many
/// bytes behind it as the header declares.
pub open spec fn is_record(record: Seq<u8>) -> bool {
    record.len() >= 5 && be16(record, 3) == record.len() - 5
}

/// The nonce of the record with sequence number `sequence`: the IV with
/// the sequence number, as eight big-endian bytes, xor-ed into its end.
pub open spec fn nonce_for(iv: Seq<u8>, sequence: u64) -> Seq<u8> {
    Seq::new(
        12,
        |i: int|
            if i < 4 {
                iv[i]
            } else {
                iv[i] ^ be64_bytes(sequence)[i - 4]
            },
    )
}

/// The text that is sealed for a record: the payload followed by its
/// content type.
pub open spec fn inner_plaintext(content_type: u8, payload: Seq<u8>) -> Seq<u8> {
    payload.push(content_type)
}

/// One past the last non-zero byte of `p`, or 0 if there is none.
pub open spec fn inner_end(p: Seq<u8>) -> int
    decreases p.len(),
{
    if p.len() == 0 {
        0
    } else if p.last() != 0 {
        p.len() as int
    } else {
        inner_end(p.drop_last())
    }
}

/// How long the key of a supported suite is: 16 bytes for AES-128-GCM, 32
/// for AES-256-GCM and ChaCha20-Poly1305.
pub open spec fn suite_key_len(suite: u16) -> int {
    if suite == 0x1301 {
        16
    } else {
        32
    }
}

/// Whether keys of these lengths can protect records under `suite`.
pub open spec fn is_cipher(suite: u16, key: Seq<u8>, iv: Seq<u8>) -> bool {
    &&& suite == 0x1301 || suite == 0x1302 || suite == 0x1303
    &&& key.len() == suite_key_len(suite)
    &&& iv.len() == 12
}

/// The request to seal the record of type `content_type` with payload
/// `payload` under `c`.
pub open spec fn seal_request(c: CipherView, content_type: u8, payload: Seq<u8>) -> AeadView {
    AeadView {
        suite: c.suite,
        key: c.key,
        nonce: nonce_for(c.iv, c.sequence),
        aad: record_header(23, payload.len() as int + 17),
        input: inner_plaintext(content_type, payload),
    }
}

/// The request to open the protected record `record` under `c`.
pub open spec fn open_request(c: CipherView, record: Seq<u8>) -> AeadView {
    AeadView {
        suite: c.suite,
        key: c.key,
        nonce: nonce_for(c.iv, c.sequence),
        aad: record.subrange(0, 5),
        input: record.skip(5),
    }
}

/// The cipher state after one more record.
pub open spec fn stepped(c: CipherView) -> CipherView {
    CipherView { sequence: (c.sequence + 1) as u64, ..c }
}

/// Whether a record that arrives while the read direction is protected
/// passes as it is: a change-cipher-spec record of the single byte 1,
/// which peers send for the sake of middleboxes.
pub open spec fn is_compatibility_record(record: Seq<u8>) -> bool {
    record.len() == 6 && record[0] == 20 && record[5] == 1
}

/// Computes the nonce of a record.
fn make_nonce(iv: &[u8], sequence: u64) -> (nonce: Vec<u8>)
    requires
        iv@.len() == 12,
    ensures
        nonce@ == nonce_for(iv@, sequence),
{
    let mut counter: Vec<u8> = Vec::new();
    push_u64(&mut counter, sequence);
    let mut nonce: Vec<u8> = Vec::new();
    let mut i: usize = 0;
    while i < 12
        invariant
            i <= 12,
            iv@.len() == 12,
            counter@ == be64_bytes(sequence),
            nonce@.len() == i,
            forall|k: int| 0 <= k < i ==> nonce@[k] == nonce_for(iv@, sequence)[k],
        decreases 12 - i,
    {
        if i < 4 {
            nonce.push(iv[i]);
        } else {
            nonce.push(iv[i] ^ counter[i - 4]);
        }
        i += 1;
    }
    nonce
}

/// Builds a record header.
pub fn make_header(content_type: u8, len: u16) -> (header: Vec<u8>)
    ensures
        header@ == record_header(content_type, len as int),
{
    let mut header: Vec<u8> = Vec::new();
    header.push(content_type);
    header.push(3);
    header.push(3);
    push_u16(&mut header, len);
    header
}

/// Reads the header in front of a record and says how many bytes follow
/// it, so that a transport knows how much to read.
pub fn parse_record_header(header: &[u8]) -> (r: Result<(u8, usize), TlsError>)
    ensures
        r is Ok <==> header@.len() == 5,
        r matches Ok((content_type, len)) ==> content_type == header@[0] && len == be16(
            header@,
            3,
        ),
        r matches Err(e) ==> e is Record,
{
    if header.len() != 5 {
        return Err(TlsError::record("A record header has five bytes"));
    }
    Ok((header[0], read_u16(header, 3) as usize))
}

/// Takes an opened TLS 1.3 record apart: the padding of zero bytes at the
/// end is dropped, the last byte before it is the content type, and the
/// rest is the payload. Text without a non-zero byte is a `Record` error.
pub fn open_inner(opened: &[u8]) -> (r: Result<(u8, Vec<u8>), TlsError>)
    ensures
        r is Ok <==> inner_end(opened@) > 0,
        r matches Ok((content_type, payload)) ==> {
            &&& content_type == opened@[inner_end(opened@) - 1]
            &&& payload@ == opened@.subrange(0, inner_end(opened@) - 1)
        },
        r matches Err(e) ==> e is Record,
{
    let mut end: usize = opened.len();
    assert(opened@.subrange(0, end as int) =~= opened@);
    while end > 0 && opened[end - 1] == 0
        invariant
            end <= opened@.len(),
            inner_end(opened@) == inner_end(opened@.subrange(0, end as int)),
        decreases end,
    {
        assert(opened@.subrange(0, end as int).drop_last() =~= opened@.subrange(0, end - 1));
        end -= 1;
    }
    if end == 0 {
        return Err(TlsError::record("Record without a content type"));
    }
    Ok((opened[end - 1], copy_range(opened, 0, end - 1)))
}

impl PendingRecord {
    /// The record on the wire, once the text has been sealed. Sealed text
    /// of another length than was due is a `Crypto` error.
    pub fn complete(&self, sealed: &[u8]) -> (r: Result<Vec<u8>, TlsError>)
        ensures
            r is Ok <==> sealed@.len() == self.sealed_len,
            r matches Ok(record) ==> record@ == self.prefix@ + sealed@,
            r matches Err(e) ==> e is Crypto,
    {
        if sealed.len() != self.sealed_len {
            return Err(TlsError::crypto("Sealed text has the wrong length"));
        }
        let mut record = slice_to_vec(self.prefix.as_slice());
        push_all(&mut record, sealed);
        Ok(record)
    }
}

impl PendingOpen {
    /// The content type and payload of the record, given what opening it
    /// gave: `None` where authentication failed, which is a `Crypto`
    /// error, and the opened text otherwise.
    pub fn complete(&self, opened: Option<&[u8]>) -> (r: Result<(u8, Vec<u8>), TlsError>)
        ensures
            opened is None ==> (r matches Err(e) && e is Crypto),
            opened matches Some(text) ==> if self.inner_type {
                &&& r is Ok <==> inner_end(text@) > 0
                &&& r matches Ok((content_type, payload)) ==> {
                    &&& content_type == text@[inner_end(text@) - 1]
                    &&& payload@ == text@.subrange(0, inner_end(text@) - 1)
                }
                &&& r matches Err(e) ==> e is Record
            } else {
                r matches Ok((content_type, payload)) && content_type == self.outer_type
                    && payload@ == text@
            },
    {
        match opened {
            None => Err(TlsError::crypto("Record authentication failed")),
            Some(text) => {
                if self.inner_type {
                    open_inner(text)
                } else {
                    Ok((self.outer_type, slice_to_vec(text)))
                }
            },
        }
    }
}

/// The record layer of one connection: each direction is unprotected
/// until a cipher is installed for it, and counts its records on its own.
#[derive(Debug)]
pub struct RecordLayer {
    pub write: Option<CipherState>,
    pub read: Option<CipherState>,
}

impl RecordLayer {
    /// A layer with both directions unprotected.
    pub fn new() -> (layer: Self)
        ensures
            layer.write is None,
            layer.read is None,
    {
        RecordLayer { write: None, read: None }
    }

    /// Whether the installed ciphers have IVs of the right length.
    pub open spec fn wf(&self) -> bool {
        &&& self.write matches Some(c) ==> c.iv@.len() == 12
        &&& self.read matches Some(c) ==> c.iv@.len() == 12
    }

    /// Checks at run time that the installed ciphers have IVs of the right
    /// length.
    pub fn is_well_formed(&self) -> (ok: bool)
        ensures
            ok == self.wf(),
    {
        let write_ok = match &self.write {
            Some(c) => c.iv.len() == 12,
            None => true,
        };
        let read_ok = match &self.read {
            Some(c) => c.iv.len() == 12,
            None => true,
        };
        write_ok && read_ok
    }

    /// Installs the cipher of the write direction and starts its count at
    /// zero. Keys that do not fit the suite are a `Record` error and
    /// change nothing.
    pub fn set_write_cipher(&mut self, suite: u16, key: &[u8], iv: &[u8]) -> (r: Result<
        (),
        TlsError,
    >)
        requires
            old(self).wf(),
        ensures
            final(self).wf(),
            r is Ok <==> is_cipher(suite, key@, iv@),
            r is Ok ==> direction_view(final(self).write) == Some(
                CipherView { suite, key: key@, iv: iv@, sequence: 0 },
            ) && direction_view(final(self).read) == direction_view(old(self).read),
            r matches Err(e) ==> e is Record && direction_view(final(self).write) == direction_view(
                old(self).write,
            ) && direction_view(final(self).read) == direction_view(old(self).read),
    {
        match make_cipher(suite, key, iv) {
            Some(c) => {
                self.write = Some(c);
                Ok(())
            },
            None => Err(TlsError::record("Keys do not fit the cipher suite")),
        }
    }

    /// Installs the cipher of the read direction and starts its count at
    /// zero. Keys that do not fit the suite are a `Record` error and
    /// change nothing.
    pub fn set_read_cipher(&mut self, suite: u16, key: &[u8], iv: &[u8]) -> (r: Result<
        (),
        TlsError,
    >)
        requires
            old(self).wf(),
        ensures
            final(self).wf(),
            r is Ok <==> is_cipher(suite, key@, iv@),
            r is Ok ==> direction_view(final(self).read) == Some(
                CipherView { suite, key: key@, iv: iv@, sequence: 0 },
            ) && direction_view(final(self).write) == direction_view(old(self).write),
            r matches Err(e) ==> e is Record && direction_view(final(self).write) == direction_view(
                old(self).write,
            ) && direction_view(final(self).read) == direction_view(old(self).read),
    {
        match make_cipher(suite, key, iv) {
            Some(c) => {
                self.read = Some(c);
                Ok(())
            },
            None => Err(TlsError::record("Keys do not fit the cipher suite")),
        }
    }

    /// Whether a record of type `content_type` with payload `payload` can
    /// be written: it must fit the 16-bit length field, together with the
    /// content type and the tag where the direction is protected. There
    /// the content type must not be zero, which would read as padding,
    /// and the sequence number must not be used up.
    pub open spec fn can_write(&self, content_type: u8, payload: Seq<u8>) -> bool {
        match self.write {
            None => payload.len() <= 0xffff,
            Some(c) => payload.len() + 17 <= 0xffff && content_type != 0 && c.sequence < u64::MAX,
        }
    }

    /// Writes one record. Unprotected, it is ready at once. Protected, it
    /// comes back as a request to seal the payload and its content type
    /// under the nonce of the current sequence number, and the sequence
    /// number moves on by one, so that no nonce is handed out twice. What
    /// cannot be written is a `Record` error and changes nothing.
    pub fn write_record(&mut self, content_type: u8, payload: &[u8]) -> (r: Result<
        WriteStep,
        TlsError,
    >)
        requires
            old(self).wf(),
        ensures
            final(self).wf(),
            direction_view(final(self).read) == direction_view(old(self).read),
            r is Ok <==> old(self).can_write(content_type, payload@),
            r matches Err(e) ==> e is Record && direction_view(final(self).write) == direction_view(
                old(self).write,
            ),
            r matches Ok(step) ==> match old(self).write {
                None => {
                    &&& step matches WriteStep::Plain(record)
                    &&& record@ == plain_record(content_type, payload@)
                    &&& final(self).write is None
                },
                Some(c) => {
                    &&& step matches WriteStep::Seal(pending)
                    &&& pending.request@ == seal_request(c@, content_type, payload@)
                    &&& pending.prefix@ == record_header(23, payload@.len() as int + 17)
                    &&& pending.sealed_len == payload@.len() + 17
                    &&& direction_view(final(self).write) == Some(stepped(c@))
                },
            },
    {
        match &mut self.write {
            None => {
                if payload.len() > MAX_RECORD_LEN {
                    return Err(TlsError::record("Record too long"));
                }
                let mut record = make_header(content_type, payload.len() as u16);
                push_all(&mut record, payload);
                Ok(WriteStep::Plain(record))
            },
            Some(c) => {
                if payload.len() > MAX_RECORD_LEN - 17 {
                    return Err(TlsError::record("Record too long"));
                }
                if content_type == 0 {
                    return Err(TlsError::record("Invalid content type"));
                }
                if c.sequence == u64::MAX {
                    return Err(TlsError::record("Sequence number used up"));
                }
                let sealed_len = payload.len() + 17;
                let mut input = slice_to_vec(payload);
                input.push(content_type);
                let request = AeadRequest {
                    suite: c.suite,
                    key: slice_to_vec(c.key.as_slice()),
                    nonce: make_nonce(c.iv.as_slice(), c.sequence),
                    aad: make_header(CONTENT_TYPE_PROTECTED, sealed_len as u16),
                    input,
                };
                c.sequence = c.sequence + 1;
                Ok(
                    WriteStep::Seal(
                        PendingRecord {
                            request,
                            prefix: make_header(CONTENT_TYPE_PROTECTED, sealed_len as u16),
                            sealed_len,
                        },
                    ),
                )
            },
        }
    }

    /// Whether the record `record` can be read: it must be one whole
    /// record, and where the direction is protected it must either be a
    /// compatibility record or an application-data record that holds at
    /// least a content type and a tag, with the sequence number not used
    /// up.
    pub open spec fn can_read(&self, record: Seq<u8>) -> bool {
        &&& is_record(record)
        &&& self.read matches Some(c) ==> is_compatibility_record(record) || (record[0] == 23
            && record.len() >= 5 + 17 && c.sequence < u64::MAX)
    }

    /// Reads one record, header included. Unprotected records and
    /// compatibility records come back as they are. A protected record
    /// comes back as a request to open it under the nonce of the current
    /// sequence number, and the sequence number moves on by one. A record
    /// whose length is not the one its header declares, and every other
    /// record that cannot be read, is a `Record` error and changes
    /// nothing.
    pub fn read_record(&mut self, record: &[u8]) -> (r: Result<ReadStep, TlsError>)
        requires
            old(self).wf(),
        ensures
            final(self).wf(),
            direction_view(final(self).write) == direction_view(old(self).write),
            r is Ok <==> old(self).can_read(record@),
            r matches Err(e) ==> e is Record && direction_view(final(self).read) == direction_view(
                old(self).read,
            ),
            r matches Ok(step) ==> if old(self).read is None || is_compatibility_record(record@) {
                &&& step matches ReadStep::Plain(content_type, payload)
                &&& content_type == record@[0]
                &&& payload@ == record@.skip(5)
                &&& direction_view(final(self).read) == direction_view(old(self).read)
            } else {
                &&& step matches ReadStep::Open(pending)
                &&& pending.request@ == open_request(old(self).read.unwrap()@, record@)
                &&& pending.inner_type
                &&& direction_view(final(self).read) == Some(stepped(old(self).read.unwrap()@))
            },
    {
        if record.len() < 5 {
            return Err(TlsError::record("Record too short"));
        }
        let declared = read_u16(record, 3) as usize;
        if declared != record.len() - 5 {
            return Err(TlsError::record("Record length mismatch"));
        }
        let compatibility = record.len() == 6 && record[0] == CONTENT_TYPE_CCS && record[5] == 1;
        match &mut self.read {
            None => {
                let payload = copy_range(record, 5, record.len());
                Ok(ReadStep::Plain(record[0], payload))
            },
            Some(c) => {
                if compatibility {
                    let payload = copy_range(record, 5, record.len());
                    return Ok(ReadStep::Plain(record[0], payload));
                }
                if record[0] != CONTENT_TYPE_PROTECTED {
                    return Err(TlsError::record("Unprotected record after key change"));
                }
                if record.len() < 5 + 17 {
                    return Err(TlsError::record("Protected record too short"));
                }
                if c.sequence == u64::MAX {
                    return Err(TlsError::record("Sequence number used up"));
                }
                let input = copy_range(record, 5, record.len());
                let request = AeadRequest {
                    suite: c.suite,
                    key: slice_to_vec(c.key.as_slice()),
                    nonce: make_nonce(c.iv.as_slice(), c.sequence),
                    aad: copy_range(record, 0, 5),
                    input,
                };
                c.sequence = c.sequence + 1;
                Ok(
                    ReadStep::Open(
                        PendingOpen { request, outer_type: record[0], inner_type: true },
                    ),
                )
            },
        }
    }
}

/// The content type on the outside of every protected record.
const CONTENT_TYPE_PROTECTED: u8 = 23;

/// The content type of change-cipher-spec records.
const CONTENT_TYPE_CCS: u8 = 20;

/// Puts a cipher state together if the keys fit the suite.
fn make_cipher(suite: u16, key: &[u8], iv: &[u8]) -> (r: Option<CipherState>)
    ensures
        r is Some <==> is_cipher(suite, key@, iv@),
        r matches Some(c) ==> c@ == (CipherView { suite, key: key@, iv: iv@, sequence: 0 }),
{
    if suite != 0x1301 && suite != 0x1302 && suite != 0x1303 {
        return None;
    }
    let key_len: usize = if suite == 0x1301 {
        16
    } else {
        32
    };
    if key.len() != key_len || iv.len() != 12 {
        return None;
    }
    Some(CipherState { suite, key: slice_to_vec(key), iv: slice_to_vec(iv), sequence: 0 })
}

/// What reading makes of an unprotected record: its content type and its
/// payload.
pub open spec fn plain_content(record: Seq<u8>) -> (u8, Seq<u8>) {
    (record[0], record.skip(5))
}

/// Written unprotected and read back, a record gives the content type and
/// the payload that went in, for every payload of up to 65535 bytes.
pub proof fn lemma_plain_round_trip(content_type: u8, payload: Seq<u8>)
    requires
        payload.len() <= 0xffff,
    ensures
        is_record(plain_record(content_type, payload)),
        plain_content(plain_record(content_type, payload)) == (content_type, payload),
{
    lemma_be16_round_trip(payload.len() as int);
}

/// The content type and the payload come back out of the text that was
/// sealed for them.
pub proof fn lemma_inner_round_trip(content_type: u8, payload: Seq<u8>)
    requires
        content_type != 0,
    ensures
        inner_end(inner_plaintext(content_type, payload)) == payload.len() + 1,
        inner_plaintext(content_type, payload)[payload.len() as int] == content_type,
        inner_plaintext(content_type, payload).subrange(0, payload.len() as int) == payload,
{
}

/// Written protected and read back, a record gives the content type and
/// the payload that went in, whenever the two directions hold the same
/// keys and count, and opening undoes sealing. A protected record carries
/// its content type and a tag, so its payload has at most 65518 bytes.
pub proof fn lemma_protected_round_trip(
    seal: spec_fn(AeadView) -> Seq<u8>,
    open: spec_fn(AeadView) -> Option<Seq<u8>>,
    writer: CipherView,
    reader: CipherView,
    content_type: u8,
    payload: Seq<u8>,
)
    requires
        forall|q: AeadView| #[trigger] seal(q).len() == q.input.len() + 16,
        forall|q: AeadView| open(AeadView { input: #[trigger] seal(q), ..q }) == Some(q.input),
        writer == reader,
        payload.len() + 17 <= 0xffff,
        content_type != 0,
    ensures
        ({
            let request = seal_request(writer, content_type, payload);
            let record = record_header(23, payload.len() as int + 17) + seal(request);
            let opened = open(open_request(reader, record));
            &&& is_record(record)
            &&& record[0] == 23
            &&& record.len() >= 5 + 17
            &&& opened == Some(inner_plaintext(content_type, payload))
            &&& inner_end(opened.unwrap()) > 0
            &&& opened.unwrap()[inner_end(opened.unwrap()) - 1] == content_type
            &&& opened.unwrap().subrange(0, inner_end(opened.unwrap()) - 1) == payload
        }),
{
    let request = seal_request(writer, content_type, payload);
    let header = record_header(23, payload.len() as int + 17);
    let record = header + seal(request);
    lemma_be16_round_trip(payload.len() as int + 17);
    assert(record.subrange(0, 5) =~= header);
    assert(record.skip(5) =~= seal(request));
    lemma_inner_round_trip(content_type, payload);
}

/// No two records of one direction are protected under the same nonce:
/// different sequence numbers give different nonces.
pub proof fn lemma_nonces_differ(iv: Seq<u8>, first: u64, second: u64)
    requires
        iv.len() == 12,
        first != second,
    ensures
        nonce_for(iv, first) != nonce_for(iv, second),
{
    let a = be64_bytes(first);
    let b = be64_bytes(second);
    if nonce_for(iv, first) == nonce_for(iv, second) {
        assert forall|i: int| 0 <= i < 8 implies a[i] == b[i] by {
            let x = iv[i + 4];
            let p = a[i];
            let q = b[i];
            assert(nonce_for(iv, first)[i + 4] == nonce_for(iv, second)[i + 4]);
            assert(x ^ p == x ^ q ==> p == q) by (bit_vector);
        }
        lemma_be64_injective(first, second);
    }
}

} // verus!
