//! The decision whether a certificate chain is to be trusted for a server
//! name: names, validity, the links of the chain and its anchor.
//!
//! Signatures are checked outside. The decision here ends in the list of
//! signatures that have to hold; the caller has each one checked and
//! reports back.

use vstd::prelude::*;
use vstd::slice::slice_to_vec;
use crate::tls::cert::{
    after_optional, certificate_fields, is_certificate, parse_der, read_tagged, read_tlv,
    skip_optional, tagged, tlv_at, Certificate, CertificateView,
};
use crate::tls::codec::{bytes_equal, copy_range};
use crate::tls::connector::TlsConfig;
use crate::tls::error::TlsError;
use crate::tls::key_schedule::{certificate_verify_content, certificate_verify_input};

verus! {

/// The lower-case form of an ASCII letter; every other byte as it is.
pub open spec fn lower(c: u8) -> u8 {
    if 65 <= c <= 90 {
        (c + 32) as u8
    } else {
        c
    }
}

/// Whether `a` and `b` are the same but for the case of ASCII letters.
pub open spec fn same_name(a: Seq<u8>, b: Seq<u8>) -> bool {
    a.len() == b.len() && forall|i: int| 0 <= i < a.len() ==> lower(#[trigger] a[i]) == lower(b[i])
}

/// Whether the name `pattern` of a certificate covers the server name
/// `host`. A pattern that starts with `*.` covers the names that put one
/// non-empty label without a dot in place of the star; every other
/// pattern covers the name it spells. The case of letters does not
/// matter.
pub open spec fn covers(pattern: Seq<u8>, host: Seq<u8>) -> bool {
    if pattern.len() >= 3 && pattern[0] == 42 && pattern[1] == 46 {
        &&& host.len() > pattern.len() - 1
        &&& same_name(host.skip(host.len() - (pattern.len() - 1)), pattern.skip(1))
        &&& forall|i: int| 0 <= i < host.len() - (pattern.len() - 1) ==> #[trigger] host[i] != 46
    } else {
        same_name(pattern, host)
    }
}

/// Whether two names are the same but for the case of ASCII letters.
fn names_equal(a: &[u8], b: &[u8]) -> (same: bool)
    ensures
        same == same_name(a@, b@),
{
    if a.len() != b.len() {
        return false;
    }
    let mut i: usize = 0;
    while i < a.len()
        invariant
            i <= a@.len(),
            a@.len() == b@.len(),
            forall|k: int| 0 <= k < i ==> lower(#[trigger] a@[k]) == lower(b@[k]),
        decreases a@.len() - i,
    {
        let x = if 65 <= a[i] && a[i] <= 90 {
            a[i] + 32
        } else {
            a[i]
        };
        let y = if 65 <= b[i] && b[i] <= 90 {
            b[i] + 32
        } else {
            b[i]
        };
        if x != y {
            return false;
        }
        i += 1;
    }
    true
}

/// Whether the name `pattern` of a certificate covers the server name
/// `host`.
pub fn name_covers(pattern: &[u8], host: &[u8]) -> (ok: bool)
    ensures
        ok == covers(pattern@, host@),
{
    if pattern.len() >= 3 && pattern[0] == 42 && pattern[1] == 46 {
        let tail = pattern.len() - 1;
        if host.len() <= tail {
            return false;
        }
        let head = host.len() - tail;
        let suffix = vstd::slice::slice_subrange(host, head, host.len());
        let rest = vstd::slice::slice_subrange(pattern, 1, pattern.len());
        if !names_equal(suffix, rest) {
            return false;
        }
        let mut i: usize = 0;
        while i < head
            invariant
                i <= head <= host@.len(),
                pattern@.len() >= 3 && pattern@[0] == 42 && pattern@[1] == 46,
                head == host@.len() - (pattern@.len() - 1),
                forall|k: int| 0 <= k < i ==> #[trigger] host@[k] != 46,
            decreases head - i,
        {
            if host[i] == 46 {
                return false;
            }
            i += 1;
        }
        true
    } else {
        names_equal(pattern, host)
    }
}

/// Whether `oid` is the object identifier of the subject alternative name
/// extension, 2.5.29.17.
pub open spec fn is_san_oid(oid: Seq<u8>) -> bool {
    oid.len() == 3 && oid[0] == 0x55 && oid[1] == 0x1d && oid[2] == 0x11
}

/// The span of the value of the first subject alternative name extension
/// among the extensions in `b[pos..end]`: `Some(None)` if there is none,
/// and `None` if an element at its place is not an extension, which is a
/// sequence of an object identifier, an optional boolean and an octet
/// string that ends with the sequence.
pub open spec fn find_san(b: Seq<u8>, pos: int, end: int) -> Option<Option<(int, int)>>
    decreases end - pos,
{
    if pos >= end {
        Some(None)
    } else {
        match tagged(b, pos, end, 0x30) {
            None => None,
            Some(ext) => match tagged(b, ext.0, ext.1, 0x06) {
                None => None,
                Some(oid) => match tagged(b, after_optional(b, oid.1, ext.1, 0x01), ext.1, 0x04) {
                    None => None,
                    Some(value) => if value.1 != ext.1 || ext.1 <= pos || ext.1 > end {
                        None
                    } else if is_san_oid(b.subrange(oid.0, oid.1)) {
                        Some(Some(value))
                    } else {
                        find_san(b, ext.1, end)
                    },
                },
            },
        }
    }
}

/// The DNS names among the general names in `b[pos..end]`, in order, or
/// `None` if the span is not a run of whole elements. A DNS name is an
/// element with the context tag 2.
pub open spec fn general_names(b: Seq<u8>, pos: int, end: int) -> Option<Seq<Seq<u8>>>
    decreases end - pos,
{
    if pos >= end {
        Some(Seq::empty())
    } else {
        match tlv_at(b, pos, end) {
            None => None,
            Some((tag, start, stop)) => if stop <= pos || stop > end {
                None
            } else {
                match general_names(b, stop, end) {
                    None => None,
                    Some(rest) => if tag == 0x82 {
                        Some(seq![b.subrange(start, stop)] + rest)
                    } else {
                        Some(rest)
                    },
                }
            },
        }
    }
}

/// The DNS names that the extensions `ext` of a certificate give its
/// subject: none where there are no extensions or no subject alternative
/// name among them; `None` where the extensions are malformed.
pub open spec fn dns_names(ext: Seq<u8>) -> Option<Seq<Seq<u8>>> {
    if ext.len() == 0 {
        Some(Seq::empty())
    } else {
        match tagged(ext, 0, ext.len() as int, 0x30) {
            None => None,
            Some(outer) => if outer.1 != ext.len() {
                None
            } else {
                match find_san(ext, outer.0, outer.1) {
                    None => None,
                    Some(None) => Some(Seq::empty()),
                    Some(Some(value)) => match tagged(ext, value.0, value.1, 0x30) {
                        None => None,
                        Some(names) => if names.1 != value.1 {
                            None
                        } else {
                            general_names(ext, names.0, names.1)
                        },
                    },
                }
            },
        }
    }
}

/// Looks for the subject alternative name extension.
fn locate_san(b: &[u8], from: usize, end: usize) -> (r: Option<Option<(usize, usize)>>)
    requires
        from <= end <= b@.len(),
    ensures
        r is Some <==> find_san(b@, from as int, end as int) is Some,
        r matches Some(found) ==> match found {
            None => find_san(b@, from as int, end as int) == Some(None::<(int, int)>),
            Some((s, e)) => find_san(b@, from as int, end as int) == Some(Some((s as int, e as int)))
                && s <= e <= end,
        },
{
    let mut pos = from;
    while pos < end
        invariant
            from <= pos <= end <= b@.len(),
            find_san(b@, from as int, end as int) == find_san(b@, pos as int, end as int),
        decreases end - pos,
    {
        let (ext_start, ext_end) = match read_tagged(b, pos, end, 0x30) {
            None => {
                return None;
            },
            Some(span) => span,
        };
        let (oid_start, oid_end) = match read_tagged(b, ext_start, ext_end, 0x06) {
            None => {
                return None;
            },
            Some(span) => span,
        };
        let after = skip_optional(b, oid_end, ext_end, 0x01);
        let (value_start, value_end) = match read_tagged(b, after, ext_end, 0x04) {
            None => {
                return None;
            },
            Some(span) => span,
        };
        if value_end != ext_end {
            return None;
        }
        if oid_end - oid_start == 3 && b[oid_start] == 0x55 && b[oid_start + 1] == 0x1d && b[oid_start
            + 2] == 0x11 {
            return Some(Some((value_start, value_end)));
        }
        pos = ext_end;
    }
    Some(None)
}

/// What is known of a run of names once a prefix of it has been read.
spec fn names_after(done: Seq<Seq<u8>>, rest: Option<Seq<Seq<u8>>>) -> Option<Seq<Seq<u8>>> {
    match rest {
        None => None,
        Some(r) => Some(done + r),
    }
}

/// Gathers the DNS names of a run of general names.
fn gather_names(b: &[u8], from: usize, end: usize) -> (r: Option<Vec<Vec<u8>>>)
    requires
        from <= end <= b@.len(),
    ensures
        r is Some <==> general_names(b@, from as int, end as int) is Some,
        r matches Some(names) ==> names@.len() == general_names(
            b@,
            from as int,
            end as int,
        ).unwrap().len() && forall|i: int|
            0 <= i < names@.len() ==> (#[trigger] names@[i])@ == general_names(
                b@,
                from as int,
                end as int,
            ).unwrap()[i],
{
    let mut names: Vec<Vec<u8>> = Vec::new();
    let ghost mut done: Seq<Seq<u8>> = Seq::empty();
    let mut pos = from;
    while pos < end
        invariant
            from <= pos <= end <= b@.len(),
            general_names(b@, from as int, end as int) == names_after(
                done,
                general_names(b@, pos as int, end as int),
            ),
            names@.len() == done.len(),
            forall|i: int| 0 <= i < names@.len() ==> (#[trigger] names@[i])@ == done[i],
        decreases end - pos,
    {
        let t = match read_tlv(b, pos, end) {
            None => {
                return None;
            },
            Some(t) => t,
        };
        if t.tag == 0x82 {
            names.push(copy_range(b, t.start, t.end));
            proof {
                done = done.push(b@.subrange(t.start as int, t.end as int));
            }
        }
        pos = t.end;
    }
    Some(names)
}

/// Reads the DNS names out of the extensions of a certificate.
pub fn subject_names(ext: &[u8]) -> (r: Option<Vec<Vec<u8>>>)
    ensures
        r is Some <==> dns_names(ext@) is Some,
        r matches Some(names) ==> names@.len() == dns_names(ext@).unwrap().len() && forall|i: int|
            0 <= i < names@.len() ==> (#[trigger] names@[i])@ == dns_names(ext@).unwrap()[i],
{
    if ext.len() == 0 {
        return Some(Vec::new());
    }
    let (outer_start, outer_end) = read_tagged(ext, 0, ext.len(), 0x30)?;
    if outer_end != ext.len() {
        return None;
    }
    match locate_san(ext, outer_start, outer_end)? {
        None => Some(Vec::new()),
        Some((value_start, value_end)) => {
            let (names_start, names_end) = read_tagged(ext, value_start, value_end, 0x30)?;
            if names_end != value_end {
                return None;
            }
            gather_names(ext, names_start, names_end)
        },
    }
}

/// How a signature names its algorithm.
#[derive(Debug)]
pub enum SignatureAlgorithm {
    /// By the object identifier of a certificate's signature algorithm.
    Oid(Vec<u8>),
    /// By the signature scheme of a handshake message.
    Scheme(u16),
}

/// A signature that has to hold: `signature` over `signed`, made with the
/// private half of the key whose SubjectPublicKeyInfo is `key`.
#[derive(Debug)]
pub struct SignatureCheck {
    pub signed: Vec<u8>,
    pub signature: Vec<u8>,
    pub algorithm: SignatureAlgorithm,
    pub key: Vec<u8>,
}

/// The certificates a client trusts without looking further.
#[derive(Debug)]
pub struct TrustStore {
    pub anchors: Vec<Certificate>,
}

/// Whether `now`, as `YYYYMMDDhhmmss`, lies in the validity of
/// `certificate`.
pub open spec fn valid_at(certificate: CertificateView, now: u64) -> bool {
    certificate.not_before <= now <= certificate.not_after
}

/// Whether each certificate of `chain` names the subject of the next as
/// its issuer.
pub open spec fn linked(chain: Seq<Certificate>) -> bool {
    forall|i: int|
        0 <= i < chain.len() - 1 ==> (#[trigger] chain[i])@.issuer == chain[i + 1]@.subject
}

/// The position of the first anchor from position `from` on whose subject
/// is `issuer`.
pub open spec fn anchor_for(anchors: Seq<Certificate>, issuer: Seq<u8>, from: int) -> Option<int>
    decreases anchors.len() - from,
{
    if from < 0 || from >= anchors.len() {
        None
    } else if anchors[from]@.subject == issuer {
        Some(from)
    } else {
        anchor_for(anchors, issuer, from + 1)
    }
}

/// Whether one of `names` covers `host`.
pub open spec fn any_covers(names: Seq<Seq<u8>>, host: Seq<u8>) -> bool {
    exists|i: int| 0 <= i < names.len() && covers(#[trigger] names[i], host)
}

/// Why a chain is not trusted.
#[derive(Clone, Copy, Debug, PartialEq, Eq)]
pub enum Distrust {
    /// The chain is empty.
    EmptyChain,
    /// A certificate of the chain, or the anchor, is not valid now.
    Validity,
    /// The extensions of the leaf cannot be read.
    MalformedNames,
    /// No name of the leaf covers the server name.
    Hostname,
    /// A certificate was not issued by the next one.
    BrokenChain,
    /// No anchor issued the last certificate.
    UntrustedRoot,
}

/// The first reason not to trust `chain` for `host` at time `now`, or
/// `None` if everything but the signatures is in order: the chain is not
/// empty, every certificate is valid now, a DNS name of the leaf covers
/// the host, each certificate was issued by the next, and an anchor that
/// is valid now issued the last.
pub open spec fn distrust(
    anchors: Seq<Certificate>,
    chain: Seq<Certificate>,
    host: Seq<u8>,
    now: u64,
) -> Option<Distrust> {
    if chain.len() == 0 {
        Some(Distrust::EmptyChain)
    } else if !(forall|i: int| 0 <= i < chain.len() ==> valid_at((#[trigger] chain[i])@, now)) {
        Some(Distrust::Validity)
    } else if dns_names(chain[0]@.extensions) is None {
        Some(Distrust::MalformedNames)
    } else if !any_covers(dns_names(chain[0]@.extensions).unwrap(), host) {
        Some(Distrust::Hostname)
    } else if !linked(chain) {
        Some(Distrust::BrokenChain)
    } else {
        match anchor_for(anchors, chain[chain.len() - 1]@.issuer, 0) {
            None => Some(Distrust::UntrustedRoot),
            Some(a) => if !valid_at(anchors[a]@, now) {
                Some(Distrust::Validity)
            } else {
                None
            },
        }
    }
}

/// Whether `checks` are the signatures that `chain` rests on: that of
/// each certificate, to be checked with the key of the next, and that of
/// the last with the key of its anchor.
pub open spec fn checks_of(
    anchors: Seq<Certificate>,
    chain: Seq<Certificate>,
    checks: Seq<SignatureCheck>,
) -> bool {
    &&& checks.len() == chain.len()
    &&& forall|i: int|
        0 <= i < chain.len() ==> {
            &&& (#[trigger] checks[i]).signed@ == chain[i]@.tbs
            &&& checks[i].signature@ == chain[i]@.signature
            &&& checks[i].algorithm matches SignatureAlgorithm::Oid(oid) && oid@
                == chain[i]@.signature_algorithm
            &&& checks[i].key@ == if i + 1 < chain.len() {
                chain[i + 1]@.spki
            } else {
                anchors[anchor_for(anchors, chain[i]@.issuer, 0).unwrap()]@.spki
            }
        }
}

impl Distrust {
    /// The message of the error that reports this reason.
    pub open spec fn text(self) -> Seq<char> {
        match self {
            Distrust::EmptyChain => "Empty certificate chain"@,
            Distrust::Validity => "Certificate is expired or not yet valid"@,
            Distrust::MalformedNames => "Malformed certificate extensions"@,
            Distrust::Hostname => "Certificate does not match the server name"@,
            Distrust::BrokenChain => "Certificate chain is broken"@,
            Distrust::UntrustedRoot => "Untrusted root"@,
        }
    }

    /// The `Certificate` error that reports this reason.
    pub fn to_error(self) -> (e: TlsError)
        ensures
            e is Certificate,
            e.text() == self.text(),
    {
        match self {
            Distrust::EmptyChain => TlsError::certificate("Empty certificate chain"),
            Distrust::Validity => TlsError::certificate("Certificate is expired or not yet valid"),
            Distrust::MalformedNames => TlsError::certificate("Malformed certificate extensions"),
            Distrust::Hostname => TlsError::certificate(
                "Certificate does not match the server name",
            ),
            Distrust::BrokenChain => TlsError::certificate("Certificate chain is broken"),
            Distrust::UntrustedRoot => TlsError::certificate("Untrusted root"),
        }
    }
}

/// Whether one of `names` covers `host`.
fn covered(names: &Vec<Vec<u8>>, host: &[u8]) -> (ok: bool)
    ensures
        ok == exists|i: int| 0 <= i < names@.len() && covers((#[trigger] names@[i])@, host@),
{
    let mut i: usize = 0;
    while i < names.len()
        invariant
            i <= names@.len(),
            forall|k: int| 0 <= k < i ==> !covers((#[trigger] names@[k])@, host@),
        decreases names@.len() - i,
    {
        if name_covers(names[i].as_slice(), host) {
            return true;
        }
        i += 1;
    }
    false
}

impl TrustStore {
    /// A store without anchors.
    pub fn new() -> (store: Self)
        ensures
            store.anchors@.len() == 0,
    {
        TrustStore { anchors: Vec::new() }
    }

    /// Adds the DER certificate `der` as an anchor. Bytes that are not a
    /// well-formed certificate are a `Certificate` error and change
    /// nothing.
    pub fn add_anchor(&mut self, der: &[u8]) -> (r: Result<(), TlsError>)
        ensures
            r is Ok <==> is_certificate(der@),
            r is Ok ==> {
                let n = old(self).anchors@.len() as int;
                &&& final(self).anchors@.len() == n + 1
                &&& final(self).anchors@.subrange(0, n) == old(self).anchors@
                &&& final(self).anchors@[n]@ == certificate_fields(der@)
            },
            r matches Err(e) ==> e is Certificate && final(self).anchors == old(self).anchors,
    {
        match parse_der(der) {
            Some(anchor) => {
                self.anchors.push(anchor);
                Ok(())
            },
            None => Err(TlsError::certificate("Malformed trust anchor")),
        }
    }

    /// Looks for the first anchor whose subject is `issuer`.
    fn find_anchor(&self, issuer: &[u8]) -> (r: Option<usize>)
        ensures
            r is Some <==> anchor_for(self.anchors@, issuer@, 0) is Some,
            r matches Some(a) ==> anchor_for(self.anchors@, issuer@, 0) == Some(a as int) && a
                < self.anchors@.len(),
    {
        let mut i: usize = 0;
        while i < self.anchors.len()
            invariant
                i <= self.anchors@.len(),
                anchor_for(self.anchors@, issuer@, 0) == anchor_for(
                    self.anchors@,
                    issuer@,
                    i as int,
                ),
            decreases self.anchors@.len() - i,
        {
            if bytes_equal(self.anchors[i].subject.as_slice(), issuer) {
                return Some(i);
            }
            i += 1;
        }
        None
    }

    /// Decides whether `chain`, leaf first, is to be trusted for the
    /// server `host` at the time `now`, given as `YYYYMMDDhhmmss`, as far
    /// as that can be decided without checking a signature. The answer is
    /// the first reason not to trust the chain, or the signatures that
    /// the trust rests on.
    #[verifier::loop_isolation(false)]
    pub fn examine(&self, chain: &Vec<Certificate>, host: &[u8], now: u64) -> (r: Result<
        Vec<SignatureCheck>,
        Distrust,
    >)
        ensures
            r is Ok <==> distrust(self.anchors@, chain@, host@, now) is None,
            r matches Ok(checks) ==> checks_of(self.anchors@, chain@, checks@),
            r matches Err(why) ==> distrust(self.anchors@, chain@, host@, now) == Some(why),
    {
        let n = chain.len();
        if n == 0 {
            return Err(Distrust::EmptyChain);
        }
        let mut i: usize = 0;
        while i < n
            invariant
                i <= n == chain@.len(),
                forall|k: int| 0 <= k < i ==> valid_at((#[trigger] chain@[k])@, now),
            decreases n - i,
        {
            if !(chain[i].not_before <= now && now <= chain[i].not_after) {
                return Err(Distrust::Validity);
            }
            i += 1;
        }
        let names = match subject_names(chain[0].extensions.as_slice()) {
            None => {
                return Err(Distrust::MalformedNames);
            },
            Some(names) => names,
        };
        let ghost spec_names = dns_names(chain@[0]@.extensions).unwrap();
        if !covered(&names, host) {
            assert forall|k: int| 0 <= k < spec_names.len() implies !covers(
                #[trigger] spec_names[k],
                host@,
            ) by {
                assert(names@[k]@ == spec_names[k]);
            }
            return Err(Distrust::Hostname);
        }
        let mut j: usize = 0;
        while j + 1 < n
            invariant
                j < n == chain@.len(),
                forall|k: int| 0 <= k < j ==> (#[trigger] chain@[k])@.issuer == chain@[k + 1]@.subject,
            decreases n - j,
        {
            if !bytes_equal(chain[j].issuer.as_slice(), chain[j + 1].subject.as_slice()) {
                return Err(Distrust::BrokenChain);
            }
            j += 1;
        }
        let a = match self.find_anchor(chain[n - 1].issuer.as_slice()) {
            None => {
                return Err(Distrust::UntrustedRoot);
            },
            Some(a) => a,
        };
        if !(self.anchors[a].not_before <= now && now <= self.anchors[a].not_after) {
            return Err(Distrust::Validity);
        }
        let mut checks: Vec<SignatureCheck> = Vec::new();
        let mut k: usize = 0;
        while k < n
            invariant
                k <= n == chain@.len(),
                n >= 1,
                a < self.anchors@.len(),
                anchor_for(self.anchors@, chain@[n - 1]@.issuer, 0) == Some(a as int),
                checks@.len() == k,
                forall|i: int|
                    0 <= i < k ==> {
                        &&& (#[trigger] checks@[i]).signed@ == chain@[i]@.tbs
                        &&& checks@[i].signature@ == chain@[i]@.signature
                        &&& checks@[i].algorithm matches SignatureAlgorithm::Oid(oid) && oid@
                            == chain@[i]@.signature_algorithm
                        &&& checks@[i].key@ == if i + 1 < chain@.len() {
                            chain@[i + 1]@.spki
                        } else {
                            self.anchors@[a as int]@.spki
                        }
                    },
            decreases n - k,
        {
            let key = if k + 1 < n {
                slice_to_vec(chain[k + 1].spki.as_slice())
            } else {
                slice_to_vec(self.anchors[a].spki.as_slice())
            };
            checks.push(
                SignatureCheck {
                    signed: slice_to_vec(chain[k].tbs.as_slice()),
                    signature: slice_to_vec(chain[k].signature.as_slice()),
                    algorithm: SignatureAlgorithm::Oid(
                        slice_to_vec(chain[k].signature_algorithm.as_slice()),
                    ),
                    key,
                },
            );
            k += 1;
        }
        Ok(checks)
    }

    /// Decides whether `chain` is to be trusted under the options
    /// `config`. Where the options skip verification nothing is looked at
    /// and no signature has to hold. Otherwise the answer is that of
    /// `examine`, with each reason not to trust the chain reported as a
    /// `Certificate` error.
    pub fn evaluate(&self, config: &TlsConfig, chain: &Vec<Certificate>, host: &[u8], now: u64) -> (r:
        Result<Vec<SignatureCheck>, TlsError>)
        ensures
            config.skip_verification ==> (r matches Ok(checks) && checks@.len() == 0),
            !config.skip_verification ==> match distrust(self.anchors@, chain@, host@, now) {
                None => r matches Ok(checks) && checks_of(self.anchors@, chain@, checks@),
                Some(why) => r matches Err(e) && e is Certificate && e.text() == why.text(),
            },
    {
        if config.skip_verification {
            return Ok(Vec::new());
        }
        match self.examine(chain, host, now) {
            Ok(checks) => Ok(checks),
            Err(why) => Err(why.to_error()),
        }
    }
}

/// Concludes a decision once the signatures have been checked: the chain
/// is trusted if there is one result for each of the `expected`
/// signatures and every one of them holds. Anything else is a
/// `Certificate` error.
pub fn conclude(expected: usize, results: &[bool]) -> (r: Result<(), TlsError>)
    ensures
        r is Ok <==> results@.len() == expected && forall|i: int|
            0 <= i < results@.len() ==> #[trigger] results@[i],
        r matches Err(e) ==> e is Certificate,
{
    if results.len() != expected {
        return Err(TlsError::certificate("Signature results are missing"));
    }
    let mut i: usize = 0;
    while i < results.len()
        invariant
            i <= results@.len(),
            forall|k: int| 0 <= k < i ==> #[trigger] results@[k],
        decreases results@.len() - i,
    {
        if !results[i] {
            return Err(TlsError::certificate("Invalid signature"));
        }
        i += 1;
    }
    Ok(())
}

/// Whether a key with the algorithm identifier `key_algorithm` can have
/// made a handshake signature of scheme `scheme`: ECDSA schemes go with
/// elliptic-curve keys, RSA-PSS schemes with RSA keys.
pub open spec fn scheme_fits(scheme: u16, key_algorithm: Seq<u8>) -> bool {
    if scheme == 0x0403 || scheme == 0x0503 {
        key_algorithm == seq![0x2au8, 0x86u8, 0x48u8, 0xceu8, 0x3du8, 0x02u8, 0x01u8]
    } else if scheme == 0x0804 || scheme == 0x0805 {
        key_algorithm == seq![
            0x2au8,
            0x86u8,
            0x48u8,
            0x86u8,
            0xf7u8,
            0x0du8,
            0x01u8,
            0x01u8,
            0x01u8,
        ]
    } else {
        false
    }
}

/// The check of the signature in a CertificateVerify message: `signature`
/// of scheme `scheme`, over the transcript hash in the form a server
/// signs it, made with the key of the leaf certificate. A scheme that the
/// leaf's key cannot have made is a `Handshake` error.
pub fn handshake_signature(
    leaf: &Certificate,
    scheme: u16,
    signature: &[u8],
    transcript_hash: &[u8],
) -> (r: Result<SignatureCheck, TlsError>)
    ensures
        r is Ok <==> scheme_fits(scheme, leaf@.key_algorithm),
        r matches Ok(check) ==> {
            &&& check.signed@ == certificate_verify_content(transcript_hash@)
            &&& check.signature@ == signature@
            &&& check.algorithm matches SignatureAlgorithm::Scheme(s) && s == scheme
            &&& check.key@ == leaf@.spki
        },
        r matches Err(e) ==> e is Handshake,
{
    let ec: [u8; 7] = [0x2a, 0x86, 0x48, 0xce, 0x3d, 0x02, 0x01];
    let rsa: [u8; 9] = [0x2a, 0x86, 0x48, 0x86, 0xf7, 0x0d, 0x01, 0x01, 0x01];
    let fits = if scheme == 0x0403 || scheme == 0x0503 {
        bytes_equal(leaf.key_algorithm.as_slice(), vstd::array::array_as_slice(&ec))
    } else if scheme == 0x0804 || scheme == 0x0805 {
        bytes_equal(leaf.key_algorithm.as_slice(), vstd::array::array_as_slice(&rsa))
    } else {
        false
    };
    if !fits {
        return Err(TlsError::handshake("Signature scheme does not fit the certificate"));
    }
    Ok(
        SignatureCheck {
            signed: certificate_verify_input(transcript_hash),
            signature: slice_to_vec(signature),
            algorithm: SignatureAlgorithm::Scheme(scheme),
            key: slice_to_vec(leaf.spki.as_slice()),
        },
    )
}

} // verus!
