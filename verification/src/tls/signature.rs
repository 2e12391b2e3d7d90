//! What a signature check needs to know before it can be handed to a
//! provider: the family and hash of the algorithm, the curve of the key,
//! and an ECDSA signature in the fixed-width form.

use vstd::prelude::*;
use crate::tls::cert::{read_tagged, tagged};
use crate::tls::codec::bytes_equal;
use crate::tls::prf::HashAlgorithm;
use crate::tls::trust_store::SignatureAlgorithm;

verus! {

/// The kind of a signature algorithm.
#[derive(Clone, Copy, Debug, PartialEq, Eq, Structural)]
pub enum SignatureFamily {
    /// RSA with the padding of PKCS#1 version 1.5.
    RsaPkcs1,
    /// RSA with probabilistic padding, the salt as long as the hash.
    RsaPss,
    /// ECDSA.
    Ecdsa,
}

/// A signature algorithm taken apart.
#[derive(Clone, Copy, Debug, PartialEq, Eq, Structural)]
pub struct SignatureParameters {
    pub family: SignatureFamily,
    pub hash: HashAlgorithm,
}

/// An elliptic curve.
#[derive(Clone, Copy, Debug, PartialEq, Eq, Structural)]
pub enum Curve {
    P256,
    P384,
}

/// The object identifier of RSA signatures with PKCS#1 padding whose last
/// byte is `last`: `1.2.840.113549.1.1.last`.
pub open spec fn rsa_oid(last: u8) -> Seq<u8> {
    seq![0x2au8, 0x86u8, 0x48u8, 0x86u8, 0xf7u8, 0x0du8, 0x01u8, 0x01u8, last]
}

/// The object identifier of ECDSA signatures whose last byte is `last`:
/// `1.2.840.10045.4.3.last`.
pub open spec fn ecdsa_oid(last: u8) -> Seq<u8> {
    seq![0x2au8, 0x86u8, 0x48u8, 0xceu8, 0x3du8, 0x04u8, 0x03u8, last]
}

/// The family and hash of the signature algorithm of a certificate, by
/// its object identifier: RSA or ECDSA, with SHA-256 or SHA-384. Every
/// other algorithm is unknown.
pub open spec fn oid_parameters(oid: Seq<u8>) -> Option<SignatureParameters> {
    if oid == rsa_oid(11) {
        Some(
            SignatureParameters { family: SignatureFamily::RsaPkcs1, hash: HashAlgorithm::Sha256 },
        )
    } else if oid == rsa_oid(12) {
        Some(
            SignatureParameters { family: SignatureFamily::RsaPkcs1, hash: HashAlgorithm::Sha384 },
        )
    } else if oid == ecdsa_oid(2) {
        Some(SignatureParameters { family: SignatureFamily::Ecdsa, hash: HashAlgorithm::Sha256 })
    } else if oid == ecdsa_oid(3) {
        Some(SignatureParameters { family: SignatureFamily::Ecdsa, hash: HashAlgorithm::Sha384 })
    } else {
        None
    }
}

/// The family and hash of a handshake signature scheme: RSA with either
/// padding or ECDSA, with SHA-256 or SHA-384. Every other scheme is
/// unknown.
pub open spec fn scheme_parameters(scheme: u16) -> Option<SignatureParameters> {
    if scheme == 0x0401 {
        Some(
            SignatureParameters { family: SignatureFamily::RsaPkcs1, hash: HashAlgorithm::Sha256 },
        )
    } else if scheme == 0x0501 {
        Some(
            SignatureParameters { family: SignatureFamily::RsaPkcs1, hash: HashAlgorithm::Sha384 },
        )
    } else if scheme == 0x0403 {
        Some(SignatureParameters { family: SignatureFamily::Ecdsa, hash: HashAlgorithm::Sha256 })
    } else if scheme == 0x0503 {
        Some(SignatureParameters { family: SignatureFamily::Ecdsa, hash: HashAlgorithm::Sha384 })
    } else if scheme == 0x0804 {
        Some(SignatureParameters { family: SignatureFamily::RsaPss, hash: HashAlgorithm::Sha256 })
    } else if scheme == 0x0805 {
        Some(SignatureParameters { family: SignatureFamily::RsaPss, hash: HashAlgorithm::Sha384 })
    } else {
        None
    }
}

/// Takes a signature algorithm apart, or says that it is unknown.
pub fn parameters_of(algorithm: &SignatureAlgorithm) -> (r: Option<SignatureParameters>)
    ensures
        r == match *algorithm {
            SignatureAlgorithm::Oid(oid) => oid_parameters(oid@),
            SignatureAlgorithm::Scheme(scheme) => scheme_parameters(scheme),
        },
{
    match algorithm {
        SignatureAlgorithm::Oid(oid) => {
            let rsa256: [u8; 9] = [0x2a, 0x86, 0x48, 0x86, 0xf7, 0x0d, 0x01, 0x01, 11];
            let rsa384: [u8; 9] = [0x2a, 0x86, 0x48, 0x86, 0xf7, 0x0d, 0x01, 0x01, 12];
            let ec256: [u8; 8] = [0x2a, 0x86, 0x48, 0xce, 0x3d, 0x04, 0x03, 2];
            let ec384: [u8; 8] = [0x2a, 0x86, 0x48, 0xce, 0x3d, 0x04, 0x03, 3];
            if bytes_equal(oid.as_slice(), vstd::array::array_as_slice(&rsa256)) {
                Some(
                    SignatureParameters {
                        family: SignatureFamily::RsaPkcs1,
                        hash: HashAlgorithm::Sha256,
                    },
                )
            } else if bytes_equal(oid.as_slice(), vstd::array::array_as_slice(&rsa384)) {
                Some(
                    SignatureParameters {
                        family: SignatureFamily::RsaPkcs1,
                        hash: HashAlgorithm::Sha384,
                    },
                )
            } else if bytes_equal(oid.as_slice(), vstd::array::array_as_slice(&ec256)) {
                Some(
                    SignatureParameters {
                        family: SignatureFamily::Ecdsa,
                        hash: HashAlgorithm::Sha256,
                    },
                )
            } else if bytes_equal(oid.as_slice(), vstd::array::array_as_slice(&ec384)) {
                Some(
                    SignatureParameters {
                        family: SignatureFamily::Ecdsa,
                        hash: HashAlgorithm::Sha384,
                    },
                )
            } else {
                None
            }
        },
        SignatureAlgorithm::Scheme(scheme) => {
            if *scheme == 0x0401 {
                Some(
                    SignatureParameters {
                        family: SignatureFamily::RsaPkcs1,
                        hash: HashAlgorithm::Sha256,
                    },
                )
            } else if *scheme == 0x0501 {
                Some(
                    SignatureParameters {
                        family: SignatureFamily::RsaPkcs1,
                        hash: HashAlgorithm::Sha384,
                    },
                )
            } else if *scheme == 0x0403 {
                Some(
                    SignatureParameters {
                        family: SignatureFamily::Ecdsa,
                        hash: HashAlgorithm::Sha256,
                    },
                )
            } else if *scheme == 0x0503 {
                Some(
                    SignatureParameters {
                        family: SignatureFamily::Ecdsa,
                        hash: HashAlgorithm::Sha384,
                    },
                )
            } else if *scheme == 0x0804 {
                Some(
                    SignatureParameters {
                        family: SignatureFamily::RsaPss,
                        hash: HashAlgorithm::Sha256,
                    },
                )
            } else if *scheme == 0x0805 {
                Some(
                    SignatureParameters {
                        family: SignatureFamily::RsaPss,
                        hash: HashAlgorithm::Sha384,
                    },
                )
            } else {
                None
            }
        },
    }
}

/// The object identifier of the curve P-256, `1.2.840.10045.3.1.7`.
pub open spec fn p256_oid() -> Seq<u8> {
    seq![0x2au8, 0x86u8, 0x48u8, 0xceu8, 0x3du8, 0x03u8, 0x01u8, 0x07u8]
}

/// The object identifier of the curve P-384, `1.3.132.0.34`.
pub open spec fn p384_oid() -> Seq<u8> {
    seq![0x2bu8, 0x81u8, 0x04u8, 0x00u8, 0x22u8]
}

/// The curve that the SubjectPublicKeyInfo `spki` names in the parameters
/// of its algorithm: the second element of the algorithm identifier, if
/// it is the object identifier of P-256 or of P-384.
pub open spec fn named_curve(spki: Seq<u8>) -> Option<Curve> {
    let outer = tagged(spki, 0, spki.len() as int, 0x30);
    let algorithm = tagged(spki, outer.unwrap().0, outer.unwrap().1, 0x30);
    let kind = tagged(spki, algorithm.unwrap().0, algorithm.unwrap().1, 0x06);
    let curve = tagged(spki, kind.unwrap().1, algorithm.unwrap().1, 0x06);
    if outer is None || algorithm is None || kind is None || curve is None {
        None
    } else if spki.subrange(curve.unwrap().0, curve.unwrap().1) == p256_oid() {
        Some(Curve::P256)
    } else if spki.subrange(curve.unwrap().0, curve.unwrap().1) == p384_oid() {
        Some(Curve::P384)
    } else {
        None
    }
}

/// Reads the curve out of a SubjectPublicKeyInfo.
pub fn curve_of(spki: &[u8]) -> (r: Option<Curve>)
    ensures
        r == named_curve(spki@),
{
    let (outer_start, outer_end) = read_tagged(spki, 0, spki.len(), 0x30)?;
    let (alg_start, alg_end) = read_tagged(spki, outer_start, outer_end, 0x30)?;
    let (_, kind_end) = read_tagged(spki, alg_start, alg_end, 0x06)?;
    let (curve_start, curve_end) = read_tagged(spki, kind_end, alg_end, 0x06)?;
    let p256: [u8; 8] = [0x2a, 0x86, 0x48, 0xce, 0x3d, 0x03, 0x01, 0x07];
    let p384: [u8; 5] = [0x2b, 0x81, 0x04, 0x00, 0x22];
    let curve = vstd::slice::slice_subrange(spki, curve_start, curve_end);
    if bytes_equal(curve, vstd::array::array_as_slice(&p256)) {
        Some(Curve::P256)
    } else if bytes_equal(curve, vstd::array::array_as_slice(&p384)) {
        Some(Curve::P384)
    } else {
        None
    }
}

/// The number of leading zero bytes of `b`.
pub open spec fn leading_zeros(b: Seq<u8>) -> int
    decreases b.len(),
{
    if b.len() == 0 || b[0] != 0 {
        0
    } else {
        1 + leading_zeros(b.skip(1))
    }
}

/// The integer `content`, which is the content of a DER integer, as
/// exactly `size` bytes: without its leading zeros, and with zeros in
/// front up to the size. `None` if the integer is empty or negative, or
/// does not fit.
pub open spec fn fixed_width(content: Seq<u8>, size: int) -> Option<Seq<u8>> {
    if content.len() == 0 || content[0] >= 0x80 || content.len() - leading_zeros(content) > size {
        None
    } else {
        Some(
            Seq::new((size - (content.len() - leading_zeros(content))) as nat, |i: int| 0u8)
                + content.skip(leading_zeros(content)),
        )
    }
}

/// An ECDSA signature in the fixed-width form: the two integers of the
/// DER sequence `der`, each as `size` bytes, one after the other. `None`
/// if `der` is not a sequence of exactly two integers that fit.
pub open spec fn raw_signature(der: Seq<u8>, size: int) -> Option<Seq<u8>> {
    let outer = tagged(der, 0, der.len() as int, 0x30);
    let r = tagged(der, outer.unwrap().0, outer.unwrap().1, 0x02);
    let s = tagged(der, r.unwrap().1, outer.unwrap().1, 0x02);
    if outer is None || outer.unwrap().1 != der.len() || r is None || s is None || s.unwrap().1
        != outer.unwrap().1 {
        None
    } else {
        match (
            fixed_width(der.subrange(r.unwrap().0, r.unwrap().1), size),
            fixed_width(der.subrange(s.unwrap().0, s.unwrap().1), size),
        ) {
            (Some(first), Some(second)) => Some(first + second),
            _ => None,
        }
    }
}

/// Appends the integer in `der[from..to]` as `size` bytes.
fn push_fixed_width(out: &mut Vec<u8>, der: &[u8], from: usize, to: usize, size: usize) -> (ok: bool)
    requires
        from <= to <= der@.len(),
    ensures
        ok == fixed_width(der@.subrange(from as int, to as int), size as int) is Some,
        ok ==> final(out)@ == old(out)@ + fixed_width(
            der@.subrange(from as int, to as int),
            size as int,
        ).unwrap(),
        !ok ==> final(out)@ == old(out)@,
{
    let ghost content = der@.subrange(from as int, to as int);
    if from == to || der[from] >= 0x80 {
        return false;
    }
    let mut start = from;
    assert(content.skip(0) =~= content);
    while start < to && der[start] == 0
        invariant
            from <= start <= to <= der@.len(),
            content == der@.subrange(from as int, to as int),
            leading_zeros(content) == (start - from) + leading_zeros(
                content.skip(start - from),
            ),
        decreases to - start,
    {
        assert(content.skip(start - from).skip(1) =~= content.skip(start - from + 1));
        start += 1;
    }
    assert(leading_zeros(content) == start - from);
    let len = to - start;
    if len > size {
        return false;
    }
    let mut i: usize = 0;
    while i < size - len
        invariant
            i <= size - len,
            len <= size,
            out@ == old(out)@ + Seq::new(i as nat, |k: int| 0u8),
        decreases size - len - i,
    {
        out.push(0);
        i += 1;
    }
    crate::tls::codec::push_all(out, vstd::slice::slice_subrange(der, start, to));
    true
}

/// Turns an ECDSA signature from the DER form of certificates and
/// handshake messages into the fixed-width form, with `size` bytes for
/// each of its two integers.
pub fn ecdsa_raw_signature(der: &[u8], size: usize) -> (r: Option<Vec<u8>>)
    ensures
        r is Some <==> raw_signature(der@, size as int) is Some,
        r matches Some(raw) ==> Some(raw@) == raw_signature(der@, size as int),
{
    let (outer_start, outer_end) = read_tagged(der, 0, der.len(), 0x30)?;
    if outer_end != der.len() {
        return None;
    }
    let (r_start, r_end) = read_tagged(der, outer_start, outer_end, 0x02)?;
    let (s_start, s_end) = read_tagged(der, r_end, outer_end, 0x02)?;
    if s_end != outer_end {
        return None;
    }
    let mut raw: Vec<u8> = Vec::new();
    if !push_fixed_width(&mut raw, der, r_start, r_end, size) {
        return None;
    }
    if !push_fixed_width(&mut raw, der, s_start, s_end, size) {
        return None;
    }
    Some(raw)
}

/// How many bytes each integer of an ECDSA signature takes on `curve`.
pub fn curve_size(curve: Curve) -> (size: usize)
    ensures
        size == match curve {
            Curve::P256 => 32int,
            Curve::P384 => 48int,
        },
{
    match curve {
        Curve::P256 => 32,
        Curve::P384 => 48,
    }
}

} // verus!
