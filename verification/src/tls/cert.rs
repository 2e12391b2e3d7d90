//! X.509 certificates as they come off the wire: the DER layout of a
//! certificate and the fields the handshake and the trust decision read.

use vstd::prelude::*;
use crate::tls::codec::{be16, be24, copy_range, read_u16, read_u24};

verus! {

pub const TAG_INTEGER: u8 = 0x02;

pub const TAG_BIT_STRING: u8 = 0x03;

pub const TAG_OCTET_STRING: u8 = 0x04;

pub const TAG_OID: u8 = 0x06;

pub const TAG_UTC_TIME: u8 = 0x17;

pub const TAG_GENERALIZED_TIME: u8 = 0x18;

pub const TAG_SEQUENCE: u8 = 0x30;

/// The DER element that starts at `pos` and ends at or before `limit`: its
/// tag, where its content starts and where it ends. Lengths are in definite
/// form, minimally encoded, and below 2^24; tags are single bytes.
#[verifier::opaque]
pub open spec fn tlv_at(b: Seq<u8>, pos: int, limit: int) -> Option<(u8, int, int)> {
    if pos < 0 || limit > b.len() || limit - pos < 2 {
        None
    } else if b[pos] % 32 == 31 {
        None
    } else if b[pos + 1] < 128 {
        if limit - pos - 2 < b[pos + 1] {
            None
        } else {
            Some((b[pos], pos + 2, pos + 2 + b[pos + 1]))
        }
    } else if b[pos + 1] == 129 {
        if limit - pos < 3 || b[pos + 2] < 128 || limit - pos - 3 < b[pos + 2] {
            None
        } else {
            Some((b[pos], pos + 3, pos + 3 + b[pos + 2]))
        }
    } else if b[pos + 1] == 130 {
        if limit - pos < 4 || be16(b, pos + 2) < 256 || limit - pos - 4 < be16(b, pos + 2) {
            None
        } else {
            Some((b[pos], pos + 4, pos + 4 + be16(b, pos + 2)))
        }
    } else if b[pos + 1] == 131 {
        if limit - pos < 5 || be24(b, pos + 2) < 65536 || limit - pos - 5 < be24(b, pos + 2) {
            None
        } else {
            Some((b[pos], pos + 5, pos + 5 + be24(b, pos + 2)))
        }
    } else {
        None
    }
}

/// The content span of the element at `pos`, provided its tag is `tag`.
pub open spec fn tagged(b: Seq<u8>, pos: int, limit: int, tag: u8) -> Option<(int, int)> {
    match tlv_at(b, pos, limit) {
        Some((t, start, end)) => if t == tag {
            Some((start, end))
        } else {
            None
        },
        None => None,
    }
}

/// Where the element at `pos` ends if it is there and carries `tag`, and
/// `pos` itself otherwise: the position after an optional element.
pub open spec fn after_optional(b: Seq<u8>, pos: int, limit: int, tag: u8) -> int {
    match tagged(b, pos, limit, tag) {
        Some((_, end)) => end,
        None => pos,
    }
}

/// One DER element: its tag and the span of its content.
#[derive(Clone, Copy, Debug)]
pub struct Tlv {
    pub tag: u8,
    pub start: usize,
    pub end: usize,
}

/// Reads the DER element at `pos`, which must end at or before `limit`.
pub fn read_tlv(data: &[u8], pos: usize, limit: usize) -> (r: Option<Tlv>)
    ensures
        r is Some <==> tlv_at(data@, pos as int, limit as int) is Some,
        r matches Some(t) ==> {
            &&& tlv_at(data@, pos as int, limit as int) == Some(
                (t.tag, t.start as int, t.end as int),
            )
            &&& pos + 2 <= t.start <= t.end <= limit <= data@.len()
        },
{
    reveal(tlv_at);
    if limit > data.len() || limit < pos || limit - pos < 2 {
        return None;
    }
    let tag = data[pos];
    if tag % 32 == 31 {
        return None;
    }
    let first = data[pos + 1];
    let room = limit - pos;
    if first < 128 {
        if room - 2 < first as usize {
            return None;
        }
        Some(Tlv { tag, start: pos + 2, end: pos + 2 + first as usize })
    } else if first == 129 {
        if room < 3 {
            return None;
        }
        let len = data[pos + 2] as usize;
        if len < 128 || room - 3 < len {
            return None;
        }
        Some(Tlv { tag, start: pos + 3, end: pos + 3 + len })
    } else if first == 130 {
        if room < 4 {
            return None;
        }
        let len = read_u16(data, pos + 2) as usize;
        if len < 256 || room - 4 < len {
            return None;
        }
        Some(Tlv { tag, start: pos + 4, end: pos + 4 + len })
    } else if first == 131 {
        if room < 5 {
            return None;
        }
        let len = read_u24(data, pos + 2) as usize;
        if len < 65536 || room - 5 < len {
            return None;
        }
        Some(Tlv { tag, start: pos + 5, end: pos + 5 + len })
    } else {
        None
    }
}

/// Reads the element at `pos` and insists on its tag.
pub fn read_tagged(data: &[u8], pos: usize, limit: usize, tag: u8) -> (r: Option<(usize, usize)>)
    ensures
        r is Some <==> tagged(data@, pos as int, limit as int, tag) is Some,
        r matches Some((start, end)) ==> {
            &&& tagged(data@, pos as int, limit as int, tag) == Some((start as int, end as int))
            &&& pos + 2 <= start <= end <= limit <= data@.len()
        },
{
    match read_tlv(data, pos, limit) {
        Some(t) => if t.tag == tag {
            Some((t.start, t.end))
        } else {
            None
        },
        None => None,
    }
}

/// Steps over the element at `pos` if it is there and carries `tag`.
pub fn skip_optional(data: &[u8], pos: usize, limit: usize, tag: u8) -> (next: usize)
    requires
        pos <= limit <= data@.len(),
    ensures
        next == after_optional(data@, pos as int, limit as int, tag),
        pos <= next <= limit,
{
    match read_tagged(data, pos, limit, tag) {
        Some((_, end)) => end,
        None => pos,
    }
}

/// The number that two ASCII digits at `at` spell.
pub open spec fn two_digits(t: Seq<u8>, at: int) -> int {
    (t[at] - 48) * 10 + (t[at + 1] - 48)
}

/// Whether every byte of `t[from..to]` is an ASCII digit.
pub open spec fn all_digits(t: Seq<u8>, from: int, to: int) -> bool {
    forall|i: int| from <= i < to ==> 48 <= #[trigger] t[i] <= 57
}

/// A point in time as the decimal number `YYYYMMDDhhmmss`, if the parts are
/// in range. Numbers of this form compare as the times they stand for.
pub open spec fn stamp(year: int, month: int, day: int, hour: int, minute: int, second: int)
    -> Option<int> {
    if 1 <= month <= 12 && 1 <= day <= 31 && hour <= 23 && minute <= 59 && second <= 59 {
        Some(((((year * 100 + month) * 100 + day) * 100 + hour) * 100 + minute) * 100 + second)
    } else {
        None
    }
}

/// The time that a UTCTime (`YYMMDDhhmmssZ`, years 1950 to 2049) or a
/// GeneralizedTime (`YYYYMMDDhhmmssZ`) spells.
#[verifier::opaque]
pub open spec fn time_value(tag: u8, t: Seq<u8>) -> Option<int> {
    if tag == 0x17 {
        if t.len() != 13 || !all_digits(t, 0, 12) || t[12] != 90 {
            None
        } else {
            stamp(
                if two_digits(t, 0) >= 50 {
                    1900 + two_digits(t, 0)
                } else {
                    2000 + two_digits(t, 0)
                },
                two_digits(t, 2),
                two_digits(t, 4),
                two_digits(t, 6),
                two_digits(t, 8),
                two_digits(t, 10),
            )
        }
    } else if tag == 0x18 {
        if t.len() != 15 || !all_digits(t, 0, 14) || t[14] != 90 {
            None
        } else {
            stamp(
                two_digits(t, 0) * 100 + two_digits(t, 2),
                two_digits(t, 4),
                two_digits(t, 6),
                two_digits(t, 8),
                two_digits(t, 10),
                two_digits(t, 12),
            )
        }
    } else {
        None
    }
}

/// Whether `t[from..to]` holds only ASCII digits.
fn digits_only(t: &[u8], from: usize, to: usize) -> (ok: bool)
    requires
        from <= to <= t@.len(),
    ensures
        ok == all_digits(t@, from as int, to as int),
{
    let mut i: usize = from;
    while i < to
        invariant
            from <= i <= to <= t@.len(),
            all_digits(t@, from as int, i as int),
        decreases to - i,
    {
        if t[i] < 48 || t[i] > 57 {
            return false;
        }
        i += 1;
    }
    true
}

/// Reads two ASCII digits.
fn read_two(t: &[u8], at: usize) -> (v: u64)
    requires
        at + 2 <= t@.len(),
        48 <= t@[at as int] <= 57,
        48 <= t@[at + 1] <= 57,
    ensures
        v == two_digits(t@, at as int),
        v <= 99,
{
    ((t[at] - 48) as u64) * 10 + ((t[at + 1] - 48) as u64)
}

/// Puts the parts of a time together.
fn make_stamp(year: u64, month: u64, day: u64, hour: u64, minute: u64, second: u64) -> (r: Option<
    u64,
>)
    requires
        year <= 9999,
        month <= 99,
        day <= 99,
        hour <= 99,
        minute <= 99,
        second <= 99,
    ensures
        r is Some <==> stamp(
            year as int,
            month as int,
            day as int,
            hour as int,
            minute as int,
            second as int,
        ) is Some,
        r matches Some(v) ==> Some(v as int) == stamp(
            year as int,
            month as int,
            day as int,
            hour as int,
            minute as int,
            second as int,
        ),
{
    if 1 <= month && month <= 12 && 1 <= day && day <= 31 && hour <= 23 && minute <= 59 && second
        <= 59 {
        Some(((((year * 100 + month) * 100 + day) * 100 + hour) * 100 + minute) * 100 + second)
    } else {
        None
    }
}

/// Reads a UTCTime or GeneralizedTime.
pub fn parse_time(tag: u8, t: &[u8]) -> (r: Option<u64>)
    ensures
        r is Some <==> time_value(tag, t@) is Some,
        r matches Some(v) ==> Some(v as int) == time_value(tag, t@),
{
    reveal(time_value);
    if tag == TAG_UTC_TIME {
        if t.len() != 13 || !digits_only(t, 0, 12) || t[12] != 90 {
            return None;
        }
        let yy = read_two(t, 0);
        let year = if yy >= 50 {
            1900 + yy
        } else {
            2000 + yy
        };
        make_stamp(
            year,
            read_two(t, 2),
            read_two(t, 4),
            read_two(t, 6),
            read_two(t, 8),
            read_two(t, 10),
        )
    } else if tag == TAG_GENERALIZED_TIME {
        if t.len() != 15 || !digits_only(t, 0, 14) || t[14] != 90 {
            return None;
        }
        make_stamp(
            read_two(t, 0) * 100 + read_two(t, 2),
            read_two(t, 4),
            read_two(t, 6),
            read_two(t, 8),
            read_two(t, 10),
            read_two(t, 12),
        )
    } else {
        None
    }
}

/// Where the parts of a certificate lie in its DER encoding. Each part is
/// found from the ones before it; a part is `None` when the bytes at its
/// place are not the element expected there.
pub ghost struct Layout {
    /// `Certificate ::= SEQUENCE { tbsCertificate, signatureAlgorithm, signatureValue }`
    pub outer: Option<(int, int)>,
    pub tbs: Option<(int, int)>,
    pub sig_alg: Option<(int, int)>,
    pub sig_oid: Option<(int, int)>,
    pub sig_val: Option<(int, int)>,
    /// Inside `tbsCertificate`, after the optional `[0]` version.
    pub after_version: int,
    pub serial: Option<(int, int)>,
    pub inner_alg: Option<(int, int)>,
    pub issuer: Option<(int, int)>,
    pub validity: Option<(int, int)>,
    pub not_before: Option<(u8, int, int)>,
    pub not_after: Option<(u8, int, int)>,
    pub subject: Option<(int, int)>,
    pub spki: Option<(int, int)>,
    pub key_alg: Option<(int, int)>,
    pub key_oid: Option<(int, int)>,
    pub key_bits: Option<(int, int)>,
    /// After the optional `[1]` and `[2]` unique identifiers.
    pub after_ids: int,
    pub extensions: Option<(int, int)>,
}

/// The layout of `b` read as a certificate.
pub open spec fn layout(b: Seq<u8>) -> Layout {
    let outer = tagged(b, 0, b.len() as int, 0x30);
    let tbs = tagged(b, outer.unwrap().0, outer.unwrap().1, 0x30);
    let sig_alg = tagged(b, tbs.unwrap().1, outer.unwrap().1, 0x30);
    let sig_oid = tagged(b, sig_alg.unwrap().0, sig_alg.unwrap().1, 0x06);
    let sig_val = tagged(b, sig_alg.unwrap().1, outer.unwrap().1, 0x03);
    let after_version = after_optional(b, tbs.unwrap().0, tbs.unwrap().1, 0xa0);
    let serial = tagged(b, after_version, tbs.unwrap().1, 0x02);
    let inner_alg = tagged(b, serial.unwrap().1, tbs.unwrap().1, 0x30);
    let issuer = tagged(b, inner_alg.unwrap().1, tbs.unwrap().1, 0x30);
    let validity = tagged(b, issuer.unwrap().1, tbs.unwrap().1, 0x30);
    let not_before = tlv_at(b, validity.unwrap().0, validity.unwrap().1);
    let not_after = tlv_at(b, not_before.unwrap().2, validity.unwrap().1);
    let subject = tagged(b, validity.unwrap().1, tbs.unwrap().1, 0x30);
    let spki = tagged(b, subject.unwrap().1, tbs.unwrap().1, 0x30);
    let key_alg = tagged(b, spki.unwrap().0, spki.unwrap().1, 0x30);
    let key_oid = tagged(b, key_alg.unwrap().0, key_alg.unwrap().1, 0x06);
    let key_bits = tagged(b, key_alg.unwrap().1, spki.unwrap().1, 0x03);
    let after_ids = after_optional(
        b,
        after_optional(b, spki.unwrap().1, tbs.unwrap().1, 0x81),
        tbs.unwrap().1,
        0x82,
    );
    let extensions = tagged(b, after_ids, tbs.unwrap().1, 0xa3);
    Layout {
        outer,
        tbs,
        sig_alg,
        sig_oid,
        sig_val,
        after_version,
        serial,
        inner_alg,
        issuer,
        validity,
        not_before,
        not_after,
        subject,
        spki,
        key_alg,
        key_oid,
        key_bits,
        after_ids,
        extensions,
    }
}

/// Whether `b` is one well-formed certificate and nothing else: every part
/// is where it belongs, the bit strings have no unused bits, the validity
/// holds two readable times, and nothing follows the last part of a
/// sequence.
pub open spec fn is_certificate(b: Seq<u8>) -> bool {
    let l = layout(b);
    &&& l.outer is Some
    &&& l.outer.unwrap().1 == b.len()
    &&& l.tbs is Some
    &&& l.sig_alg is Some
    &&& l.sig_oid is Some
    &&& l.sig_val is Some
    &&& l.sig_val.unwrap().1 == l.outer.unwrap().1
    &&& l.sig_val.unwrap().0 < l.sig_val.unwrap().1
    &&& b[l.sig_val.unwrap().0] == 0
    &&& l.serial is Some
    &&& l.inner_alg is Some
    &&& l.issuer is Some
    &&& l.validity is Some
    &&& l.not_before is Some
    &&& l.not_after is Some
    &&& l.not_after.unwrap().2 == l.validity.unwrap().1
    &&& time_value(
        l.not_before.unwrap().0,
        b.subrange(l.not_before.unwrap().1, l.not_before.unwrap().2),
    ) is Some
    &&& time_value(
        l.not_after.unwrap().0,
        b.subrange(l.not_after.unwrap().1, l.not_after.unwrap().2),
    ) is Some
    &&& l.subject is Some
    &&& l.spki is Some
    &&& l.key_alg is Some
    &&& l.key_oid is Some
    &&& l.key_bits is Some
    &&& l.key_bits.unwrap().1 == l.spki.unwrap().1
    &&& l.key_bits.unwrap().0 < l.key_bits.unwrap().1
    &&& b[l.key_bits.unwrap().0] == 0
    &&& (l.after_ids == l.tbs.unwrap().1 || (l.extensions is Some && l.extensions.unwrap().1
        == l.tbs.unwrap().1))
}

/// A certificate taken apart.
#[derive(Debug)]
pub struct Certificate {
    /// The certificate as it was received.
    pub raw: Vec<u8>,
    /// The encoding of `tbsCertificate`, the bytes the issuer signed.
    pub tbs: Vec<u8>,
    /// The encoding of the issuer's name.
    pub issuer: Vec<u8>,
    /// The encoding of the subject's name.
    pub subject: Vec<u8>,
    /// Start of validity as `YYYYMMDDhhmmss`.
    pub not_before: u64,
    /// End of validity as `YYYYMMDDhhmmss`.
    pub not_after: u64,
    /// The encoding of `subjectPublicKeyInfo`.
    pub spki: Vec<u8>,
    /// The object identifier of the subject key's algorithm.
    pub key_algorithm: Vec<u8>,
    /// The subject's public key.
    pub public_key: Vec<u8>,
    /// The content of the `[3]` extensions field; empty if there is none.
    pub extensions: Vec<u8>,
    /// The object identifier of the algorithm the issuer signed with.
    pub signature_algorithm: Vec<u8>,
    /// The issuer's signature over `tbs`.
    pub signature: Vec<u8>,
}

/// The model of `Certificate` in contracts.
pub ghost struct CertificateView {
    pub raw: Seq<u8>,
    pub tbs: Seq<u8>,
    pub issuer: Seq<u8>,
    pub subject: Seq<u8>,
    pub not_before: int,
    pub not_after: int,
    pub spki: Seq<u8>,
    pub key_algorithm: Seq<u8>,
    pub public_key: Seq<u8>,
    pub extensions: Seq<u8>,
    pub signature_algorithm: Seq<u8>,
    pub signature: Seq<u8>,
}

impl View for Certificate {
    type V = CertificateView;

    open spec fn view(&self) -> CertificateView {
        CertificateView {
            raw: self.raw@,
            tbs: self.tbs@,
            issuer: self.issuer@,
            subject: self.subject@,
            not_before: self.not_before as int,
            not_after: self.not_after as int,
            spki: self.spki@,
            key_algorithm: self.key_algorithm@,
            public_key: self.public_key@,
            extensions: self.extensions@,
            signature_algorithm: self.signature_algorithm@,
            signature: self.signature@,
        }
    }
}

/// The fields of the well-formed certificate `b`.
pub open spec fn certificate_fields(b: Seq<u8>) -> CertificateView {
    let l = layout(b);
    CertificateView {
        raw: b,
        tbs: b.subrange(l.outer.unwrap().0, l.tbs.unwrap().1),
        issuer: b.subrange(l.inner_alg.unwrap().1, l.issuer.unwrap().1),
        subject: b.subrange(l.validity.unwrap().1, l.subject.unwrap().1),
        not_before: time_value(
            l.not_before.unwrap().0,
            b.subrange(l.not_before.unwrap().1, l.not_before.unwrap().2),
        ).unwrap(),
        not_after: time_value(
            l.not_after.unwrap().0,
            b.subrange(l.not_after.unwrap().1, l.not_after.unwrap().2),
        ).unwrap(),
        spki: b.subrange(l.subject.unwrap().1, l.spki.unwrap().1),
        key_algorithm: b.subrange(l.key_oid.unwrap().0, l.key_oid.unwrap().1),
        public_key: b.subrange(l.key_bits.unwrap().0 + 1, l.key_bits.unwrap().1),
        extensions: if l.after_ids == l.tbs.unwrap().1 {
            Seq::empty()
        } else {
            b.subrange(l.extensions.unwrap().0, l.extensions.unwrap().1)
        },
        signature_algorithm: b.subrange(l.sig_oid.unwrap().0, l.sig_oid.unwrap().1),
        signature: b.subrange(l.sig_val.unwrap().0 + 1, l.sig_val.unwrap().1),
    }
}

/// Takes one DER certificate apart, or says that it is not one.
pub fn parse_der(der: &[u8]) -> (r: Option<Certificate>)
    ensures
        r is Some <==> is_certificate(der@),
        r matches Some(c) ==> c@ == certificate_fields(der@),
{
    let (outer_start, outer_end) = read_tagged(der, 0, der.len(), TAG_SEQUENCE)?;
    if outer_end != der.len() {
        return None;
    }
    let (tbs_start, tbs_end) = read_tagged(der, outer_start, outer_end, TAG_SEQUENCE)?;
    let (alg_start, alg_end) = read_tagged(der, tbs_end, outer_end, TAG_SEQUENCE)?;
    let (oid_start, oid_end) = read_tagged(der, alg_start, alg_end, TAG_OID)?;
    let (sig_start, sig_end) = read_tagged(der, alg_end, outer_end, TAG_BIT_STRING)?;
    if sig_end != outer_end || sig_start >= sig_end || der[sig_start] != 0 {
        return None;
    }
    let after_version = skip_optional(der, tbs_start, tbs_end, 0xa0);
    let (_, serial_end) = read_tagged(der, after_version, tbs_end, TAG_INTEGER)?;
    let (_, inner_end) = read_tagged(der, serial_end, tbs_end, TAG_SEQUENCE)?;
    let (_, issuer_end) = read_tagged(der, inner_end, tbs_end, TAG_SEQUENCE)?;
    let (val_start, val_end) = read_tagged(der, issuer_end, tbs_end, TAG_SEQUENCE)?;
    let nb = read_tlv(der, val_start, val_end)?;
    let na = read_tlv(der, nb.end, val_end)?;
    if na.end != val_end {
        return None;
    }
    let not_before = parse_time(nb.tag, vstd::slice::slice_subrange(der, nb.start, nb.end))?;
    let not_after = parse_time(na.tag, vstd::slice::slice_subrange(der, na.start, na.end))?;
    let (_, subject_end) = read_tagged(der, val_end, tbs_end, TAG_SEQUENCE)?;
    let (spki_start, spki_end) = read_tagged(der, subject_end, tbs_end, TAG_SEQUENCE)?;
    let (ka_start, ka_end) = read_tagged(der, spki_start, spki_end, TAG_SEQUENCE)?;
    let (ko_start, ko_end) = read_tagged(der, ka_start, ka_end, TAG_OID)?;
    let (kb_start, kb_end) = read_tagged(der, ka_end, spki_end, TAG_BIT_STRING)?;
    if kb_end != spki_end || kb_start >= kb_end || der[kb_start] != 0 {
        return None;
    }
    let after_issuer_id = skip_optional(der, spki_end, tbs_end, 0x81);
    let after_ids = skip_optional(der, after_issuer_id, tbs_end, 0x82);
    let extensions = if after_ids == tbs_end {
        Vec::new()
    } else {
        let (ext_start, ext_end) = read_tagged(der, after_ids, tbs_end, 0xa3)?;
        if ext_end != tbs_end {
            return None;
        }
        copy_range(der, ext_start, ext_end)
    };
    let raw = vstd::slice::slice_to_vec(der);
    Some(
        Certificate {
            raw,
            tbs: copy_range(der, outer_start, tbs_end),
            issuer: copy_range(der, inner_end, issuer_end),
            subject: copy_range(der, val_end, subject_end),
            not_before,
            not_after,
            spki: copy_range(der, subject_end, spki_end),
            key_algorithm: copy_range(der, ko_start, ko_end),
            public_key: copy_range(der, kb_start + 1, kb_end),
            extensions,
            signature_algorithm: copy_range(der, oid_start, oid_end),
            signature: copy_range(der, sig_start + 1, sig_end),
        },
    )
}

/// The length of the first entry of a certificate list: a 24-bit length and
/// that many bytes of certificate, followed, where `with_extensions` is set,
/// by a 16-bit length and that many bytes of extensions. `None` if the list
/// ends before the entry does.
pub open spec fn entry_len(e: Seq<u8>, with_extensions: bool) -> Option<int> {
    if e.len() < 3 || e.len() - 3 < be24(e, 0) {
        None
    } else if !with_extensions {
        Some(3 + be24(e, 0))
    } else if e.len() - 3 - be24(e, 0) < 2 || e.len() - 5 - be24(e, 0) < be16(e, 3 + be24(e, 0)) {
        None
    } else {
        Some(5 + be24(e, 0) + be16(e, 3 + be24(e, 0)))
    }
}

/// The certificates of a certificate list, in order, or `None` if the list
/// is not a run of whole entries.
pub open spec fn chain_of(e: Seq<u8>, with_extensions: bool) -> Option<Seq<Seq<u8>>>
    decreases e.len(),
{
    if e.len() == 0 {
        Some(Seq::empty())
    } else {
        match entry_len(e, with_extensions) {
            None => None,
            Some(n) => match chain_of(e.skip(n), with_extensions) {
                None => None,
                Some(rest) => Some(seq![e.subrange(3, 3 + be24(e, 0))] + rest),
            },
        }
    }
}

/// Whether `chain` is a non-empty run of well-formed certificates.
pub open spec fn is_chain(chain: Seq<Seq<u8>>) -> bool {
    chain.len() >= 1 && forall|i: int| 0 <= i < chain.len() ==> is_certificate(#[trigger] chain[i])
}

/// Whether `certs` holds the fields of the certificates `chain`, one for
/// one.
pub open spec fn parsed_from(certs: Seq<Certificate>, chain: Seq<Seq<u8>>) -> bool {
    certs.len() == chain.len() && forall|i: int|
        0 <= i < certs.len() ==> (#[trigger] certs[i])@ == certificate_fields(chain[i])
}

/// What is known of a list once a prefix of it has been read.
spec fn chain_after(done: Seq<Seq<u8>>, rest: Option<Seq<Seq<u8>>>) -> Option<Seq<Seq<u8>>> {
    match rest {
        None => None,
        Some(r) => Some(done + r),
    }
}

/// Parses a certificate list, leaf first. It fails on a list that is
/// empty, is not a run of whole entries, or holds an entry that is not a
/// well-formed certificate.
pub fn parse_chain(list: &[u8], with_extensions: bool) -> (r: Option<Vec<Certificate>>)
    ensures
        r is Some <==> (chain_of(list@, with_extensions) is Some && is_chain(
            chain_of(list@, with_extensions).unwrap(),
        )),
        r matches Some(certs) ==> parsed_from(certs@, chain_of(list@, with_extensions).unwrap()),
{
    let mut certs: Vec<Certificate> = Vec::new();
    let ghost mut done: Seq<Seq<u8>> = Seq::empty();
    let mut pos: usize = 0;
    assert(list@.skip(0) =~= list@);
    while pos < list.len()
        invariant
            pos <= list@.len(),
            chain_of(list@, with_extensions) == chain_after(
                done,
                chain_of(list@.skip(pos as int), with_extensions),
            ),
            parsed_from(certs@, done),
            forall|i: int| 0 <= i < done.len() ==> is_certificate(#[trigger] done[i]),
        decreases list@.len() - pos,
    {
        let ghost rest = list@.skip(pos as int);
        if list.len() - pos < 3 {
            return None;
        }
        let cert_len = read_u24(list, pos) as usize;
        if list.len() - pos - 3 < cert_len {
            return None;
        }
        let cert_end = pos + 3 + cert_len;
        let mut next = cert_end;
        if with_extensions {
            if list.len() - cert_end < 2 {
                return None;
            }
            let ext_len = read_u16(list, cert_end) as usize;
            if list.len() - cert_end - 2 < ext_len {
                return None;
            }
            next = cert_end + 2 + ext_len;
        }
        let ghost der = rest.subrange(3, 3 + cert_len);
        assert(rest.skip(next - pos) =~= list@.skip(next as int));
        let slice = vstd::slice::slice_subrange(list, pos + 3, cert_end);
        assert(slice@ =~= der);
        proof {
            let tail = chain_of(list@.skip(next as int), with_extensions);
            if tail is Some {
                assert((done + (seq![der] + tail.unwrap()))[done.len() as int] == der);
            }
        }
        match parse_der(slice) {
            None => {
                return None;
            },
            Some(c) => {
                certs.push(c);
            },
        }
        proof {
            done = done.push(der);
        }
        pos = next;
    }
    if certs.len() == 0 {
        None
    } else {
        Some(certs)
    }
}

/// Parses the chain out of a TLS 1.3 Certificate message body: a request
/// context behind a one-byte length, then a certificate list behind a
/// three-byte length that must cover the rest of the message.
pub open spec fn certificate_list(b: Seq<u8>) -> Option<Seq<Seq<u8>>> {
    if b.len() < 1 || b.len() < 4 + b[0] || be24(b, 1 + b[0]) != b.len() - 4 - b[0] {
        None
    } else {
        chain_of(b.skip(4 + b[0]), true)
    }
}

} // verus!
