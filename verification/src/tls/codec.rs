//! Big-endian integers and byte-string helpers used by every wire format.

use vstd::prelude::*;

verus! {

/// The 16-bit big-endian integer that starts at `at`.
pub open spec fn be16(b: Seq<u8>, at: int) -> int {
    b[at] as int * 256 + b[at + 1] as int
}

/// The 24-bit big-endian integer that starts at `at`.
pub open spec fn be24(b: Seq<u8>, at: int) -> int {
    b[at] as int * 65536 + b[at + 1] as int * 256 + b[at + 2] as int
}

/// The two bytes that encode `v`, for `0 <= v < 2^16`.
pub open spec fn be16_bytes(v: int) -> Seq<u8> {
    seq![(v / 256) as u8, (v % 256) as u8]
}

/// The three bytes that encode `v`, for `0 <= v < 2^24`.
pub open spec fn be24_bytes(v: int) -> Seq<u8> {
    seq![(v / 65536) as u8, ((v / 256) % 256) as u8, (v % 256) as u8]
}

/// The eight bytes that encode `v`, most significant first.
pub open spec fn be64_bytes(v: u64) -> Seq<u8> {
    seq![
        (v >> 56) as u8,
        (v >> 48) as u8,
        (v >> 40) as u8,
        (v >> 32) as u8,
        (v >> 24) as u8,
        (v >> 16) as u8,
        (v >> 8) as u8,
        v as u8,
    ]
}

/// Decoding undoes encoding for 16-bit values.
pub proof fn lemma_be16_round_trip(v: int)
    requires
        0 <= v < 0x1_0000,
    ensures
        be16_bytes(v).len() == 2,
        be16(be16_bytes(v), 0) == v,
{
}

/// Decoding undoes encoding for 24-bit values.
pub proof fn lemma_be24_round_trip(v: int)
    requires
        0 <= v < 0x100_0000,
    ensures
        be24_bytes(v).len() == 3,
        be24(be24_bytes(v), 0) == v,
{
}

/// Two different counters never encode to the same eight bytes.
pub proof fn lemma_be64_injective(a: u64, b: u64)
    requires
        be64_bytes(a) == be64_bytes(b),
    ensures
        a == b,
{
    assert(((a >> 56) as u8 == (b >> 56) as u8 && (a >> 48) as u8 == (b >> 48) as u8 && (a >> 40)
        as u8 == (b >> 40) as u8 && (a >> 32) as u8 == (b >> 32) as u8 && (a >> 24) as u8 == (b
        >> 24) as u8 && (a >> 16) as u8 == (b >> 16) as u8 && (a >> 8) as u8 == (b >> 8) as u8
        && a as u8 == b as u8) ==> a == b) by (bit_vector);
}

/// Reads the 16-bit big-endian integer at `at`.
pub fn read_u16(b: &[u8], at: usize) -> (v: u16)
    requires
        at + 2 <= b@.len(),
    ensures
        v == be16(b@, at as int),
{
    (b[at] as u16) * 256 + (b[at + 1] as u16)
}

/// Reads the 24-bit big-endian integer at `at`.
pub fn read_u24(b: &[u8], at: usize) -> (v: u32)
    requires
        at + 3 <= b@.len(),
    ensures
        v == be24(b@, at as int),
{
    (b[at] as u32) * 65536 + (b[at + 1] as u32) * 256 + (b[at + 2] as u32)
}

/// Appends `v` as two bytes.
pub fn push_u16(out: &mut Vec<u8>, v: u16)
    ensures
        final(out)@ == old(out)@ + be16_bytes(v as int),
{
    out.push((v / 256) as u8);
    out.push((v % 256) as u8);
}

/// Appends `v` as three bytes.
pub fn push_u24(out: &mut Vec<u8>, v: u32)
    requires
        v < 0x100_0000,
    ensures
        final(out)@ == old(out)@ + be24_bytes(v as int),
{
    out.push((v / 65536) as u8);
    out.push(((v / 256) % 256) as u8);
    out.push((v % 256) as u8);
}

/// Appends `v` as eight bytes.
pub fn push_u64(out: &mut Vec<u8>, v: u64)
    ensures
        final(out)@ == old(out)@ + be64_bytes(v),
{
    out.push((v >> 56) as u8);
    out.push((v >> 48) as u8);
    out.push((v >> 40) as u8);
    out.push((v >> 32) as u8);
    out.push((v >> 24) as u8);
    out.push((v >> 16) as u8);
    out.push((v >> 8) as u8);
    out.push(v as u8);
}

/// Appends a copy of `src`.
pub fn push_all(out: &mut Vec<u8>, src: &[u8])
    ensures
        final(out)@ == old(out)@ + src@,
{
    let mut i: usize = 0;
    while i < src.len()
        invariant
            i <= src@.len(),
            out@ == old(out)@ + src@.subrange(0, i as int),
        decreases src@.len() - i,
    {
        out.push(src[i]);
        i += 1;
    }
}

/// A fresh vector holding `src[from..to]`.
pub fn copy_range(src: &[u8], from: usize, to: usize) -> (out: Vec<u8>)
    requires
        from <= to <= src@.len(),
    ensures
        out@ == src@.subrange(from as int, to as int),
{
    let mut out: Vec<u8> = Vec::new();
    let mut i: usize = from;
    while i < to
        invariant
            from <= i <= to <= src@.len(),
            out@ == src@.subrange(from as int, i as int),
        decreases to - i,
    {
        out.push(src[i]);
        i += 1;
    }
    out
}

/// Whether two byte strings are equal. Every byte is looked at, whatever the
/// earlier ones were, so the running time does not depend on where the
/// strings first differ.
pub fn bytes_equal(a: &[u8], b: &[u8]) -> (same: bool)
    ensures
        same == (a@ == b@),
{
    if a.len() != b.len() {
        return false;
    }
    let mut same = true;
    let mut i: usize = 0;
    while i < a.len()
        invariant
            i <= a@.len(),
            a@.len() == b@.len(),
            same == (forall|k: int| 0 <= k < i ==> a@[k] == b@[k]),
        decreases a@.len() - i,
    {
        if a[i] != b[i] {
            same = false;
        }
        i += 1;
    }
    assert(same == (a@ =~= b@));
    same
}

} // verus!
