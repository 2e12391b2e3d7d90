//! Requests to the cryptographic provider, and the block padding that is
//! done on this side of it.
//!
//! The provider encrypts and decrypts whole blocks in CBC mode; bringing a
//! text to whole blocks and back is done here.

use vstd::prelude::*;
use vstd::slice::slice_to_vec;
use crate::tls::codec::copy_range;
use crate::tls::error::TlsError;

verus! {

/// The block size of AES in bytes.
pub const BLOCK_LEN: usize = 16;

/// How many bytes of padding bring a text of `n` bytes to whole blocks:
/// between 1 and 16.
pub open spec fn pad_len(n: int) -> int {
    16 - n % 16
}

/// `data` followed by `count` bytes of value `value`.
pub open spec fn filled(data: Seq<u8>, count: int, value: u8) -> Seq<u8> {
    data + Seq::new(count as nat, |i: int| value)
}

/// Whether `data` ends in `count` bytes of value `value`.
pub open spec fn ends_in(data: Seq<u8>, count: int, value: u8) -> bool {
    0 <= count <= data.len() && forall|i: int|
        data.len() - count <= i < data.len() ==> #[trigger] data[i] == value
}

/// `data` with PKCS#7 padding: as many bytes as are missing to the next
/// whole block, a whole block where none is missing, each holding their
/// number.
pub open spec fn pkcs7_padded(data: Seq<u8>) -> Seq<u8> {
    filled(data, pad_len(data.len() as int), pad_len(data.len() as int) as u8)
}

/// The text under PKCS#7 padding, or `None` if `padded` is not whole
/// blocks that end in valid padding.
pub open spec fn pkcs7_unpadded(padded: Seq<u8>) -> Option<Seq<u8>> {
    if padded.len() == 0 || padded.len() % 16 != 0 {
        None
    } else if padded.last() < 1 || padded.last() > 16 || !ends_in(
        padded,
        padded.last() as int,
        padded.last(),
    ) {
        None
    } else {
        Some(padded.take(padded.len() - padded.last()))
    }
}

/// `data` with the padding of TLS block ciphers: a padding length `p` in
/// the last byte and `p` bytes of value `p` before it, as few as bring the
/// text to whole blocks.
pub open spec fn tls_padded(data: Seq<u8>) -> Seq<u8> {
    filled(data, pad_len(data.len() as int), (pad_len(data.len() as int) - 1) as u8)
}

/// The text under TLS padding, or `None` if `padded` does not end in a
/// padding length `p` preceded by `p` bytes of value `p`.
pub open spec fn tls_unpadded(padded: Seq<u8>) -> Option<Seq<u8>> {
    if padded.len() == 0 || !ends_in(padded, padded.last() + 1, padded.last()) {
        None
    } else {
        Some(padded.take(padded.len() - padded.last() - 1))
    }
}

/// Appends `count` bytes of value `value`.
fn append_fill(data: &[u8], count: usize, value: u8) -> (out: Vec<u8>)
    ensures
        out@ == filled(data@, count as int, value),
{
    let mut out = slice_to_vec(data);
    let mut i: usize = 0;
    while i < count
        invariant
            i <= count,
            out@ == filled(data@, i as int, value),
        decreases count - i,
    {
        out.push(value);
        i += 1;
    }
    out
}

/// Whether `data` ends in `count` bytes of value `value`.
fn check_fill(data: &[u8], count: usize, value: u8) -> (ok: bool)
    ensures
        ok == ends_in(data@, count as int, value),
{
    if count > data.len() {
        return false;
    }
    let start = data.len() - count;
    let mut i: usize = start;
    while i < data.len()
        invariant
            start <= i <= data@.len(),
            start == data@.len() - count,
            forall|k: int| start <= k < i ==> #[trigger] data@[k] == value,
        decreases data@.len() - i,
    {
        if data[i] != value {
            return false;
        }
        i += 1;
    }
    true
}

/// Pads a text to whole blocks the PKCS#7 way.
pub fn pkcs7_pad(data: &[u8]) -> (out: Vec<u8>)
    ensures
        out@ == pkcs7_padded(data@),
{
    let count = BLOCK_LEN - data.len() % BLOCK_LEN;
    append_fill(data, count, count as u8)
}

/// Takes PKCS#7 padding off. Anything but whole blocks that end in valid
/// padding is a `Crypto` error.
pub fn pkcs7_unpad(padded: &[u8]) -> (r: Result<Vec<u8>, TlsError>)
    ensures
        r is Ok <==> pkcs7_unpadded(padded@) is Some,
        r matches Ok(data) ==> Some(data@) == pkcs7_unpadded(padded@),
        r matches Err(e) ==> e is Crypto,
{
    let n = padded.len();
    if n == 0 || n % BLOCK_LEN != 0 {
        return Err(TlsError::crypto("Ciphertext is not whole blocks"));
    }
    let last = padded[n - 1];
    if last < 1 || last > 16 || !check_fill(padded, last as usize, last) {
        return Err(TlsError::crypto("Invalid padding"));
    }
    let data = copy_range(padded, 0, n - last as usize);
    Ok(data)
}

/// Pads a text to whole blocks the way TLS block ciphers do.
pub fn tls_pad(data: &[u8]) -> (out: Vec<u8>)
    ensures
        out@ == tls_padded(data@),
{
    let count = BLOCK_LEN - data.len() % BLOCK_LEN;
    append_fill(data, count, (count - 1) as u8)
}

/// Takes TLS padding off. Text that does not end in valid padding is a
/// `Crypto` error.
pub fn tls_unpad(padded: &[u8]) -> (r: Result<Vec<u8>, TlsError>)
    ensures
        r is Ok <==> tls_unpadded(padded@) is Some,
        r matches Ok(data) ==> Some(data@) == tls_unpadded(padded@),
        r matches Err(e) ==> e is Crypto,
{
    let n = padded.len();
    if n == 0 {
        return Err(TlsError::crypto("Invalid padding"));
    }
    let last = padded[n - 1];
    if !check_fill(padded, last as usize + 1, last) {
        return Err(TlsError::crypto("Invalid padding"));
    }
    let data = copy_range(padded, 0, n - last as usize - 1);
    Ok(data)
}

/// Padded text is whole blocks, longer than the text by 1 to 16 bytes, and
/// taking the padding off gives the text back.
pub proof fn lemma_pkcs7_round_trip(data: Seq<u8>)
    ensures
        pkcs7_padded(data).len() % 16 == 0,
        data.len() < pkcs7_padded(data).len() <= data.len() + 16,
        pkcs7_unpadded(pkcs7_padded(data)) == Some(data),
{
}

/// Text under TLS padding is whole blocks, longer than the text by 1 to 16
/// bytes, and taking the padding off gives the text back.
pub proof fn lemma_tls_padding_round_trip(data: Seq<u8>)
    ensures
        tls_padded(data).len() % 16 == 0,
        data.len() < tls_padded(data).len() <= data.len() + 16,
        tls_unpadded(tls_padded(data)) == Some(data),
{
}

/// A request to encrypt or decrypt whole blocks in CBC mode.
#[derive(Debug)]
pub struct CbcRequest {
    pub encrypt: bool,
    pub key: Vec<u8>,
    pub iv: Vec<u8>,
    pub input: Vec<u8>,
}

/// AES in CBC mode with PKCS#7 padding, under one key.
#[derive(Debug)]
pub struct AesCbc {
    pub key: Vec<u8>,
}

impl AesCbc {
    /// A cipher with a 128-bit key. A key of another length is a `Crypto`
    /// error.
    pub fn new_128(key: &[u8]) -> (r: Result<AesCbc, TlsError>)
        ensures
            r is Ok <==> key@.len() == 16,
            r matches Ok(cipher) ==> cipher.key@ == key@,
            r matches Err(e) ==> e is Crypto,
    {
        if key.len() != 16 {
            return Err(TlsError::crypto("AES-128 takes a key of 16 bytes"));
        }
        Ok(AesCbc { key: slice_to_vec(key) })
    }

    /// A cipher with a 256-bit key. A key of another length is a `Crypto`
    /// error.
    pub fn new_256(key: &[u8]) -> (r: Result<AesCbc, TlsError>)
        ensures
            r is Ok <==> key@.len() == 32,
            r matches Ok(cipher) ==> cipher.key@ == key@,
            r matches Err(e) ==> e is Crypto,
    {
        if key.len() != 32 {
            return Err(TlsError::crypto("AES-256 takes a key of 32 bytes"));
        }
        Ok(AesCbc { key: slice_to_vec(key) })
    }

    /// The request that encrypts `plaintext`: the padded text, under this
    /// key and `iv`. What the provider answers is the ciphertext. An IV
    /// that is not one block long is a `Crypto` error.
    pub fn encrypt(&self, iv: &[u8], plaintext: &[u8]) -> (r: Result<CbcRequest, TlsError>)
        ensures
            r is Ok <==> iv@.len() == 16,
            r matches Ok(request) ==> {
                &&& request.encrypt
                &&& request.key@ == self.key@
                &&& request.iv@ == iv@
                &&& request.input@ == pkcs7_padded(plaintext@)
            },
            r matches Err(e) ==> e is Crypto,
    {
        if iv.len() != BLOCK_LEN {
            return Err(TlsError::crypto("The IV is one block long"));
        }
        Ok(
            CbcRequest {
                encrypt: true,
                key: slice_to_vec(self.key.as_slice()),
                iv: slice_to_vec(iv),
                input: pkcs7_pad(plaintext),
            },
        )
    }

    /// The request that decrypts `ciphertext` under this key and `iv`.
    /// What the provider answers goes to `finish_decrypt`. An IV that is
    /// not one block long, and a ciphertext that is empty or not whole
    /// blocks, is a `Crypto` error.
    pub fn decrypt(&self, iv: &[u8], ciphertext: &[u8]) -> (r: Result<CbcRequest, TlsError>)
        ensures
            r is Ok <==> iv@.len() == 16 && ciphertext@.len() > 0 && ciphertext@.len() % 16 == 0,
            r matches Ok(request) ==> {
                &&& !request.encrypt
                &&& request.key@ == self.key@
                &&& request.iv@ == iv@
                &&& request.input@ == ciphertext@
            },
            r matches Err(e) ==> e is Crypto,
    {
        if iv.len() != BLOCK_LEN {
            return Err(TlsError::crypto("The IV is one block long"));
        }
        if ciphertext.len() == 0 || ciphertext.len() % BLOCK_LEN != 0 {
            return Err(TlsError::crypto("Ciphertext is not whole blocks"));
        }
        Ok(
            CbcRequest {
                encrypt: false,
                key: slice_to_vec(self.key.as_slice()),
                iv: slice_to_vec(iv),
                input: slice_to_vec(ciphertext),
            },
        )
    }

    /// The plaintext, given the blocks that decryption gave.
    pub fn finish_decrypt(&self, decrypted: &[u8]) -> (r: Result<Vec<u8>, TlsError>)
        ensures
            r is Ok <==> pkcs7_unpadded(decrypted@) is Some,
            r matches Ok(data) ==> Some(data@) == pkcs7_unpadded(decrypted@),
            r matches Err(e) ==> e is Crypto,
    {
        pkcs7_unpad(decrypted)
    }
}

/// Encrypting and then decrypting gives the plaintext back, whatever its
/// length, provided that the provider's decryption undoes its encryption
/// and keeps lengths; and the ciphertext is whole blocks and longer than
/// the plaintext.
pub proof fn lemma_cbc_round_trip(
    enc: spec_fn(Seq<u8>, Seq<u8>, Seq<u8>) -> Seq<u8>,
    dec: spec_fn(Seq<u8>, Seq<u8>, Seq<u8>) -> Seq<u8>,
    key: Seq<u8>,
    iv: Seq<u8>,
    plaintext: Seq<u8>,
)
    requires
        forall|k: Seq<u8>, i: Seq<u8>, x: Seq<u8>| #[trigger] enc(k, i, x).len() == x.len(),
        forall|k: Seq<u8>, i: Seq<u8>, x: Seq<u8>| dec(k, i, #[trigger] enc(k, i, x)) == x,
    ensures
        enc(key, iv, pkcs7_padded(plaintext)).len() % 16 == 0,
        enc(key, iv, pkcs7_padded(plaintext)).len() > plaintext.len(),
        pkcs7_unpadded(dec(key, iv, enc(key, iv, pkcs7_padded(plaintext)))) == Some(plaintext),
{
    lemma_pkcs7_round_trip(plaintext);
}

} // verus!
