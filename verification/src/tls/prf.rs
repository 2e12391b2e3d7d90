//! The TLS 1.2 pseudorandom function and what is derived with it: the
//! master secret, the key block and the verify data of Finished messages.
//!
//! The function is an iteration of HMAC, and HMAC is computed outside. A
//! derivation is therefore a value of type `Prf` that hands out one HMAC
//! request at a time and takes the answer back in, until the output is
//! complete.

use vstd::prelude::*;
use vstd::slice::slice_to_vec;
use crate::tls::codec::{copy_range, push_all};
use crate::tls::error::TlsError;

verus! {

/// The hash under an HMAC.
#[derive(Clone, Copy, Debug, PartialEq, Eq, Structural)]
pub enum HashAlgorithm {
    Sha1,
    Sha256,
    Sha384,
}

impl HashAlgorithm {
    /// The length of a digest, and of an HMAC tag, in bytes.
    pub open spec fn spec_output_len(self) -> int {
        match self {
            HashAlgorithm::Sha1 => 20,
            HashAlgorithm::Sha256 => 32,
            HashAlgorithm::Sha384 => 48,
        }
    }

    /// The length of a digest, and of an HMAC tag, in bytes.
    pub fn output_len(self) -> (n: usize)
        ensures
            n == self.spec_output_len(),
    {
        match self {
            HashAlgorithm::Sha1 => 20,
            HashAlgorithm::Sha256 => 32,
            HashAlgorithm::Sha384 => 48,
        }
    }
}

/// A request to compute `HMAC(key, data)`.
#[derive(Debug)]
pub struct HmacRequest {
    pub hash: HashAlgorithm,
    pub key: Vec<u8>,
    pub data: Vec<u8>,
}

/// A derivation in progress.
#[derive(Debug)]
pub struct Prf {
    pub hash: HashAlgorithm,
    pub secret: Vec<u8>,
    /// The label followed by the seed.
    pub seed: Vec<u8>,
    /// The last value of the chain `A(0) = seed, A(i) = HMAC(secret, A(i-1))`.
    pub chain: Vec<u8>,
    /// The blocks of output gathered so far.
    pub output: Vec<u8>,
    /// How many bytes of output are asked for.
    pub wanted: usize,
    /// Whether the next answer is a block of output rather than the next
    /// value of the chain.
    pub expanding: bool,
}

/// The model of `Prf` in contracts.
pub ghost struct PrfView {
    pub hash: HashAlgorithm,
    pub secret: Seq<u8>,
    pub seed: Seq<u8>,
    pub chain: Seq<u8>,
    pub output: Seq<u8>,
    pub wanted: nat,
    pub expanding: bool,
}

impl View for Prf {
    type V = PrfView;

    open spec fn view(&self) -> PrfView {
        PrfView {
            hash: self.hash,
            secret: self.secret@,
            seed: self.seed@,
            chain: self.chain@,
            output: self.output@,
            wanted: self.wanted as nat,
            expanding: self.expanding,
        }
    }
}

impl PrfView {
    /// A derivation of `wanted` bytes that has not asked for anything yet.
    pub open spec fn start(hash: HashAlgorithm, secret: Seq<u8>, seed: Seq<u8>, wanted: nat)
        -> PrfView {
        PrfView {
            hash,
            secret,
            seed,
            chain: seed,
            output: Seq::empty(),
            wanted,
            expanding: false,
        }
    }

    /// Whether enough output has been gathered.
    pub open spec fn is_done(self) -> bool {
        self.output.len() >= self.wanted
    }

    /// The data of the next HMAC: the chain value alone to advance the
    /// chain, the chain value followed by the seed to get a block.
    pub open spec fn request_data(self) -> Seq<u8> {
        if self.expanding {
            self.chain + self.seed
        } else {
            self.chain
        }
    }

    /// The derivation after the answer `mac` to its request.
    pub open spec fn after(self, mac: Seq<u8>) -> PrfView {
        if self.expanding {
            PrfView { output: self.output + mac, expanding: false, ..self }
        } else {
            PrfView { chain: mac, expanding: true, ..self }
        }
    }

    /// The output of a derivation that is done.
    pub open spec fn result(self) -> Seq<u8> {
        self.output.take(self.wanted as int)
    }
}

impl Prf {
    /// Starts a derivation of `wanted` bytes from `secret`, `label` and
    /// `seed`.
    pub fn new(hash: HashAlgorithm, secret: &[u8], label: &[u8], seed: &[u8], wanted: usize) -> (prf:
        Prf)
        ensures
            prf@ == PrfView::start(hash, secret@, label@ + seed@, wanted as nat),
    {
        let mut full: Vec<u8> = Vec::new();
        push_all(&mut full, label);
        push_all(&mut full, seed);
        let chain = slice_to_vec(full.as_slice());
        Prf {
            hash,
            secret: slice_to_vec(secret),
            seed: full,
            chain,
            output: Vec::new(),
            wanted,
            expanding: false,
        }
    }

    /// The same derivation over another hash. Suites whose pseudorandom
    /// function is not over SHA-256 start their derivations this way.
    pub fn with_hash(self, hash: HashAlgorithm) -> (prf: Prf)
        ensures
            prf@ == (PrfView { hash, ..self@ }),
    {
        let mut prf = self;
        prf.hash = hash;
        prf
    }

    /// Whether the output is complete.
    pub fn is_done(&self) -> (done: bool)
        ensures
            done == self@.is_done(),
    {
        self.output.len() >= self.wanted
    }

    /// The next HMAC to compute, or `None` once the output is complete.
    pub fn request(&self) -> (r: Option<HmacRequest>)
        ensures
            r is None <==> self@.is_done(),
            r matches Some(req) ==> {
                &&& req.hash == self.hash
                &&& req.key@ == self@.secret
                &&& req.data@ == self@.request_data()
            },
    {
        if self.output.len() >= self.wanted {
            return None;
        }
        let mut data = slice_to_vec(self.chain.as_slice());
        if self.expanding {
            push_all(&mut data, self.seed.as_slice());
        }
        let key = slice_to_vec(self.secret.as_slice());
        Some(HmacRequest { hash: self.hash, key, data })
    }

    /// Takes in the answer to the last request. An answer that is not as
    /// long as a tag of this hash, or one that nothing asked for, is a
    /// `Crypto` error and changes nothing.
    pub fn respond(&mut self, mac: &[u8]) -> (r: Result<(), TlsError>)
        ensures
            r is Ok <==> !old(self)@.is_done() && mac@.len() == old(self).hash.spec_output_len(),
            r is Ok ==> final(self)@ == old(self)@.after(mac@),
            r matches Err(e) ==> e is Crypto && final(self)@ == old(self)@,
    {
        if self.output.len() >= self.wanted {
            return Err(TlsError::crypto("No HMAC was asked for"));
        }
        if mac.len() != self.hash.output_len() {
            return Err(TlsError::crypto("HMAC output has the wrong length"));
        }
        if self.expanding {
            push_all(&mut self.output, mac);
            self.expanding = false;
        } else {
            self.chain = slice_to_vec(mac);
            self.expanding = true;
        }
        Ok(())
    }

    /// The output, exactly `wanted` bytes, once it is complete.
    pub fn finish(&self) -> (r: Result<Vec<u8>, TlsError>)
        ensures
            r is Ok <==> self@.is_done(),
            r matches Ok(out) ==> out@ == self@.result() && out@.len() == self.wanted,
            r matches Err(e) ==> e is Crypto,
    {
        if self.output.len() < self.wanted {
            return Err(TlsError::crypto("Derivation is not complete"));
        }
        Ok(copy_range(self.output.as_slice(), 0, self.wanted))
    }
}

/// The label of the master secret, `"master secret"`.
pub open spec fn label_master_secret() -> Seq<u8> {
    seq![
        0x6du8,
        0x61u8,
        0x73u8,
        0x74u8,
        0x65u8,
        0x72u8,
        0x20u8,
        0x73u8,
        0x65u8,
        0x63u8,
        0x72u8,
        0x65u8,
        0x74u8,
    ]
}

/// The label of the key block, `"key expansion"`.
pub open spec fn label_key_expansion() -> Seq<u8> {
    seq![
        0x6bu8,
        0x65u8,
        0x79u8,
        0x20u8,
        0x65u8,
        0x78u8,
        0x70u8,
        0x61u8,
        0x6eu8,
        0x73u8,
        0x69u8,
        0x6fu8,
        0x6eu8,
    ]
}

/// The label of a Finished message: `"client finished"` for the client's,
/// `"server finished"` for the server's.
pub open spec fn label_finished(is_client: bool) -> Seq<u8> {
    if is_client {
        seq![
            0x63u8,
            0x6cu8,
            0x69u8,
            0x65u8,
            0x6eu8,
            0x74u8,
            0x20u8,
            0x66u8,
            0x69u8,
            0x6eu8,
            0x69u8,
            0x73u8,
            0x68u8,
            0x65u8,
            0x64u8,
        ]
    } else {
        seq![
            0x73u8,
            0x65u8,
            0x72u8,
            0x76u8,
            0x65u8,
            0x72u8,
            0x20u8,
            0x66u8,
            0x69u8,
            0x6eu8,
            0x69u8,
            0x73u8,
            0x68u8,
            0x65u8,
            0x64u8,
        ]
    }
}

/// Starts the classic PRF with SHA-256: `wanted` bytes from `secret`,
/// `label` and `seed`.
pub fn prf(secret: &[u8], label: &[u8], seed: &[u8], wanted: usize) -> (r: Prf)
    ensures
        r@ == PrfView::start(HashAlgorithm::Sha256, secret@, label@ + seed@, wanted as nat),
{
    Prf::new(HashAlgorithm::Sha256, secret, label, seed, wanted)
}

/// Starts the derivation of the 48-byte master secret from the pre-master
/// secret and the two random values, the client's first.
pub fn derive_master_secret(pre_master_secret: &[u8], client_random: &[u8], server_random: &[u8])
    -> (r: Prf)
    ensures
        r@ == PrfView::start(
            HashAlgorithm::Sha256,
            pre_master_secret@,
            label_master_secret() + (client_random@ + server_random@),
            48,
        ),
{
    let label: [u8; 13] = [
        0x6d,
        0x61,
        0x73,
        0x74,
        0x65,
        0x72,
        0x20,
        0x73,
        0x65,
        0x63,
        0x72,
        0x65,
        0x74,
    ];
    let mut seed: Vec<u8> = Vec::new();
    push_all(&mut seed, client_random);
    push_all(&mut seed, server_random);
    Prf::new(
        HashAlgorithm::Sha256,
        pre_master_secret,
        vstd::array::array_as_slice(&label),
        seed.as_slice(),
        48,
    )
}

/// Starts the derivation of a key block of `n` bytes from the master
/// secret and the two random values, the server's first.
pub fn derive_key_block(
    master_secret: &[u8],
    client_random: &[u8],
    server_random: &[u8],
    n: usize,
) -> (r: Prf)
    ensures
        r@ == PrfView::start(
            HashAlgorithm::Sha256,
            master_secret@,
            label_key_expansion() + (server_random@ + client_random@),
            n as nat,
        ),
{
    let label: [u8; 13] = [
        0x6b,
        0x65,
        0x79,
        0x20,
        0x65,
        0x78,
        0x70,
        0x61,
        0x6e,
        0x73,
        0x69,
        0x6f,
        0x6e,
    ];
    let mut seed: Vec<u8> = Vec::new();
    push_all(&mut seed, server_random);
    push_all(&mut seed, client_random);
    Prf::new(
        HashAlgorithm::Sha256,
        master_secret,
        vstd::array::array_as_slice(&label),
        seed.as_slice(),
        n,
    )
}

/// Starts the derivation of the twelve bytes of verify data for a Finished
/// message, the client's or the server's, over the transcript hash.
pub fn compute_verify_data(master_secret: &[u8], is_client: bool, handshake_hash: &[u8]) -> (r: Prf)
    ensures
        r@ == PrfView::start(
            HashAlgorithm::Sha256,
            master_secret@,
            label_finished(is_client) + handshake_hash@,
            12,
        ),
{
    let client: [u8; 15] = [
        0x63,
        0x6c,
        0x69,
        0x65,
        0x6e,
        0x74,
        0x20,
        0x66,
        0x69,
        0x6e,
        0x69,
        0x73,
        0x68,
        0x65,
        0x64,
    ];
    let server: [u8; 15] = [
        0x73,
        0x65,
        0x72,
        0x76,
        0x65,
        0x72,
        0x20,
        0x66,
        0x69,
        0x6e,
        0x69,
        0x73,
        0x68,
        0x65,
        0x64,
    ];
    if is_client {
        Prf::new(
            HashAlgorithm::Sha256,
            master_secret,
            vstd::array::array_as_slice(&client),
            handshake_hash,
            12,
        )
    } else {
        Prf::new(
            HashAlgorithm::Sha256,
            master_secret,
            vstd::array::array_as_slice(&server),
            handshake_hash,
            12,
        )
    }
}

/// The chain of the pseudorandom function over the keyed function `h`:
/// `A(0) = seed`, `A(i) = h(secret, A(i-1))`.
pub open spec fn chain_value(
    h: spec_fn(Seq<u8>, Seq<u8>) -> Seq<u8>,
    secret: Seq<u8>,
    seed: Seq<u8>,
    i: nat,
) -> Seq<u8>
    decreases i,
{
    if i == 0 {
        seed
    } else {
        h(secret, chain_value(h, secret, seed, (i - 1) as nat))
    }
}

/// The first `k` blocks of the pseudorandom function over `h`:
/// `h(secret, A(1) + seed) + h(secret, A(2) + seed) + ...`.
pub open spec fn p_hash(
    h: spec_fn(Seq<u8>, Seq<u8>) -> Seq<u8>,
    secret: Seq<u8>,
    seed: Seq<u8>,
    k: nat,
) -> Seq<u8>
    decreases k,
{
    if k == 0 {
        Seq::empty()
    } else {
        p_hash(h, secret, seed, (k - 1) as nat) + h(
            secret,
            chain_value(h, secret, seed, k) + seed,
        )
    }
}

/// The derivation `v` after up to `steps` of its requests were answered
/// with `h`.
pub open spec fn driven(v: PrfView, h: spec_fn(Seq<u8>, Seq<u8>) -> Seq<u8>, steps: nat) -> PrfView
    decreases steps,
{
    if steps == 0 || v.is_done() {
        v
    } else {
        driven(v.after(h(v.secret, v.request_data())), h, (steps - 1) as nat)
    }
}

/// The derivation that has gathered `k` whole blocks.
spec fn at_block(
    hash: HashAlgorithm,
    h: spec_fn(Seq<u8>, Seq<u8>) -> Seq<u8>,
    secret: Seq<u8>,
    seed: Seq<u8>,
    wanted: nat,
    k: nat,
) -> PrfView {
    PrfView {
        hash,
        secret,
        seed,
        chain: chain_value(h, secret, seed, k),
        output: p_hash(h, secret, seed, k),
        wanted,
        expanding: false,
    }
}

proof fn lemma_p_hash_len(
    h: spec_fn(Seq<u8>, Seq<u8>) -> Seq<u8>,
    secret: Seq<u8>,
    seed: Seq<u8>,
    k: nat,
    len: int,
)
    requires
        forall|key: Seq<u8>, data: Seq<u8>| #[trigger] h(key, data).len() == len,
    ensures
        p_hash(h, secret, seed, k).len() == k * len,
    decreases k,
{
    if k > 0 {
        lemma_p_hash_len(h, secret, seed, (k - 1) as nat, len);
        assert((k - 1) * len + len == k * len) by (nonlinear_arith);
    } else {
        assert(0 * len == 0);
    }
}

proof fn lemma_driven_blocks(
    hash: HashAlgorithm,
    h: spec_fn(Seq<u8>, Seq<u8>) -> Seq<u8>,
    secret: Seq<u8>,
    seed: Seq<u8>,
    wanted: nat,
    blocks: nat,
    k: nat,
)
    requires
        forall|key: Seq<u8>, data: Seq<u8>| #[trigger] h(key, data).len() == hash.spec_output_len(),
        k <= blocks,
        blocks == 0 || (blocks - 1) * hash.spec_output_len() < wanted,
    ensures
        driven(at_block(hash, h, secret, seed, wanted, k), h, (2 * (blocks - k)) as nat)
            == at_block(hash, h, secret, seed, wanted, blocks),
    decreases blocks - k,
{
    if k < blocks {
        let len = hash.spec_output_len();
        let s0 = at_block(hash, h, secret, seed, wanted, k);
        lemma_p_hash_len(h, secret, seed, k, len);
        assert(k * len <= (blocks - 1) * len) by (nonlinear_arith)
            requires
                k <= blocks - 1,
                len >= 0,
        ;
        assert(!s0.is_done());
        let s1 = s0.after(h(secret, s0.request_data()));
        assert(s1.chain == chain_value(h, secret, seed, k + 1));
        assert(!s1.is_done());
        let s2 = s1.after(h(secret, s1.request_data()));
        assert(s2 == at_block(hash, h, secret, seed, wanted, k + 1));
        lemma_driven_blocks(hash, h, secret, seed, wanted, blocks, k + 1);
        assert(driven(s0, h, (2 * (blocks - k)) as nat) == driven(
            s1,
            h,
            (2 * (blocks - k) - 1) as nat,
        ));
        assert(driven(s1, h, (2 * (blocks - k) - 1) as nat) == driven(
            s2,
            h,
            (2 * (blocks - k) - 2) as nat,
        ));
    }
}

/// A derivation whose requests are all answered by one keyed function `h`
/// yields the pseudorandom function over `h`: after two answers for each of
/// the `blocks` blocks that cover `wanted` bytes, it is done, and its
/// output is the first `wanted` bytes of
/// `h(secret, A(1) + seed) + h(secret, A(2) + seed) + ...`.
pub proof fn lemma_prf_computes_p_hash(
    hash: HashAlgorithm,
    h: spec_fn(Seq<u8>, Seq<u8>) -> Seq<u8>,
    secret: Seq<u8>,
    seed: Seq<u8>,
    wanted: nat,
    blocks: nat,
)
    requires
        forall|key: Seq<u8>, data: Seq<u8>| #[trigger] h(key, data).len() == hash.spec_output_len(),
        wanted <= blocks * hash.spec_output_len(),
        blocks == 0 || (blocks - 1) * hash.spec_output_len() < wanted,
    ensures
        driven(PrfView::start(hash, secret, seed, wanted), h, 2 * blocks).is_done(),
        driven(PrfView::start(hash, secret, seed, wanted), h, 2 * blocks).result() == p_hash(
            h,
            secret,
            seed,
            blocks,
        ).take(wanted as int),
        driven(PrfView::start(hash, secret, seed, wanted), h, 2 * blocks).result().len() == wanted,
{
    lemma_driven_blocks(hash, h, secret, seed, wanted, blocks, 0);
    lemma_p_hash_len(h, secret, seed, blocks, hash.spec_output_len());
}

/// A derivation that is done yields exactly as many bytes as were asked
/// for.
pub proof fn lemma_result_len(v: PrfView)
    requires
        v.is_done(),
    ensures
        v.result().len() == v.wanted,
{
}

/// The verify data of the client and that of the server are the first
/// twelve bytes that the keyed function gives for two different inputs
/// under the same key: the inputs differ where the labels do. Whether the
/// outputs differ as well is for the keyed function to see to.
pub proof fn lemma_verify_data_inputs_differ(
    h: spec_fn(Seq<u8>, Seq<u8>) -> Seq<u8>,
    secret: Seq<u8>,
    handshake_hash: Seq<u8>,
)
    requires
        forall|key: Seq<u8>, data: Seq<u8>| #[trigger] h(key, data).len() == 32,
    ensures
        ({
            let client = label_finished(true) + handshake_hash;
            let server = label_finished(false) + handshake_hash;
            let client_input = h(secret, client) + client;
            let server_input = h(secret, server) + server;
            &&& driven(PrfView::start(HashAlgorithm::Sha256, secret, client, 12), h, 2).result()
                == h(secret, client_input).take(12)
            &&& driven(PrfView::start(HashAlgorithm::Sha256, secret, server, 12), h, 2).result()
                == h(secret, server_input).take(12)
            &&& client_input != server_input
            &&& h(secret, client_input).take(12).len() == 12
            &&& h(secret, server_input).take(12).len() == 12
        }),
{
    let client = label_finished(true) + handshake_hash;
    let server = label_finished(false) + handshake_hash;
    lemma_prf_computes_p_hash(HashAlgorithm::Sha256, h, secret, client, 12, 1);
    lemma_prf_computes_p_hash(HashAlgorithm::Sha256, h, secret, server, 12, 1);
    let a_client = chain_value(h, secret, client, 1);
    let a_server = chain_value(h, secret, server, 1);
    assert(a_client == h(secret, chain_value(h, secret, client, 0)));
    assert(a_server == h(secret, chain_value(h, secret, server, 0)));
    assert(client[0] == 0x63u8 && server[0] == 0x73u8);
    assert((a_client + client)[32] == 0x63u8);
    assert((a_server + server)[32] == 0x73u8);
    assert(p_hash(h, secret, client, 0) =~= Seq::<u8>::empty());
    assert(p_hash(h, secret, server, 0) =~= Seq::<u8>::empty());
    assert(p_hash(h, secret, client, 1) =~= h(secret, a_client + client));
    assert(p_hash(h, secret, server, 1) =~= h(secret, a_server + server));
}

/// The keys of both directions, cut out of a key block.
#[derive(Debug)]
pub struct KeyMaterial {
    pub client_write_mac_key: Vec<u8>,
    pub server_write_mac_key: Vec<u8>,
    pub client_write_key: Vec<u8>,
    pub server_write_key: Vec<u8>,
    pub client_write_iv: Vec<u8>,
    pub server_write_iv: Vec<u8>,
}

impl KeyMaterial {
    /// Whether `self` is the key block `block` cut from the left into two
    /// MAC keys, two keys and two IVs of the given lengths, the client's
    /// before the server's each time.
    pub open spec fn cut_from(&self, block: Seq<u8>, mac_key_len: int, key_len: int, iv_len: int)
        -> bool {
        &&& self.client_write_mac_key@ == block.subrange(0, mac_key_len)
        &&& self.server_write_mac_key@ == block.subrange(mac_key_len, 2 * mac_key_len)
        &&& self.client_write_key@ == block.subrange(2 * mac_key_len, 2 * mac_key_len + key_len)
        &&& self.server_write_key@ == block.subrange(
            2 * mac_key_len + key_len,
            2 * mac_key_len + 2 * key_len,
        )
        &&& self.client_write_iv@ == block.subrange(
            2 * mac_key_len + 2 * key_len,
            2 * mac_key_len + 2 * key_len + iv_len,
        )
        &&& self.server_write_iv@ == block.subrange(
            2 * mac_key_len + 2 * key_len + iv_len,
            2 * mac_key_len + 2 * key_len + 2 * iv_len,
        )
    }

    /// Cuts a key block into the keys of both directions. A block that is
    /// shorter than the six parts together is a `Crypto` error; bytes
    /// beyond them are left alone.
    pub fn from_key_block(key_block: &[u8], mac_key_len: usize, key_len: usize, iv_len: usize) -> (r:
        Result<KeyMaterial, TlsError>)
        ensures
            r is Ok <==> 2 * (mac_key_len + key_len + iv_len) <= key_block@.len(),
            r matches Ok(keys) ==> keys.cut_from(
                key_block@,
                mac_key_len as int,
                key_len as int,
                iv_len as int,
            ),
            r matches Err(e) ==> e is Crypto,
    {
        let n = key_block.len();
        if mac_key_len > n || key_len > n || iv_len > n {
            return Err(TlsError::crypto("Key block too short"));
        }
        let need: u128 = 2 * (mac_key_len as u128 + key_len as u128 + iv_len as u128);
        if need > n as u128 {
            return Err(TlsError::crypto("Key block too short"));
        }
        let k0 = 2 * mac_key_len;
        let i0 = k0 + 2 * key_len;
        Ok(
            KeyMaterial {
                client_write_mac_key: copy_range(key_block, 0, mac_key_len),
                server_write_mac_key: copy_range(key_block, mac_key_len, k0),
                client_write_key: copy_range(key_block, k0, k0 + key_len),
                server_write_key: copy_range(key_block, k0 + key_len, i0),
                client_write_iv: copy_range(key_block, i0, i0 + iv_len),
                server_write_iv: copy_range(key_block, i0 + iv_len, i0 + 2 * iv_len),
            },
        )
    }
}

} // verus!
