//! The TLS 1.3 key schedule: a chain of HMACs from the shared secret to
//! the traffic keys.
//!
//! HMAC is computed outside. A part of the schedule is a `Derivation`: a
//! list of steps, each one HMAC whose key is either given or the outcome
//! of an earlier step. It hands out one request at a time and takes the
//! answer back in.

use vstd::prelude::*;
use vstd::slice::slice_to_vec;
use crate::tls::codec::{be16_bytes, copy_range, push_all, push_u16};
use crate::tls::error::TlsError;
use crate::tls::prf::{HashAlgorithm, HmacRequest};

verus! {

/// Where the key of a step comes from.
#[derive(Debug)]
pub enum KeySource {
    /// These bytes.
    Given(Vec<u8>),
    /// The outcome of the step with this number.
    Step(usize),
}

/// One HMAC of a derivation.
#[derive(Debug)]
pub struct Step {
    pub key: KeySource,
    pub data: Vec<u8>,
    /// How many bytes of the HMAC are the outcome.
    pub keep: usize,
}

/// A chain of HMACs in progress.
#[derive(Debug)]
pub struct Derivation {
    pub hash: HashAlgorithm,
    pub steps: Vec<Step>,
    /// The outcomes of the steps answered so far.
    pub outcomes: Vec<Vec<u8>>,
}

/// The label of a derived secret or key: the length asked for, then
/// `"tls13 "` and `label` behind one length byte, then `context` behind
/// another.
pub open spec fn hkdf_label(length: int, label: Seq<u8>, context: Seq<u8>) -> Seq<u8> {
    be16_bytes(length) + seq![(6 + label.len()) as u8] + seq![
        0x74u8,
        0x6cu8,
        0x73u8,
        0x31u8,
        0x33u8,
        0x20u8,
    ] + label + seq![context.len() as u8] + context
}

/// The data of the HMAC that expands a secret under a label: the label
/// and the block counter 1.
pub open spec fn expand_data(length: int, label: Seq<u8>, context: Seq<u8>) -> Seq<u8> {
    hkdf_label(length, label, context).push(1u8)
}

/// Builds the data of the HMAC that expands a secret under a label.
pub fn make_expand_data(length: u16, label: &[u8], context: &[u8]) -> (out: Vec<u8>)
    requires
        label@.len() <= 249,
        context@.len() <= 255,
    ensures
        out@ == expand_data(length as int, label@, context@),
{
    let mut out: Vec<u8> = Vec::new();
    push_u16(&mut out, length);
    out.push((6 + label.len()) as u8);
    let prefix: [u8; 6] = [0x74, 0x6c, 0x73, 0x31, 0x33, 0x20];
    push_all(&mut out, vstd::array::array_as_slice(&prefix));
    push_all(&mut out, label);
    out.push(context.len() as u8);
    push_all(&mut out, context);
    out.push(1);
    out
}

/// The key of a step, given the outcomes so far.
pub open spec fn key_of(source: KeySource, outcomes: Seq<Vec<u8>>) -> Seq<u8> {
    match source {
        KeySource::Given(bytes) => bytes@,
        KeySource::Step(i) => outcomes[i as int]@,
    }
}

impl Derivation {
    /// Whether the derivation is one this module builds: a step takes its
    /// key from an earlier step only, keeps no more than the hash gives,
    /// and the outcomes are those of the first steps.
    pub open spec fn wf(&self) -> bool {
        &&& self.outcomes@.len() <= self.steps@.len()
        &&& forall|k: int|
            0 <= k < self.steps@.len() ==> {
                &&& (#[trigger] self.steps@[k]).keep <= self.hash.spec_output_len()
                &&& self.steps@[k].key matches KeySource::Step(i) ==> i < k
            }
        &&& forall|k: int|
            0 <= k < self.outcomes@.len() ==> (#[trigger] self.outcomes@[k])@.len()
                == self.steps@[k].keep
    }

    /// Checks at run time that the derivation is one this module builds.
    pub fn is_well_formed(&self) -> (ok: bool)
        ensures
            ok == self.wf(),
    {
        if self.outcomes.len() > self.steps.len() {
            return false;
        }
        let limit = self.hash.output_len();
        let mut k: usize = 0;
        while k < self.steps.len()
            invariant
                k <= self.steps@.len(),
                limit == self.hash.spec_output_len(),
                self.outcomes@.len() <= self.steps@.len(),
                forall|j: int|
                    0 <= j < k ==> {
                        &&& (#[trigger] self.steps@[j]).keep <= self.hash.spec_output_len()
                        &&& self.steps@[j].key matches KeySource::Step(i) ==> i < j
                        &&& j < self.outcomes@.len() ==> self.outcomes@[j]@.len()
                            == self.steps@[j].keep
                    },
            decreases self.steps@.len() - k,
        {
            if self.steps[k].keep > limit {
                return false;
            }
            match &self.steps[k].key {
                KeySource::Step(i) => {
                    if *i >= k {
                        return false;
                    }
                },
                KeySource::Given(_) => {},
            }
            if k < self.outcomes.len() && self.outcomes[k].len() != self.steps[k].keep {
                return false;
            }
            k += 1;
        }
        true
    }

    /// Whether every step has been answered.
    pub open spec fn is_done(&self) -> bool {
        self.outcomes@.len() == self.steps@.len()
    }

    /// Whether every step has been answered.
    pub fn done(&self) -> (done: bool)
        requires
            self.wf(),
        ensures
            done == self.is_done(),
    {
        self.outcomes.len() == self.steps.len()
    }

    /// The next HMAC to compute, or `None` once every step is answered:
    /// the data of the first open step under its key.
    pub fn request(&self) -> (r: Option<HmacRequest>)
        requires
            self.wf(),
        ensures
            r is None <==> self.is_done(),
            r matches Some(req) ==> {
                &&& req.hash == self.hash
                &&& req.key@ == key_of(
                    self.steps@[self.outcomes@.len() as int].key,
                    self.outcomes@,
                )
                &&& req.data@ == self.steps@[self.outcomes@.len() as int].data@
            },
    {
        let k = self.outcomes.len();
        if k == self.steps.len() {
            return None;
        }
        let step = &self.steps[k];
        let key = match &step.key {
            KeySource::Given(bytes) => slice_to_vec(bytes.as_slice()),
            KeySource::Step(i) => slice_to_vec(self.outcomes[*i].as_slice()),
        };
        Some(HmacRequest { hash: self.hash, key, data: slice_to_vec(step.data.as_slice()) })
    }

    /// Takes in the answer to the last request: its first bytes, as many
    /// as the step keeps, are the outcome of the step. An answer that is
    /// not as long as a tag of this hash, or one that nothing asked for,
    /// is a `Crypto` error and changes nothing.
    pub fn respond(&mut self, mac: &[u8]) -> (r: Result<(), TlsError>)
        requires
            old(self).wf(),
        ensures
            final(self).wf(),
            final(self).hash == old(self).hash,
            final(self).steps == old(self).steps,
            r is Ok <==> !old(self).is_done() && mac@.len() == old(self).hash.spec_output_len(),
            r is Ok ==> {
                let k = old(self).outcomes@.len() as int;
                &&& final(self).outcomes@.len() == k + 1
                &&& final(self).outcomes@.subrange(0, k) == old(self).outcomes@
                &&& final(self).outcomes@[k]@ == mac@.take(old(self).steps@[k].keep as int)
            },
            r matches Err(e) ==> e is Crypto && final(self).outcomes == old(self).outcomes,
    {
        let k = self.outcomes.len();
        if k == self.steps.len() {
            return Err(TlsError::crypto("No HMAC was asked for"));
        }
        if mac.len() != self.hash.output_len() {
            return Err(TlsError::crypto("HMAC output has the wrong length"));
        }
        let outcome = copy_range(mac, 0, self.steps[k].keep);
        self.outcomes.push(outcome);
        Ok(())
    }

    /// The outcome of step `i`, once that step has been answered.
    pub fn outcome(&self, i: usize) -> (r: Option<Vec<u8>>)
        ensures
            r is Some <==> i < self.outcomes@.len(),
            r matches Some(bytes) ==> bytes@ == self.outcomes@[i as int]@,
    {
        if i < self.outcomes.len() {
            Some(slice_to_vec(self.outcomes[i].as_slice()))
        } else {
            None
        }
    }
}

/// The model of `KeySource` in contracts.
pub ghost enum KeyView {
    Given(Seq<u8>),
    Step(int),
}

/// The model of `Step` in contracts.
pub ghost struct StepView {
    pub key: KeyView,
    pub data: Seq<u8>,
    pub keep: int,
}

impl View for Step {
    type V = StepView;

    open spec fn view(&self) -> StepView {
        StepView {
            key: match self.key {
                KeySource::Given(bytes) => KeyView::Given(bytes@),
                KeySource::Step(i) => KeyView::Step(i as int),
            },
            data: self.data@,
            keep: self.keep as int,
        }
    }
}

/// Whether `d` is a fresh derivation with the steps `plan`.
pub open spec fn starts(d: Derivation, hash: HashAlgorithm, plan: Seq<StepView>) -> bool {
    &&& d.wf()
    &&& d.hash == hash
    &&& d.outcomes@.len() == 0
    &&& d.steps@.len() == plan.len()
    &&& forall|k: int| 0 <= k < plan.len() ==> (#[trigger] d.steps@[k])@ == plan[k]
}

/// `n` zero bytes.
pub open spec fn zeros(n: int) -> Seq<u8> {
    Seq::new(n as nat, |i: int| 0u8)
}

/// `"derived"`
pub open spec fn label_derived() -> Seq<u8> {
    seq![0x64u8, 0x65u8, 0x72u8, 0x69u8, 0x76u8, 0x65u8, 0x64u8]
}

/// `"c hs traffic"` for the client, `"s hs traffic"` for the server.
pub open spec fn label_handshake_traffic(is_client: bool) -> Seq<u8> {
    seq![
        if is_client {
            0x63u8
        } else {
            0x73u8
        },
        0x20u8,
        0x68u8,
        0x73u8,
        0x20u8,
        0x74u8,
        0x72u8,
        0x61u8,
        0x66u8,
        0x66u8,
        0x69u8,
        0x63u8,
    ]
}

/// `"c ap traffic"` for the client, `"s ap traffic"` for the server.
pub open spec fn label_application_traffic(is_client: bool) -> Seq<u8> {
    seq![
        if is_client {
            0x63u8
        } else {
            0x73u8
        },
        0x20u8,
        0x61u8,
        0x70u8,
        0x20u8,
        0x74u8,
        0x72u8,
        0x61u8,
        0x66u8,
        0x66u8,
        0x69u8,
        0x63u8,
    ]
}

/// `"key"`
pub open spec fn label_key() -> Seq<u8> {
    seq![0x6bu8, 0x65u8, 0x79u8]
}

/// `"iv"`
pub open spec fn label_iv() -> Seq<u8> {
    seq![0x69u8, 0x76u8]
}

/// `"finished"`
pub open spec fn label_finished_key() -> Seq<u8> {
    seq![0x66u8, 0x69u8, 0x6eu8, 0x69u8, 0x73u8, 0x68u8, 0x65u8, 0x64u8]
}

/// The steps from the shared secret to the handshake traffic secrets and
/// the master secret, for a hash of `len` bytes: the early secret from
/// zeros; the secret derived from it; the handshake secret from that and
/// the shared secret; the traffic secrets of client and server over the
/// transcript hash `hello_hash`; the secret derived from the handshake
/// secret; and the master secret from that and zeros.
pub open spec fn handshake_plan(
    len: int,
    shared_secret: Seq<u8>,
    empty_hash: Seq<u8>,
    hello_hash: Seq<u8>,
) -> Seq<StepView> {
    seq![
        StepView { key: KeyView::Given(zeros(len)), data: zeros(len), keep: len },
        StepView {
            key: KeyView::Step(0),
            data: expand_data(len, label_derived(), empty_hash),
            keep: len,
        },
        StepView { key: KeyView::Step(1), data: shared_secret, keep: len },
        StepView {
            key: KeyView::Step(2),
            data: expand_data(len, label_handshake_traffic(true), hello_hash),
            keep: len,
        },
        StepView {
            key: KeyView::Step(2),
            data: expand_data(len, label_handshake_traffic(false), hello_hash),
            keep: len,
        },
        StepView {
            key: KeyView::Step(2),
            data: expand_data(len, label_derived(), empty_hash),
            keep: len,
        },
        StepView { key: KeyView::Step(5), data: zeros(len), keep: len },
    ]
}

/// The number of the step of a handshake derivation whose outcome is the
/// client's handshake traffic secret.
pub const CLIENT_HANDSHAKE_SECRET: usize = 3;

/// The number of the step of a handshake derivation whose outcome is the
/// server's handshake traffic secret.
pub const SERVER_HANDSHAKE_SECRET: usize = 4;

/// The number of the step of a handshake derivation whose outcome is the
/// master secret.
pub const MASTER_SECRET: usize = 6;

/// The steps from the master secret to the application traffic secrets of
/// client and server, over the transcript hash `finished_hash`.
pub open spec fn application_plan(len: int, master_secret: Seq<u8>, finished_hash: Seq<u8>) -> Seq<
    StepView,
> {
    seq![
        StepView {
            key: KeyView::Given(master_secret),
            data: expand_data(len, label_application_traffic(true), finished_hash),
            keep: len,
        },
        StepView {
            key: KeyView::Given(master_secret),
            data: expand_data(len, label_application_traffic(false), finished_hash),
            keep: len,
        },
    ]
}

/// The steps from a traffic secret to the key, the IV and the key of the
/// Finished message of its direction.
pub open spec fn traffic_plan(len: int, secret: Seq<u8>, key_len: int) -> Seq<StepView> {
    seq![
        StepView {
            key: KeyView::Given(secret),
            data: expand_data(key_len, label_key(), Seq::empty()),
            keep: key_len,
        },
        StepView {
            key: KeyView::Given(secret),
            data: expand_data(12, label_iv(), Seq::empty()),
            keep: 12,
        },
        StepView {
            key: KeyView::Given(secret),
            data: expand_data(len, label_finished_key(), Seq::empty()),
            keep: len,
        },
    ]
}

/// `n` zero bytes.
fn make_zeros(n: usize) -> (out: Vec<u8>)
    ensures
        out@ == zeros(n as int),
{
    let mut out: Vec<u8> = Vec::new();
    let mut i: usize = 0;
    while i < n
        invariant
            i <= n,
            out@ == zeros(i as int),
        decreases n - i,
    {
        out.push(0);
        i += 1;
    }
    out
}

/// Starts the derivation of the handshake traffic secrets and the master
/// secret from the shared secret, the hash of the empty string and the
/// transcript hash up to the ServerHello. Hashes of another length than
/// `hash` gives are a `Crypto` error.
pub fn handshake_secrets(
    hash: HashAlgorithm,
    shared_secret: &[u8],
    empty_hash: &[u8],
    hello_hash: &[u8],
) -> (r: Result<Derivation, TlsError>)
    ensures
        r is Ok <==> empty_hash@.len() == hash.spec_output_len() && hello_hash@.len()
            == hash.spec_output_len(),
        r matches Ok(d) ==> starts(
            d,
            hash,
            handshake_plan(hash.spec_output_len(), shared_secret@, empty_hash@, hello_hash@),
        ),
        r matches Err(e) ==> e is Crypto,
{
    let len = hash.output_len();
    if empty_hash.len() != len || hello_hash.len() != len {
        return Err(TlsError::crypto("Transcript hash has the wrong length"));
    }
    let derived: [u8; 7] = [0x64, 0x65, 0x72, 0x69, 0x76, 0x65, 0x64];
    let client: [u8; 12] = [0x63, 0x20, 0x68, 0x73, 0x20, 0x74, 0x72, 0x61, 0x66, 0x66, 0x69, 0x63];
    let server: [u8; 12] = [0x73, 0x20, 0x68, 0x73, 0x20, 0x74, 0x72, 0x61, 0x66, 0x66, 0x69, 0x63];
    let mut steps: Vec<Step> = Vec::new();
    steps.push(Step { key: KeySource::Given(make_zeros(len)), data: make_zeros(len), keep: len });
    steps.push(
        Step {
            key: KeySource::Step(0),
            data: make_expand_data(len as u16, vstd::array::array_as_slice(&derived), empty_hash),
            keep: len,
        },
    );
    steps.push(Step { key: KeySource::Step(1), data: slice_to_vec(shared_secret), keep: len });
    steps.push(
        Step {
            key: KeySource::Step(2),
            data: make_expand_data(len as u16, vstd::array::array_as_slice(&client), hello_hash),
            keep: len,
        },
    );
    steps.push(
        Step {
            key: KeySource::Step(2),
            data: make_expand_data(len as u16, vstd::array::array_as_slice(&server), hello_hash),
            keep: len,
        },
    );
    steps.push(
        Step {
            key: KeySource::Step(2),
            data: make_expand_data(len as u16, vstd::array::array_as_slice(&derived), empty_hash),
            keep: len,
        },
    );
    steps.push(Step { key: KeySource::Step(5), data: make_zeros(len), keep: len });
    Ok(Derivation { hash, steps, outcomes: Vec::new() })
}

/// Starts the derivation of the application traffic secrets from the
/// master secret and the transcript hash up to the server's Finished. A
/// hash of another length than `hash` gives is a `Crypto` error.
pub fn application_secrets(hash: HashAlgorithm, master_secret: &[u8], finished_hash: &[u8]) -> (r:
    Result<Derivation, TlsError>)
    ensures
        r is Ok <==> finished_hash@.len() == hash.spec_output_len(),
        r matches Ok(d) ==> starts(
            d,
            hash,
            application_plan(hash.spec_output_len(), master_secret@, finished_hash@),
        ),
        r matches Err(e) ==> e is Crypto,
{
    let len = hash.output_len();
    if finished_hash.len() != len {
        return Err(TlsError::crypto("Transcript hash has the wrong length"));
    }
    let client: [u8; 12] = [0x63, 0x20, 0x61, 0x70, 0x20, 0x74, 0x72, 0x61, 0x66, 0x66, 0x69, 0x63];
    let server: [u8; 12] = [0x73, 0x20, 0x61, 0x70, 0x20, 0x74, 0x72, 0x61, 0x66, 0x66, 0x69, 0x63];
    let mut steps: Vec<Step> = Vec::new();
    steps.push(
        Step {
            key: KeySource::Given(slice_to_vec(master_secret)),
            data: make_expand_data(len as u16, vstd::array::array_as_slice(&client), finished_hash),
            keep: len,
        },
    );
    steps.push(
        Step {
            key: KeySource::Given(slice_to_vec(master_secret)),
            data: make_expand_data(len as u16, vstd::array::array_as_slice(&server), finished_hash),
            keep: len,
        },
    );
    Ok(Derivation { hash, steps, outcomes: Vec::new() })
}

/// Starts the derivation of the key, the IV and the Finished key of one
/// direction from its traffic secret. A key length other than 16 or 32
/// bytes, or one beyond what the hash gives, is a `Crypto` error.
pub fn traffic_keys(hash: HashAlgorithm, secret: &[u8], key_len: usize) -> (r: Result<
    Derivation,
    TlsError,
>)
    ensures
        r is Ok <==> (key_len == 16 || key_len == 32) && key_len <= hash.spec_output_len(),
        r matches Ok(d) ==> starts(
            d,
            hash,
            traffic_plan(hash.spec_output_len(), secret@, key_len as int),
        ),
        r matches Err(e) ==> e is Crypto,
{
    let len = hash.output_len();
    if (key_len != 16 && key_len != 32) || key_len > len {
        return Err(TlsError::crypto("Unsupported key length"));
    }
    let key: [u8; 3] = [0x6b, 0x65, 0x79];
    let iv: [u8; 2] = [0x69, 0x76];
    let finished: [u8; 8] = [0x66, 0x69, 0x6e, 0x69, 0x73, 0x68, 0x65, 0x64];
    let empty: Vec<u8> = Vec::new();
    let mut steps: Vec<Step> = Vec::new();
    steps.push(
        Step {
            key: KeySource::Given(slice_to_vec(secret)),
            data: make_expand_data(
                key_len as u16,
                vstd::array::array_as_slice(&key),
                empty.as_slice(),
            ),
            keep: key_len,
        },
    );
    steps.push(
        Step {
            key: KeySource::Given(slice_to_vec(secret)),
            data: make_expand_data(12, vstd::array::array_as_slice(&iv), empty.as_slice()),
            keep: 12,
        },
    );
    steps.push(
        Step {
            key: KeySource::Given(slice_to_vec(secret)),
            data: make_expand_data(
                len as u16,
                vstd::array::array_as_slice(&finished),
                empty.as_slice(),
            ),
            keep: len,
        },
    );
    Ok(Derivation { hash, steps, outcomes: Vec::new() })
}

/// The request for the verify data of a Finished message: the HMAC of the
/// transcript hash under the Finished key of the sender.
pub fn finished_request(hash: HashAlgorithm, finished_key: &[u8], transcript_hash: &[u8]) -> (req:
    HmacRequest)
    ensures
        req.hash == hash,
        req.key@ == finished_key@,
        req.data@ == transcript_hash@,
{
    HmacRequest { hash, key: slice_to_vec(finished_key), data: slice_to_vec(transcript_hash) }
}

/// What a server signs in its CertificateVerify message over the
/// transcript hash `transcript_hash`: 64 spaces, the words
/// `TLS 1.3, server CertificateVerify`, a zero byte, and the hash.
pub open spec fn certificate_verify_content(transcript_hash: Seq<u8>) -> Seq<u8> {
    Seq::new(64, |i: int| 0x20u8) + seq![
        0x54u8,
        0x4cu8,
        0x53u8,
        0x20u8,
        0x31u8,
        0x2eu8,
        0x33u8,
        0x2cu8,
        0x20u8,
        0x73u8,
        0x65u8,
        0x72u8,
        0x76u8,
        0x65u8,
        0x72u8,
        0x20u8,
        0x43u8,
        0x65u8,
        0x72u8,
        0x74u8,
        0x69u8,
        0x66u8,
        0x69u8,
        0x63u8,
        0x61u8,
        0x74u8,
        0x65u8,
        0x56u8,
        0x65u8,
        0x72u8,
        0x69u8,
        0x66u8,
        0x79u8,
        0x00u8,
    ] + transcript_hash
}

/// Builds what a server signs in its CertificateVerify message.
pub fn certificate_verify_input(transcript_hash: &[u8]) -> (out: Vec<u8>)
    ensures
        out@ == certificate_verify_content(transcript_hash@),
{
    let mut out: Vec<u8> = Vec::new();
    let mut i: usize = 0;
    while i < 64
        invariant
            i <= 64,
            out@ == Seq::new(i as nat, |k: int| 0x20u8),
        decreases 64 - i,
    {
        out.push(0x20);
        i += 1;
    }
    let words: [u8; 34] = [
        0x54,
        0x4c,
        0x53,
        0x20,
        0x31,
        0x2e,
        0x33,
        0x2c,
        0x20,
        0x73,
        0x65,
        0x72,
        0x76,
        0x65,
        0x72,
        0x20,
        0x43,
        0x65,
        0x72,
        0x74,
        0x69,
        0x66,
        0x69,
        0x63,
        0x61,
        0x74,
        0x65,
        0x56,
        0x65,
        0x72,
        0x69,
        0x66,
        0x79,
        0x00,
    ];
    push_all(&mut out, vstd::array::array_as_slice(&words));
    push_all(&mut out, transcript_hash);
    out
}

/// The secret that a keyed function `h` extracts from `salt` and `input`.
pub open spec fn extract(h: spec_fn(Seq<u8>, Seq<u8>) -> Seq<u8>, salt: Seq<u8>, input: Seq<u8>)
    -> Seq<u8> {
    h(salt, input)
}

/// The `len` bytes that `h` expands `secret` to under `label` and
/// `context`, for `len` up to the length of one output of `h`.
pub open spec fn expand_label(
    h: spec_fn(Seq<u8>, Seq<u8>) -> Seq<u8>,
    secret: Seq<u8>,
    label: Seq<u8>,
    context: Seq<u8>,
    len: int,
) -> Seq<u8> {
    h(secret, expand_data(len, label, context)).take(len)
}

/// Whether `outcomes` are what the steps `plan` come to when every request
/// is answered by `h`.
pub open spec fn answered_by(
    plan: Seq<StepView>,
    h: spec_fn(Seq<u8>, Seq<u8>) -> Seq<u8>,
    outcomes: Seq<Seq<u8>>,
) -> bool {
    outcomes.len() == plan.len() && forall|k: int|
        0 <= k < plan.len() ==> #[trigger] outcomes[k] == h(
            match plan[k].key {
                KeyView::Given(bytes) => bytes,
                KeyView::Step(i) => outcomes[i],
            },
            plan[k].data,
        ).take(plan[k].keep)
}

/// A handshake derivation whose requests are all answered by one keyed
/// function yields the secrets of the key schedule: the handshake secret
/// is extracted from the shared secret under the secret derived from the
/// early secret, the traffic secrets are expanded from it over the
/// transcript hash, and the master secret is extracted from zeros under
/// the secret derived from the handshake secret.
pub proof fn lemma_handshake_secrets(
    h: spec_fn(Seq<u8>, Seq<u8>) -> Seq<u8>,
    len: int,
    shared_secret: Seq<u8>,
    empty_hash: Seq<u8>,
    hello_hash: Seq<u8>,
    outcomes: Seq<Seq<u8>>,
)
    requires
        forall|key: Seq<u8>, data: Seq<u8>| #[trigger] h(key, data).len() == len,
        answered_by(handshake_plan(len, shared_secret, empty_hash, hello_hash), h, outcomes),
    ensures
        ({
            let early = extract(h, zeros(len), zeros(len));
            let handshake = extract(
                h,
                expand_label(h, early, label_derived(), empty_hash, len),
                shared_secret,
            );
            let master = extract(
                h,
                expand_label(h, handshake, label_derived(), empty_hash, len),
                zeros(len),
            );
            &&& outcomes[3] == expand_label(
                h,
                handshake,
                label_handshake_traffic(true),
                hello_hash,
                len,
            )
            &&& outcomes[4] == expand_label(
                h,
                handshake,
                label_handshake_traffic(false),
                hello_hash,
                len,
            )
            &&& outcomes[6] == master
        }),
{
    assert(forall|key: Seq<u8>, data: Seq<u8>| #[trigger] h(key, data).take(len) =~= h(key, data));
}

} // verus!
