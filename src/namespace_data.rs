//! The two payloads written to the data-availability network, and the signed
//! envelope that carries either of them.
use vstd::prelude::*;
use crate::bytes::{
    enc_field, lemma_field_round_trip, lemma_u64_round_trip, parse_field, parse_u64, push_field,
    push_u64, read_field, read_u64, u64_be,
};
use crate::codec::{
    enc_nss, enc_txs, lemma_skip_skip, lemma_nss_round_trip, lemma_txs_round_trip, parse_nss, parse_txs, push_nss,
    push_txs, read_nss, read_txs,
};
use crate::crypto::{
    decode_signature, decode_verification_key, ed25519_accepts, ed25519_key_decodes,
    ed25519_public_key_of, ed25519_signature_of, sha256, sha256_of, sign_bytes,
    verification_key_bytes, verify_signature, SequencerSigningKey, VerifyingKey,
};
use crate::types::{
    IndexedTransaction, Namespace, NAMESPACE_LEN, namespaces_view, opt_bytes_view, txs_view,
};

verus! {

/// The model of the data written to a rollup namespace.
pub struct RollupView {
    pub block_hash: Seq<u8>,
    pub txs: Seq<(u64, Seq<u8>)>,
}

/// The model of the data written to the base namespace.
pub struct SequencerView {
    pub block_hash: Seq<u8>,
    pub header: Seq<u8>,
    pub last_commit: Option<Seq<u8>>,
    pub namespaces: Seq<Seq<u8>>,
}

/// The data written to a rollup namespace: the hash of the block it belongs
/// to and the rollup's transactions in order.
#[derive(Debug, Clone, PartialEq, Eq)]
pub struct RollupNamespaceData {
    pub block_hash: Vec<u8>,
    pub rollup_txs: Vec<IndexedTransaction>,
}

impl View for RollupNamespaceData {
    type V = RollupView;

    open spec fn view(&self) -> RollupView {
        RollupView { block_hash: self.block_hash@, txs: txs_view(self.rollup_txs@) }
    }
}

/// The data written to the base namespace: the block's hash, header and
/// commit, and the rollup namespaces that were written for the block.
#[derive(Debug, Clone, PartialEq, Eq)]
pub struct SequencerNamespaceData {
    pub block_hash: Vec<u8>,
    pub header: Vec<u8>,
    pub last_commit: Option<Vec<u8>>,
    pub rollup_namespaces: Vec<Namespace>,
}

impl View for SequencerNamespaceData {
    type V = SequencerView;

    open spec fn view(&self) -> SequencerView {
        SequencerView {
            block_hash: self.block_hash@,
            header: self.header@,
            last_commit: opt_bytes_view(self.last_commit),
            namespaces: namespaces_view(self.rollup_namespaces@),
        }
    }
}

/// Rollup data: block hash as a field, the number of transactions, the transactions.
pub open spec fn enc_rollup(v: RollupView) -> Seq<u8> {
    enc_field(v.block_hash) + u64_be(v.txs.len() as u64) + enc_txs(v.txs)
}

/// Reading rollup data that takes up all of `b`.
pub open spec fn parse_rollup(b: Seq<u8>) -> Option<RollupView> {
    match parse_field(b) {
        Some((h, k1)) => match parse_u64(b.skip(k1 as int)) {
            Some(n) => match parse_txs(b.skip((k1 + 8) as int), n as nat) {
                Some((txs, k2)) => if k1 + 8 + k2 == b.len() {
                    Some(RollupView { block_hash: h, txs })
                } else {
                    None
                },
                None => None,
            },
            None => None,
        },
        None => None,
    }
}

/// An optional field: a zero byte when absent, else a one byte and the field.
pub open spec fn enc_opt(o: Option<Seq<u8>>) -> Seq<u8> {
    match o {
        Some(f) => seq![1u8] + enc_field(f),
        None => seq![0u8],
    }
}

/// Reading an optional field from the front of `b`.
pub open spec fn parse_opt(b: Seq<u8>) -> Option<(Option<Seq<u8>>, nat)> {
    if b.len() == 0 {
        None
    } else if b[0] == 0 {
        Some((None, 1))
    } else if b[0] == 1 {
        match parse_field(b.skip(1)) {
            Some((f, k)) => Some((Some(f), 1 + k)),
            None => None,
        }
    } else {
        None
    }
}

/// Sequencer data: block hash, header, optional commit, the number of
/// namespaces, the namespaces.
pub open spec fn enc_sequencer(v: SequencerView) -> Seq<u8> {
    enc_field(v.block_hash) + enc_field(v.header) + enc_opt(v.last_commit) + u64_be(
        v.namespaces.len() as u64,
    ) + enc_nss(v.namespaces)
}

/// Reading sequencer data that takes up all of `b`.
pub open spec fn parse_sequencer(b: Seq<u8>) -> Option<SequencerView> {
    match parse_field(b) {
        Some((h, k1)) => match parse_field(b.skip(k1 as int)) {
            Some((hd, k2)) => match parse_opt(b.skip((k1 + k2) as int)) {
                Some((c, k3)) => match parse_u64(b.skip((k1 + k2 + k3) as int)) {
                    Some(n) => match parse_nss(b.skip((k1 + k2 + k3 + 8) as int), n as nat) {
                        Some((nss, k4)) => if k1 + k2 + k3 + 8 + k4 == b.len() {
                            Some(
                                SequencerView {
                                    block_hash: h,
                                    header: hd,
                                    last_commit: c,
                                    namespaces: nss,
                                },
                            )
                        } else {
                            None
                        },
                        None => None,
                    },
                    None => None,
                },
                None => None,
            },
            None => None,
        },
        None => None,
    }
}

/// An envelope: the payload, the public key and the signature, each as a field.
pub open spec fn enc_envelope(payload: Seq<u8>, key: Seq<u8>, sig: Seq<u8>) -> Seq<u8> {
    enc_field(payload) + enc_field(key) + enc_field(sig)
}

/// Reading an envelope that takes up all of `b`: payload, public key, signature.
pub open spec fn parse_envelope(b: Seq<u8>) -> Option<(Seq<u8>, Seq<u8>, Seq<u8>)> {
    match parse_field(b) {
        Some((p, k1)) => match parse_field(b.skip(k1 as int)) {
            Some((k, k2)) => match parse_field(b.skip((k1 + k2) as int)) {
                Some((s, k3)) => if k1 + k2 + k3 == b.len() {
                    Some((p, k, s))
                } else {
                    None
                },
                None => None,
            },
            None => None,
        },
        None => None,
    }
}

/// Reading an envelope that carries rollup data.
pub open spec fn parse_signed_rollup(b: Seq<u8>) -> Option<(RollupView, Seq<u8>, Seq<u8>)> {
    match parse_envelope(b) {
        Some((p, k, s)) => match parse_rollup(p) {
            Some(d) => Some((d, k, s)),
            None => None,
        },
        None => None,
    }
}

/// Reading an envelope that carries sequencer data.
pub open spec fn parse_signed_sequencer(b: Seq<u8>) -> Option<(SequencerView, Seq<u8>, Seq<u8>)> {
    match parse_envelope(b) {
        Some((p, k, s)) => match parse_sequencer(p) {
            Some(d) => Some((d, k, s)),
            None => None,
        },
        None => None,
    }
}

/// Why an envelope failed verification.
#[derive(Debug, Clone, Copy, PartialEq, Eq, Structural)]
pub enum VerificationError {
    /// The stored public key is not a valid verification key.
    MalformedKey,
    /// The stored signature does not have the length of a signature.
    MalformedSignature,
    /// The signature does not match the payload's hash under the key.
    SignatureMismatch,
}

/// What checking signature bytes `sig` on the payload with hash `digest` under an
/// already decoded key `key` gives.
pub open spec fn signature_check(key: Seq<u8>, sig: Seq<u8>, digest: Seq<u8>) -> Result<
    (),
    VerificationError,
> {
    if sig.len() != 64 {
        Err(VerificationError::MalformedSignature)
    } else if !ed25519_accepts(key, sig, digest) {
        Err(VerificationError::SignatureMismatch)
    } else {
        Ok(())
    }
}

/// What verifying an envelope with public key `key`, signature `sig` and encoded
/// payload `payload` gives.
pub open spec fn verification_outcome(key: Seq<u8>, sig: Seq<u8>, payload: Seq<u8>) -> Result<
    (),
    VerificationError,
> {
    if !ed25519_key_decodes(key) {
        Err(VerificationError::MalformedKey)
    } else {
        signature_check(key, sig, sha256_of(payload))
    }
}

/// Checks signature bytes against a payload hash under a decoded key.
pub fn check_signature(key: &VerifyingKey, sig: &Vec<u8>, digest: &Vec<u8>) -> (r: Result<
    (),
    VerificationError,
>)
    ensures
        r == signature_check(key.bytes(), sig@, digest@),
{
    match decode_signature(sig) {
        None => Err(VerificationError::MalformedSignature),
        Some(s) => if verify_signature(key, &s, digest) {
            Ok(())
        } else {
            Err(VerificationError::SignatureMismatch)
        },
    }
}

/// A payload that can be written to a namespace: it has a byte encoding, which
/// is hashed and signed.
pub trait NamespaceData: Sized {
    /// The encoding of this payload.
    spec fn payload(&self) -> Seq<u8>;

    /// Encodes this payload.
    fn to_bytes(&self) -> (r: Vec<u8>)
        ensures
            r@ == self.payload(),
    ;

    /// The SHA-256 digest of this payload's encoding.
    fn hash_serialized_bytes(&self) -> (r: Vec<u8>)
        ensures
            r@ == sha256_of(self.payload()),
            r@.len() == 32,
    {
        let b = self.to_bytes();
        sha256(&b)
    }

    /// Signs the digest of this payload's encoding and wraps the payload, the
    /// signer's public key and the signature into an envelope.
    fn to_signed(self, signing_key: &SequencerSigningKey) -> (r: SignedNamespaceData<Self>)
        ensures
            r.data == self,
            r.public_key@ == ed25519_public_key_of(signing_key.seed()),
            r.signature@ == ed25519_signature_of(signing_key.seed(), sha256_of(self.payload())),
            r.public_key@.len() == 32,
            r.signature@.len() == 64,
            ed25519_key_decodes(r.public_key@),
            ed25519_accepts(r.public_key@, r.signature@, sha256_of(self.payload())),
    {
        let hash = self.hash_serialized_bytes();
        let signature = sign_bytes(signing_key, &hash);
        let public_key = verification_key_bytes(signing_key);
        SignedNamespaceData { data: self, public_key, signature }
    }
}

impl NamespaceData for RollupNamespaceData {
    open spec fn payload(&self) -> Seq<u8> {
        enc_rollup(self@)
    }

    fn to_bytes(&self) -> (r: Vec<u8>) {
        let mut out: Vec<u8> = Vec::new();
        push_field(&mut out, &self.block_hash);
        push_u64(&mut out, self.rollup_txs.len() as u64);
        push_txs(&mut out, &self.rollup_txs);
        assert(out@ =~= enc_rollup(self@));
        out
    }
}

impl NamespaceData for SequencerNamespaceData {
    open spec fn payload(&self) -> Seq<u8> {
        enc_sequencer(self@)
    }

    fn to_bytes(&self) -> (r: Vec<u8>) {
        let mut out: Vec<u8> = Vec::new();
        push_field(&mut out, &self.block_hash);
        push_field(&mut out, &self.header);
        match &self.last_commit {
            Some(c) => {
                out.push(1u8);
                push_field(&mut out, c);
            },
            None => {
                out.push(0u8);
            },
        }
        push_u64(&mut out, self.rollup_namespaces.len() as u64);
        push_nss(&mut out, &self.rollup_namespaces);
        assert(out@ =~= enc_sequencer(self@));
        out
    }
}

/// A payload together with the public key of its signer and the signature on
/// the digest of its encoding.
#[derive(Debug, Clone, PartialEq, Eq)]
pub struct SignedNamespaceData<D> {
    pub data: D,
    pub public_key: Vec<u8>,
    pub signature: Vec<u8>,
}

impl<D: NamespaceData> SignedNamespaceData<D> {
    /// The envelope of `data` with the given key and signature bytes.
    pub fn new(data: D, public_key: Vec<u8>, signature: Vec<u8>) -> (r: Self)
        ensures
            r.data == data,
            r.public_key == public_key,
            r.signature == signature,
    {
        SignedNamespaceData { data, public_key, signature }
    }

    /// The encoding of this envelope.
    pub open spec fn encoded(&self) -> Seq<u8> {
        enc_envelope(self.data.payload(), self.public_key@, self.signature@)
    }

    /// Encodes this envelope.
    pub fn to_bytes(&self) -> (r: Vec<u8>)
        ensures
            r@ == self.encoded(),
    {
        let payload = self.data.to_bytes();
        let mut out: Vec<u8> = Vec::new();
        push_field(&mut out, &payload);
        push_field(&mut out, &self.public_key);
        push_field(&mut out, &self.signature);
        assert(out@ =~= self.encoded());
        out
    }

    /// Whether the stored public key decodes as a verification key.
    pub fn has_valid_key(&self) -> (r: bool)
        ensures
            r == ed25519_key_decodes(self.public_key@),
            self.public_key@.len() != 32 ==> !r,
    {
        decode_verification_key(&self.public_key).is_some()
    }

    /// Checks that the stored signature is a signature on the digest of the
    /// payload's encoding under the stored public key.
    pub fn verify(&self) -> (r: Result<(), VerificationError>)
        ensures
            r == verification_outcome(self.public_key@, self.signature@, self.data.payload()),
            self.public_key@.len() != 32 ==> r == Err::<(), VerificationError>(
                VerificationError::MalformedKey,
            ),
    {
        let key = match decode_verification_key(&self.public_key) {
            Some(k) => k,
            None => return Err(VerificationError::MalformedKey),
        };
        let digest = self.data.hash_serialized_bytes();
        check_signature(&key, &self.signature, &digest)
    }
}


/// Reads the optional field at `pos` of `b`, and the position just after it.
fn read_opt(b: &Vec<u8>, pos: usize) -> (r: Option<(Option<Vec<u8>>, usize)>)
    requires
        pos <= b.len(),
    ensures
        match r {
            Some((o, next)) => parse_opt(b@.skip(pos as int)) == Some(
                (opt_bytes_view(o), (next - pos) as nat),
            ) && pos <= next <= b.len(),
            None => parse_opt(b@.skip(pos as int)) is None,
        },
{
    if pos >= b.len() {
        return None;
    }
    let tag = b[pos];
    assert(b@.skip(pos as int)[0] == tag);
    if tag == 0u8 {
        return Some((None, pos + 1));
    }
    if tag != 1u8 {
        return None;
    }
    proof {
        lemma_skip_skip(b@, pos as int, 1);
    }
    match read_field(b, pos + 1) {
        Some((f, next)) => Some((Some(f), next)),
        None => None,
    }
}

/// Decodes rollup data that takes up all of `b`.
fn decode_rollup(b: &Vec<u8>) -> (r: Option<RollupNamespaceData>)
    ensures
        match r {
            Some(d) => parse_rollup(b@) == Some(d@),
            None => parse_rollup(b@) is None,
        },
{
    assert(b@.skip(0) =~= b@);
    let (block_hash, p) = match read_field(b, 0) {
        Some(x) => x,
        None => return None,
    };
    let n = match read_u64(b, p) {
        Some(n) => n,
        None => return None,
    };
    let (rollup_txs, q) = match read_txs(b, p + 8, n) {
        Some(x) => x,
        None => return None,
    };
    if q != b.len() {
        return None;
    }
    Some(RollupNamespaceData { block_hash, rollup_txs })
}

/// Decodes sequencer data that takes up all of `b`.
#[verifier::rlimit(60)]
fn decode_sequencer(b: &Vec<u8>) -> (r: Option<SequencerNamespaceData>)
    ensures
        match r {
            Some(d) => parse_sequencer(b@) == Some(d@) && forall|i: int|
                0 <= i < d.rollup_namespaces@.len() ==> (#[trigger] d.rollup_namespaces@[i]).wf(),
            None => parse_sequencer(b@) is None,
        },
{
    assert(b@.skip(0) =~= b@);
    let (block_hash, after_hash) = match read_field(b, 0) {
        Some(x) => x,
        None => return None,
    };
    let (header, after_header) = match read_field(b, after_hash) {
        Some(x) => x,
        None => return None,
    };
    let (last_commit, after_commit) = match read_opt(b, after_header) {
        Some(x) => x,
        None => return None,
    };
    let n = match read_u64(b, after_commit) {
        Some(n) => n,
        None => return None,
    };
    let (rollup_namespaces, q) = match read_nss(b, after_commit + 8, n) {
        Some(x) => x,
        None => return None,
    };
    if q != b.len() {
        return None;
    }
    let r = SequencerNamespaceData { block_hash, header, last_commit, rollup_namespaces };
    assert(parse_sequencer(b@) == Some(r@));
    Some(r)
}

/// Splits an envelope that takes up all of `b` into payload, public key and signature.
fn decode_envelope(b: &Vec<u8>) -> (r: Option<(Vec<u8>, Vec<u8>, Vec<u8>)>)
    ensures
        match r {
            Some((p, k, s)) => parse_envelope(b@) == Some((p@, k@, s@)),
            None => parse_envelope(b@) is None,
        },
{
    assert(b@.skip(0) =~= b@);
    let (payload, after_payload) = match read_field(b, 0) {
        Some(x) => x,
        None => return None,
    };
    let (public_key, after_key) = match read_field(b, after_payload) {
        Some(x) => x,
        None => return None,
    };
    let (signature, after_sig) = match read_field(b, after_key) {
        Some(x) => x,
        None => return None,
    };
    if after_sig != b.len() {
        return None;
    }
    Some((payload, public_key, signature))
}

impl SignedNamespaceData<RollupNamespaceData> {
    /// Decodes an envelope that carries rollup data.
    pub fn from_bytes(bytes: &Vec<u8>) -> (r: Option<Self>)
        ensures
            match r {
                Some(e) => parse_signed_rollup(bytes@) == Some(
                    (e.data@, e.public_key@, e.signature@),
                ),
                None => parse_signed_rollup(bytes@) is None,
            },
    {
        let (payload, public_key, signature) = match decode_envelope(bytes) {
            Some(x) => x,
            None => return None,
        };
        match decode_rollup(&payload) {
            Some(data) => Some(SignedNamespaceData { data, public_key, signature }),
            None => None,
        }
    }
}

impl SignedNamespaceData<SequencerNamespaceData> {
    /// Decodes an envelope that carries sequencer data.
    pub fn from_bytes(bytes: &Vec<u8>) -> (r: Option<Self>)
        ensures
            match r {
                Some(e) => parse_signed_sequencer(bytes@) == Some(
                    (e.data@, e.public_key@, e.signature@),
                ) && forall|i: int|
                    0 <= i < e.data.rollup_namespaces@.len()
                        ==> (#[trigger] e.data.rollup_namespaces@[i]).wf(),
                None => parse_signed_sequencer(bytes@) is None,
            },
    {
        let (payload, public_key, signature) = match decode_envelope(bytes) {
            Some(x) => x,
            None => return None,
        };
        match decode_sequencer(&payload) {
            Some(data) => Some(SignedNamespaceData { data, public_key, signature }),
            None => None,
        }
    }
}

/// Whether every byte string in a view fits a length field.
pub open spec fn txs_fit(txs: Seq<(u64, Seq<u8>)>) -> bool {
    &&& txs.len() <= u64::MAX
    &&& forall|i: int| 0 <= i < txs.len() ==> (#[trigger] txs[i]).1.len() <= u64::MAX
}

/// Rollup data decodes from its encoding.
pub proof fn lemma_rollup_round_trip(v: RollupView)
    requires
        v.block_hash.len() <= u64::MAX,
        txs_fit(v.txs),
    ensures
        parse_rollup(enc_rollup(v)) == Some(v),
{
    let n = v.txs.len() as u64;
    let b = enc_rollup(v);
    let tail = u64_be(n) + enc_txs(v.txs);
    assert(b =~= enc_field(v.block_hash) + tail);
    lemma_field_round_trip(v.block_hash, tail);
    let k1 = enc_field(v.block_hash).len();
    assert(b.skip(k1 as int) =~= tail);
    lemma_u64_round_trip(n, enc_txs(v.txs));
    assert(b.skip((k1 + 8) as int) =~= enc_txs(v.txs) + Seq::<u8>::empty());
    lemma_txs_round_trip(v.txs, Seq::<u8>::empty());
}

/// Sequencer data decodes from its encoding.
#[verifier::rlimit(60)]
pub proof fn lemma_sequencer_round_trip(v: SequencerView)
    requires
        v.block_hash.len() <= u64::MAX,
        v.header.len() <= u64::MAX,
        v.last_commit matches Some(c) ==> c.len() <= u64::MAX,
        v.namespaces.len() <= u64::MAX,
        forall|i: int| 0 <= i < v.namespaces.len() ==> (#[trigger] v.namespaces[i]).len() == NAMESPACE_LEN,
    ensures
        parse_sequencer(enc_sequencer(v)) == Some(v),
{
    let n = v.namespaces.len() as u64;
    let b = enc_sequencer(v);
    let t4 = u64_be(n) + enc_nss(v.namespaces);
    let t3 = enc_opt(v.last_commit) + t4;
    let t2 = enc_field(v.header) + t3;
    assert(b =~= enc_field(v.block_hash) + t2);
    lemma_field_round_trip(v.block_hash, t2);
    let k1 = enc_field(v.block_hash).len();
    assert(b.skip(k1 as int) =~= t2);
    lemma_field_round_trip(v.header, t3);
    let k2 = enc_field(v.header).len();
    assert(b.skip((k1 + k2) as int) =~= t3);
    let k3 = enc_opt(v.last_commit).len();
    match v.last_commit {
        Some(c) => {
            assert(t3.skip(1) =~= enc_field(c) + t4);
            lemma_field_round_trip(c, t4);
        },
        None => {},
    }
    assert(parse_opt(t3) == Some((v.last_commit, k3)));
    assert(b.skip((k1 + k2 + k3) as int) =~= t4);
    lemma_u64_round_trip(n, enc_nss(v.namespaces));
    assert(b.skip((k1 + k2 + k3 + 8) as int) =~= enc_nss(v.namespaces) + Seq::<u8>::empty());
    lemma_nss_round_trip(v.namespaces, Seq::<u8>::empty());
    assert(parse_field(b) == Some((v.block_hash, k1)));
    assert(parse_field(b.skip(k1 as int)) == Some((v.header, k2)));
    assert(parse_opt(b.skip((k1 + k2) as int)) == Some((v.last_commit, k3)));
    assert(parse_u64(b.skip((k1 + k2 + k3) as int)) == Some(n));
    assert(parse_nss(b.skip((k1 + k2 + k3 + 8) as int), n as nat) == Some(
        (v.namespaces, enc_nss(v.namespaces).len()),
    ));
    assert(k1 + k2 + k3 + 8 + enc_nss(v.namespaces).len() == b.len());
}

/// An envelope splits back into the payload, key and signature it was made from.
pub proof fn lemma_envelope_round_trip(payload: Seq<u8>, key: Seq<u8>, sig: Seq<u8>)
    requires
        payload.len() <= u64::MAX,
        key.len() <= u64::MAX,
        sig.len() <= u64::MAX,
    ensures
        parse_envelope(enc_envelope(payload, key, sig)) == Some((payload, key, sig)),
{
    let b = enc_envelope(payload, key, sig);
    let t2 = enc_field(key) + enc_field(sig);
    assert(b =~= enc_field(payload) + t2);
    lemma_field_round_trip(payload, t2);
    let k1 = enc_field(payload).len();
    assert(b.skip(k1 as int) =~= t2);
    lemma_field_round_trip(key, enc_field(sig));
    let k2 = enc_field(key).len();
    assert(b.skip((k1 + k2) as int) =~= enc_field(sig) + Seq::<u8>::empty());
    lemma_field_round_trip(sig, Seq::<u8>::empty());
}

/// A signed rollup envelope decodes into the rollup data, key and signature it was made from.
pub proof fn lemma_signed_rollup_round_trip(v: RollupView, key: Seq<u8>, sig: Seq<u8>)
    requires
        v.block_hash.len() <= u64::MAX,
        txs_fit(v.txs),
        enc_rollup(v).len() <= u64::MAX,
        key.len() <= u64::MAX,
        sig.len() <= u64::MAX,
    ensures
        parse_signed_rollup(enc_envelope(enc_rollup(v), key, sig)) == Some((v, key, sig)),
{
    lemma_rollup_round_trip(v);
    lemma_envelope_round_trip(enc_rollup(v), key, sig);
}

} // verus!
