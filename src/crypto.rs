//! Hashing and Ed25519 signatures, provided by the `sha2` and `ed25519-consensus` crates.
use vstd::prelude::*;
use sha2::Digest;

verus! {

/// The SHA-256 digest of `data`.
pub uninterp spec fn sha256_of(data: Seq<u8>) -> Seq<u8>;

/// The Ed25519 signature that the key with secret seed `seed` makes on `msg`.
pub uninterp spec fn ed25519_signature_of(seed: Seq<u8>, msg: Seq<u8>) -> Seq<u8>;

/// The encoded verification key of the key with secret seed `seed`.
pub uninterp spec fn ed25519_public_key_of(seed: Seq<u8>) -> Seq<u8>;

/// Whether `key` is the encoding of a point usable as a verification key.
pub uninterp spec fn ed25519_key_decodes(key: Seq<u8>) -> bool;

/// Whether the verification key encoded by `key` accepts the signature `sig` on `msg`.
pub uninterp spec fn ed25519_accepts(key: Seq<u8>, sig: Seq<u8>, msg: Seq<u8>) -> bool;

#[verifier::external_type_specification]
#[verifier::external_body]
pub struct ExSigningKey(ed25519_consensus::SigningKey);

#[verifier::external_type_specification]
#[verifier::external_body]
pub struct ExVerificationKey(ed25519_consensus::VerificationKey);

#[verifier::external_type_specification]
#[verifier::external_body]
pub struct ExSignature(ed25519_consensus::Signature);

/// An Ed25519 signing key, with the secret seed it was made from.
pub struct SequencerSigningKey {
    seed: [u8; 32],
    key: ed25519_consensus::SigningKey,
}

impl SequencerSigningKey {
    /// The secret seed of this key.
    pub closed spec fn seed(&self) -> Seq<u8> {
        self.seed@
    }

    /// The signing key with secret seed `seed`.
    pub fn from_seed(seed: [u8; 32]) -> (r: SequencerSigningKey)
        ensures
            r.seed() == seed@,
    {
        signing_key_from_seed(seed)
    }
}

/// A verification key, with the bytes it was decoded from.
pub struct VerifyingKey {
    bytes: Vec<u8>,
    key: ed25519_consensus::VerificationKey,
}

impl VerifyingKey {
    /// The bytes this key was decoded from.
    pub closed spec fn bytes(&self) -> Seq<u8> {
        self.bytes@
    }
}

/// A signature, with the bytes it was read from.
pub struct SignatureValue {
    bytes: Vec<u8>,
    sig: ed25519_consensus::Signature,
}

impl SignatureValue {
    /// The bytes this signature was read from.
    pub closed spec fn bytes(&self) -> Seq<u8> {
        self.bytes@
    }
}

/// Relies on `sha2::Sha256::digest`: the SHA-256 digest, which is 32 bytes long.
#[verifier::external_body]
pub(crate) fn sha256(data: &Vec<u8>) -> (r: Vec<u8>)
    ensures
        r@ == sha256_of(data@),
        r@.len() == 32,
{
    sha2::Sha256::digest(data.as_slice()).to_vec()
}

/// Relies on `From<[u8; 32]> for ed25519_consensus::SigningKey`: the key expanded from a seed.
#[verifier::external_body]
fn signing_key_from_seed(seed: [u8; 32]) -> (r: SequencerSigningKey)
    ensures
        r.seed() == seed@,
{
    SequencerSigningKey { seed, key: ed25519_consensus::SigningKey::from(seed) }
}

/// Relies on `ed25519_consensus::SigningKey::sign`: the 64-byte signature on `msg`,
/// which the key's own verification key accepts.
#[verifier::external_body]
pub(crate) fn sign_bytes(key: &SequencerSigningKey, msg: &Vec<u8>) -> (r: Vec<u8>)
    ensures
        r@ == ed25519_signature_of(key.seed(), msg@),
        r@.len() == 64,
        ed25519_accepts(ed25519_public_key_of(key.seed()), r@, msg@),
{
    key.key.sign(msg.as_slice()).to_bytes().to_vec()
}

/// Relies on `ed25519_consensus::SigningKey::verification_key`: the 32-byte encoded
/// verification key, which decodes as a verification key.
#[verifier::external_body]
pub(crate) fn verification_key_bytes(key: &SequencerSigningKey) -> (r: Vec<u8>)
    ensures
        r@ == ed25519_public_key_of(key.seed()),
        r@.len() == 32,
        ed25519_key_decodes(r@),
{
    key.key.verification_key().to_bytes().to_vec()
}

/// Relies on `TryFrom<&[u8]> for ed25519_consensus::VerificationKey`: it accepts only
/// 32 bytes that decode to a curve point.
#[verifier::external_body]
pub(crate) fn decode_verification_key(bytes: &Vec<u8>) -> (r: Option<VerifyingKey>)
    ensures
        r is Some <==> ed25519_key_decodes(bytes@),
        bytes@.len() != 32 ==> r is None,
        r matches Some(k) ==> k.bytes() == bytes@,
{
    match ed25519_consensus::VerificationKey::try_from(bytes.as_slice()) {
        Ok(key) => Some(VerifyingKey { bytes: bytes.clone(), key }),
        Err(_) => None,
    }
}

/// Relies on `TryFrom<&[u8]> for ed25519_consensus::Signature`: it accepts exactly
/// the slices of 64 bytes.
#[verifier::external_body]
pub(crate) fn decode_signature(bytes: &Vec<u8>) -> (r: Option<SignatureValue>)
    ensures
        r is Some <==> bytes@.len() == 64,
        r matches Some(s) ==> s.bytes() == bytes@,
{
    match ed25519_consensus::Signature::try_from(bytes.as_slice()) {
        Ok(sig) => Some(SignatureValue { bytes: bytes.clone(), sig }),
        Err(_) => None,
    }
}

/// Relies on `ed25519_consensus::VerificationKey::verify`: whether the key accepts the
/// signature on `msg`.
#[verifier::external_body]
pub(crate) fn verify_signature(key: &VerifyingKey, sig: &SignatureValue, msg: &Vec<u8>) -> (r:
    bool)
    ensures
        r == ed25519_accepts(key.bytes(), sig.bytes(), msg@),
{
    key.key.verify(&sig.sig, msg.as_slice()).is_ok()
}

} // verus!
