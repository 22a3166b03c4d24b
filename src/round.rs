//! Per-round context and the decision of the local validator's vote.
use vstd::prelude::*;
use dusk_bytes::Serializable;
use crate::bytes::{bytes_eq, is_zero, is_zero_spec, Digest, PublicKeyBytes, SignatureBytes};
use crate::ledger::{Attestation, Header};
use crate::step_votes_reg::Vote;

verus! {

#[verifier::external_type_specification]
#[verifier::external_body]
pub struct ExSecretKey(dusk_bls12_381_sign::SecretKey);

/// Whether these bytes decode as a BLS public key (a point of G2 in
/// compressed form).
pub uninterp spec fn bls_key_decodes(bytes: Seq<u8>) -> bool;

/// Relies on `dusk_bls12_381_sign::PublicKey::from_bytes`: whether the bytes
/// decode as a public key depends on the bytes alone.
#[verifier::external_body]
fn decode_bls_key(bytes: &PublicKeyBytes) -> (r: bool)
    ensures
        r == bls_key_decodes(bytes@),
{
    dusk_bls12_381_sign::PublicKey::from_bytes(bytes).is_ok()
}

/// Relies on `dusk_bls12_381_sign::SecretKey::sign`, with the public key
/// derived from the secret key, and on `Signature::to_bytes`: a BLS
/// signature of `msg`, in its 48-byte form.
#[verifier::external_body]
fn bls_sign(sk: &dusk_bls12_381_sign::SecretKey, msg: &[u8]) -> (r: SignatureBytes) {
    let pk = dusk_bls12_381_sign::PublicKey::from(sk);
    sk.sign(&pk, msg).to_bytes()
}

/// Immutable context of one round, built from the tip it follows.
#[derive(Debug)]
pub struct RoundUpdate {
    /// Height of the block this round decides.
    pub round: u64,
    /// This provisioner's consensus keys.
    pub pubkey_bls: PublicKeyBytes,
    pub secret_key: dusk_bls12_381_sign::SecretKey,
    seed: SignatureBytes,
    hash: Digest,
    timestamp: u64,
    cert: Attestation,
}

impl RoundUpdate {
    pub closed spec fn round_spec(&self) -> u64 {
        self.round
    }

    pub closed spec fn pubkey_spec(&self) -> PublicKeyBytes {
        self.pubkey_bls
    }

    pub closed spec fn seed_spec(&self) -> SignatureBytes {
        self.seed
    }

    pub closed spec fn hash_spec(&self) -> Digest {
        self.hash
    }

    pub closed spec fn timestamp_spec(&self) -> u64 {
        self.timestamp
    }

    pub closed spec fn cert_spec(&self) -> Attestation {
        self.cert
    }

    /// The round that follows the most recent block `mrb`.
    pub fn new(pubkey_bls: PublicKeyBytes, secret_key: dusk_bls12_381_sign::SecretKey, mrb: &Header) -> (r: RoundUpdate)
        requires
            mrb.height < u64::MAX,
        ensures
            r.round_spec() == mrb.height + 1,
            r.pubkey_spec() == pubkey_bls,
            r.seed_spec() == mrb.seed,
            r.hash_spec() == mrb.hash,
            r.timestamp_spec() == mrb.timestamp,
            r.cert_spec() == mrb.att,
    {
        RoundUpdate {
            round: mrb.height + 1,
            pubkey_bls,
            secret_key,
            seed: mrb.seed,
            hash: mrb.hash,
            timestamp: mrb.timestamp,
            cert: mrb.att,
        }
    }

    /// The round number.
    pub fn round(&self) -> (r: u64)
        ensures
            r == self.round_spec(),
    {
        self.round
    }

    /// This provisioner's public key.
    pub fn pubkey(&self) -> (r: PublicKeyBytes)
        ensures
            r == self.pubkey_spec(),
    {
        self.pubkey_bls
    }

    /// Seed of the previous block.
    pub fn seed(&self) -> (r: SignatureBytes)
        ensures
            r == self.seed_spec(),
    {
        self.seed
    }

    /// Hash of the previous block.
    pub fn hash(&self) -> (r: Digest)
        ensures
            r == self.hash_spec(),
    {
        self.hash
    }

    /// Timestamp of the previous block.
    pub fn timestamp(&self) -> (r: u64)
        ensures
            r == self.timestamp_spec(),
    {
        self.timestamp
    }

    /// Attestation of the previous block.
    pub fn cert(&self) -> (r: &Attestation)
        ensures
            *r == self.cert_spec(),
    {
        &self.cert
    }

    /// Signs a message with this provisioner's key.
    pub fn sign(&self, msg: &[u8]) -> (r: SignatureBytes) {
        bls_sign(&self.secret_key, msg)
    }
}

/// The roots that verifying a state transition yields.
#[derive(Debug, Clone, Copy, PartialEq, Eq)]
pub struct VerificationOutput {
    pub state_root: Digest,
    pub event_hash: Digest,
}

/// What the vote decision reads of a candidate block.
#[derive(Debug, Clone, Copy, PartialEq, Eq)]
pub struct CandidateInfo {
    pub hash: Digest,
    pub state_hash: Digest,
    pub event_hash: Digest,
    pub generator_bls_pubkey: PublicKeyBytes,
}

/// Whether the state transition must be verified before voting: a candidate
/// was received, it is not the one verified last, and its generator key
/// decodes (given as `generator_key_valid`).
pub open spec fn needs_vst_spec(c: CandidateInfo, verified_hash: Digest, generator_key_valid: bool) -> bool {
    !is_zero_spec(c.hash@) && c.hash != verified_hash && generator_key_valid
}

/// The vote on a candidate: `NoCandidate` when none was received, when its
/// generator key does not decode, or when the state transition failed or
/// yields other roots than the header's; `Valid` otherwise, and at once for
/// the candidate verified last.
pub open spec fn vote_spec(c: CandidateInfo, verified_hash: Digest, generator_key_valid: bool, vst: Option<VerificationOutput>) -> Vote {
    if is_zero_spec(c.hash@) {
        Vote::NoCandidate
    } else if c.hash == verified_hash {
        Vote::Valid(c.hash)
    } else if !generator_key_valid {
        Vote::NoCandidate
    } else {
        match vst {
            None => Vote::NoCandidate,
            Some(o) => if o.event_hash == c.event_hash && o.state_root == c.state_hash {
                Vote::Valid(c.hash)
            } else {
                Vote::NoCandidate
            },
        }
    }
}

/// Decides the vote from the outcome of the key decoding and of the state
/// transition (`None` when the virtual machine failed or was not asked).
pub fn decide_vote(c: &CandidateInfo, verified_hash: &Digest, generator_key_valid: bool, vst: Option<VerificationOutput>) -> (r: Vote)
    ensures
        r == vote_spec(*c, *verified_hash, generator_key_valid, vst),
{
    if is_zero(&c.hash) {
        return Vote::NoCandidate;
    }
    if bytes_eq(&c.hash, verified_hash) {
        return Vote::Valid(c.hash);
    }
    if !generator_key_valid {
        return Vote::NoCandidate;
    }
    match vst {
        None => Vote::NoCandidate,
        Some(o) => {
            if bytes_eq(&o.event_hash, &c.event_hash) && bytes_eq(&o.state_root, &c.state_hash) {
                Vote::Valid(c.hash)
            } else {
                Vote::NoCandidate
            }
        },
    }
}

/// Whether the state transition of the candidate must be verified before
/// the vote is cast.
pub fn needs_vst(c: &CandidateInfo, verified_hash: &Digest) -> (r: bool)
    ensures
        r == needs_vst_spec(*c, *verified_hash, bls_key_decodes(c.generator_bls_pubkey@)),
{
    !is_zero(&c.hash) && !bytes_eq(&c.hash, verified_hash) && decode_bls_key(&c.generator_bls_pubkey)
}

/// Casts the local vote on a candidate, given the outcome of the state
/// transition when it was verified, and updates the hash verified last (to
/// the candidate's, unless the vote failed on a received candidate).
pub fn cast_vote(c: &CandidateInfo, verified_hash: &mut Digest, vst: Option<VerificationOutput>) -> (r: Vote)
    ensures
        r == vote_spec(*c, *old(verified_hash), bls_key_decodes(c.generator_bls_pubkey@), vst),
        *final(verified_hash) == if r is Valid || is_zero_spec(c.hash@) { c.hash } else { *old(verified_hash) },
{
    let key_valid = decode_bls_key(&c.generator_bls_pubkey);
    let v = decide_vote(c, verified_hash, key_valid, vst);
    let keep = match v {
        Vote::Valid(_) => false,
        _ => !is_zero(&c.hash),
    };
    if !keep {
        *verified_hash = c.hash;
    }
    v
}

} // verus!
