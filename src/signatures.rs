//! BLS signature checks and aggregation, by the BLS signature crate.
use vstd::prelude::*;
use dusk_bytes::Serializable;
use crate::bytes::{PublicKeyBytes, SignatureBytes};

verus! {

/// Whether `sig` is a valid BLS signature of `msg` by the public key `pk`
/// (key and signature in their compressed forms).
pub uninterp spec fn bls_signature_verifies(pk: Seq<u8>, sig: Seq<u8>, msg: Seq<u8>) -> bool;

/// Whether `sig` is a valid aggregate BLS signature of `msg` by all the
/// public keys `keys`.
pub uninterp spec fn bls_aggregate_verifies(keys: Seq<Seq<u8>>, sig: Seq<u8>, msg: Seq<u8>) -> bool;

/// Whether these bytes decode as a BLS signature (a point of G1).
pub uninterp spec fn bls_signature_decodes(sig: Seq<u8>) -> bool;

/// The aggregate of two BLS signatures.
pub uninterp spec fn bls_aggregate_of(a: Seq<u8>, b: Seq<u8>) -> Seq<u8>;

/// Relies on `dusk_bls12_381_sign::APK::verify`, with the key and the
/// signature decoded by their `from_bytes`: whether the signature verifies
/// depends on the bytes alone.
#[verifier::external_body]
pub(crate) fn bls_verify(pk: &PublicKeyBytes, sig: &SignatureBytes, msg: &[u8]) -> (r: bool)
    ensures
        r == bls_signature_verifies(pk@, sig@, msg@),
{
    match (dusk_bls12_381_sign::PublicKey::from_bytes(pk), dusk_bls12_381_sign::Signature::from_bytes(sig)) {
        (Ok(pk), Ok(sig)) => dusk_bls12_381_sign::APK::from(&pk).verify(&sig, msg).is_ok(),
        _ => false,
    }
}

/// Relies on `dusk_bls12_381_sign::APK::aggregate` and `APK::verify`, from
/// the empty aggregate key, with the keys and the signature decoded by their
/// `from_bytes`: whether the aggregate signature verifies depends on the
/// bytes alone.
#[verifier::external_body]
pub(crate) fn bls_verify_aggregate(keys: &Vec<PublicKeyBytes>, sig: &SignatureBytes, msg: &[u8]) -> (r: bool)
    ensures
        r == bls_aggregate_verifies(keys@.map_values(|k: PublicKeyBytes| k@), sig@, msg@),
{
    let pks: Result<Vec<dusk_bls12_381_sign::PublicKey>, _> =
        keys.iter().map(dusk_bls12_381_sign::PublicKey::from_bytes).collect();
    match (pks, dusk_bls12_381_sign::Signature::from_bytes(sig)) {
        (Ok(pks), Ok(sig)) => {
            let mut apk = dusk_bls12_381_sign::APK::default();
            apk.aggregate(&pks);
            apk.verify(&sig, msg).is_ok()
        },
        _ => false,
    }
}

/// Relies on `dusk_bls12_381_sign::Signature::aggregate`, with both
/// signatures decoded by `from_bytes` and the result encoded by `to_bytes`:
/// nothing when one does not decode, else the aggregate, which depends on the
/// bytes alone.
#[verifier::external_body]
pub(crate) fn bls_aggregate(a: &SignatureBytes, b: &SignatureBytes) -> (r: Option<SignatureBytes>)
    ensures
        r.is_some() == (bls_signature_decodes(a@) && bls_signature_decodes(b@)),
        r.is_some() ==> r.unwrap()@ == bls_aggregate_of(a@, b@),
{
    match (dusk_bls12_381_sign::Signature::from_bytes(a), dusk_bls12_381_sign::Signature::from_bytes(b)) {
        (Ok(x), Ok(y)) => Some(x.aggregate(&[y]).to_bytes()),
        _ => None,
    }
}

} // verus!
