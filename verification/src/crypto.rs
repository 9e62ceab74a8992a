//! Calls into the BLAKE3 and Ed25519 libraries, with what their
//! documentation promises stated as contracts.

use vstd::prelude::*;
use vstd::multiset::Multiset;

verus! {

/// The 32-byte BLAKE3 digest (unkeyed, default output length) of `data`.
pub uninterp spec fn blake3_of(data: Seq<u8>) -> Seq<u8>;

/// Whether `signature` is a valid Ed25519 signature (ZIP 215 rules) of
/// `message` under the encoded verification key `public_key`.
pub uninterp spec fn ed25519_verifies(public_key: Seq<u8>, signature: Seq<u8>, message: Seq<u8>) -> bool;

/// The Ed25519 signature of `message` made with the signing key whose seed is `secret_key`.
pub uninterp spec fn ed25519_signature_of(secret_key: Seq<u8>, message: Seq<u8>) -> Seq<u8>;

/// Calls `blake3::hash`; the contract claims only that the result is the
/// BLAKE3 digest of the input, a function of the input bytes alone.
#[verifier::external_body]
pub(crate) fn blake3_digest(data: &[u8]) -> (res: [u8; 32])
    ensures
        res@ == blake3_of(data@),
{
    *blake3::hash(data).as_bytes()
}

/// Calls `ed25519_zebra::VerificationKey::try_from` on the key bytes and then
/// `VerificationKey::verify`; the contract claims the result is whether the
/// signature verifies, a function of the three byte strings alone.
#[verifier::external_body]
pub(crate) fn ed25519_verify(public_key: &[u8; 32], signature: &[u8; 64], message: &[u8]) -> (res: bool)
    ensures
        res == ed25519_verifies(public_key@, signature@, message@),
{
    let sig = ed25519_zebra::Signature::from_bytes(signature);
    ed25519_zebra::VerificationKey::try_from(ed25519_zebra::VerificationKeyBytes::from(*public_key))
        .and_then(|vk| vk.verify(&sig, message))
        .is_ok()
}

/// Calls `ed25519_zebra::SigningKey::from` on the 32-byte seed and then
/// `SigningKey::sign`; the contract claims the signature is a function of the
/// seed and the message alone (Ed25519 signing is deterministic).
#[verifier::external_body]
pub(crate) fn ed25519_sign(secret_key: &[u8; 32], message: &[u8]) -> (res: [u8; 64])
    ensures
        res@ == ed25519_signature_of(secret_key@, message@),
{
    ed25519_zebra::SigningKey::from(*secret_key).sign(message).to_bytes()
}

/// The 32-byte SHA-256 digest of `data`.
pub uninterp spec fn sha256_of(data: Seq<u8>) -> Seq<u8>;

/// Calls `sha2::Sha256::digest`; the contract claims only that the result is
/// the SHA-256 digest of the input, a function of the input bytes alone.
#[verifier::external_body]
pub(crate) fn sha256_digest(data: &[u8]) -> (res: [u8; 32])
    ensures
        res@ == sha256_of(data@),
{
    <sha2::Sha256 as sha2::Digest>::digest(data).into()
}

/// The order of the Ed25519 base point, the prime `l`.
pub open spec fn ed25519_group_order() -> nat {
    7237005577332262213973186563042994240857116359379907606001950938285454250989nat
}

/// The unsigned integer that `b` encodes, least significant byte first.
pub open spec fn le_value(b: Seq<u8>) -> nat
    decreases b.len(),
{
    if b.len() == 0 {
        0
    } else {
        b[0] as nat + 256 * le_value(b.drop_first())
    }
}

/// Whether the `s` half of a 64-byte Ed25519 signature (its last 32 bytes)
/// encodes an integer less than `l`, as the signature rules require.
pub open spec fn ed25519_s_canonical(signature: Seq<u8>) -> bool {
    le_value(signature.subrange(32, 64)) < ed25519_group_order()
}

/// The batch verifier of `ed25519_zebra`.
#[verifier::external_type_specification]
#[verifier::external_body]
pub struct ExBatchVerifier(ed25519_zebra::batch::Verifier);

/// The (key, signature, message) items queued in a batch verifier.
pub uninterp spec fn batch_queued(v: ed25519_zebra::batch::Verifier) -> Multiset<(Seq<u8>, Seq<u8>, Seq<u8>)>;

/// Calls `ed25519_zebra::batch::Verifier::new`: a verifier with nothing queued.
#[verifier::external_body]
pub(crate) fn batch_verifier_new() -> (res: ed25519_zebra::batch::Verifier)
    ensures
        batch_queued(res) == Multiset::<(Seq<u8>, Seq<u8>, Seq<u8>)>::empty(),
{
    ed25519_zebra::batch::Verifier::new()
}

/// Calls `ed25519_zebra::batch::Verifier::queue` with the key bytes, the
/// signature and the message: the item is added to those queued.
#[verifier::external_body]
pub(crate) fn batch_verifier_queue(
    verifier: &mut ed25519_zebra::batch::Verifier,
    public_key: &[u8; 32],
    signature: &[u8; 64],
    message: &[u8],
)
    ensures
        batch_queued(*final(verifier)) == batch_queued(*old(verifier)).insert(
            (public_key@, signature@, message@),
        ),
{
    let vk_bytes = ed25519_zebra::VerificationKeyBytes::from(*public_key);
    let sig = ed25519_zebra::Signature::from_bytes(signature);
    verifier.queue((vk_bytes, sig, message));
}

/// Calls `ed25519_zebra::batch::Verifier::verify` with `rand::thread_rng()`.
/// The crate documents that its batch verification agrees with individual
/// verification; because of the random coefficients only one direction holds
/// for every outcome: a batch of individually valid signatures is accepted.
/// While the batch is walked, each queued signature's `s` half is decoded
/// with `Scalar::from_canonical_bytes`, and the walk ends with an error at
/// the latest when it reaches one that is not less than `l` (random
/// coefficients for the items before it have been drawn by then, but play
/// no part in that error); so such a batch is always rejected, and the
/// contract claims that too.  That
/// a batch holding an otherwise invalid signature is rejected (with
/// overwhelming probability) is left unsaid.
#[verifier::external_body]
pub(crate) fn batch_verifier_verify(verifier: ed25519_zebra::batch::Verifier) -> (res: bool)
    ensures
        (forall|item: (Seq<u8>, Seq<u8>, Seq<u8>)|
            #[trigger] batch_queued(verifier).contains(item) ==> ed25519_verifies(
                item.0,
                item.1,
                item.2,
            )) ==> res,
        (exists|item: (Seq<u8>, Seq<u8>, Seq<u8>)|
            #[trigger] batch_queued(verifier).contains(item) && !ed25519_s_canonical(item.1))
            ==> !res,
{
    verifier.verify(rand::thread_rng()).is_ok()
}

} // verus!
