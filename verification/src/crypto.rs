//! Hashes and signatures, as outside crates compute them.
use crate::primitives::{Address, B256};
use vstd::prelude::*;

verus! {

/// The Keccak-256 hash of `bytes`.
pub uninterp spec fn keccak256_of(bytes: Seq<u8>) -> B256;

/// Calls `alloy_primitives::keccak256`. Claimed is that the hash depends on the
/// bytes alone.
#[verifier::external_body]
pub(crate) fn keccak256(bytes: &[u8]) -> (hash: B256)
    ensures
        hash == keccak256_of(bytes@),
{
    alloy_primitives::keccak256(bytes).0
}

/// The BLAKE3 hash of `bytes`.
pub uninterp spec fn blake3_of(bytes: Seq<u8>) -> B256;

/// Calls `blake3::hash`. Claimed is that the hash depends on the bytes alone.
#[verifier::external_body]
pub(crate) fn blake3_hash(bytes: &[u8]) -> (hash: B256)
    ensures
        hash == blake3_of(bytes@),
{
    *blake3::hash(bytes).as_bytes()
}

/// The address of the account with this private key, where the key is valid.
pub uninterp spec fn address_of_key(key: B256) -> Option<Address>;

/// Calls `PrivateKeySigner::from_bytes` of `alloy_signer_local` and takes the
/// signer's address. Claimed is that the outcome depends on the key alone.
#[verifier::external_body]
pub(crate) fn key_address(key: &B256) -> (address: Option<Address>)
    ensures
        address == address_of_key(*key),
{
    let signer = alloy_signer_local::PrivateKeySigner::from_bytes(&(*key).into()).ok()?;
    Some(signer.address().into_array())
}

/// The recoverable signature of `hash` under a private key, as 65 bytes, where
/// the key is valid and signing succeeds.
pub uninterp spec fn signature_of(key: B256, hash: B256) -> Option<[u8; 65]>;

/// The signature's first number, 32 bytes from the highest down, needs more than
/// 17 of them.
pub open spec fn has_high_coordinate(signature: Seq<u8>) -> bool {
    exists|i: int| 0 <= i < 15 && #[trigger] signature[i] != 0
}

/// Calls `SignerSync::sign_hash_sync` of `alloy_signer` on the signer for the
/// key. Claimed is that the outcome depends on key and hash alone, as nonces are
/// derived from them, that a signature is encoded with a known parity, and that
/// one whose first number is high leads back to the key's address, by
/// `Signature::from_raw` and `recover_address_from_prehash`. That number is the
/// coordinate of a curve point, less the group order where it is not below that.
/// The encoding does not tell whether it was reduced, and recovery takes it that
/// it was not. A reduced one is below the difference of field and group order,
/// which takes 17 bytes, so a high one is the coordinate itself. Of a low one
/// nothing is claimed.
#[verifier::external_body]
pub(crate) fn sign_hash(key: &B256, hash: &B256) -> (signature: Option<[u8; 65]>)
    ensures
        signature == signature_of(*key, *hash),
        signature matches Some(s) ==> well_formed_signature(s@),
        signature matches Some(s) ==> has_high_coordinate(s@) ==> recovered_signer(s@, *hash)
            == address_of_key(*key),
{
    let signer = alloy_signer_local::PrivateKeySigner::from_bytes(&(*key).into()).ok()?;
    let signature = alloy_signer::SignerSync::sign_hash_sync(&signer, &(*hash).into()).ok()?;
    Some(signature.as_bytes())
}

/// A raw signature has 65 bytes, and the last of them is one of the known
/// encodings of the parity.
pub open spec fn well_formed_signature(bytes: Seq<u8>) -> bool {
    &&& bytes.len() == 65
    &&& {
        let v = bytes[64];
        v == 0 || v == 1 || v == 27 || v == 28 || v >= 35
    }
}

/// Calls `alloy_primitives::Signature::from_raw`, which accepts 65 bytes whose
/// last one is 0, 1, 27, 28 or at least 35, and nothing else.
#[verifier::external_body]
pub(crate) fn signature_is_well_formed(bytes: &[u8]) -> (ok: bool)
    ensures
        ok == well_formed_signature(bytes@),
{
    alloy_primitives::Signature::from_raw(bytes).is_ok()
}

/// The address whose key made the raw signature of `hash`, where one can be
/// recovered.
pub uninterp spec fn recovered_signer(signature: Seq<u8>, hash: B256) -> Option<Address>;

/// Calls `alloy_primitives::Signature::recover_address_from_prehash` on the
/// parsed signature. Claimed is that the outcome depends on signature and hash
/// alone.
#[verifier::external_body]
pub(crate) fn recover_signer(signature: &[u8], hash: &B256) -> (address: Option<Address>)
    ensures
        address == recovered_signer(signature@, *hash),
{
    let parsed = alloy_primitives::Signature::from_raw(signature).ok()?;
    let address = parsed.recover_address_from_prehash(&(*hash).into()).ok()?;
    Some(address.into_array())
}

} // verus!
