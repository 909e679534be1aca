//! Checking that an address signed a message, per network family.
use vstd::prelude::*;
use crate::codec::read_array;
use crate::primitives::{AddressModel, BlockchainNetwork, VaneMultiAddress};

verus! {

/// Whether the sr25519 `signature` over `message` verifies against `public`.
pub uninterp spec fn sr25519_accepts(signature: Seq<u8>, message: Seq<u8>, public: Seq<u8>) -> bool;

/// Relies on sp_core's `sr25519::Pair::verify`: the schnorrkel check of a
/// 64-byte signature over `message` under the 32-byte public key, which depends
/// on the three byte strings alone.
#[verifier::external_body]
fn sr25519_verify(signature: &[u8; 64], message: &[u8], public: &[u8; 32]) -> (r: bool)
    ensures
        r == sr25519_accepts(signature@, message@, public@),
{
    <sp_core::sr25519::Pair as sp_core::Pair>::verify(
        &sp_core::sr25519::Signature::from_raw(*signature),
        message,
        &sp_core::sr25519::Public::from_raw(*public),
    )
}

/// A signature scheme that a network family signs with.
#[derive(Debug, Clone, Copy, PartialEq, Eq, Structural)]
pub enum SignatureScheme {
    Sr25519,
}

/// Why a signature could not be checked.
#[derive(Debug, Clone, Copy, PartialEq, Eq, Structural)]
pub enum VerifyError {
    /// The address has no public key of the scheme.
    AddressConversion,
    /// The signature bytes are not a signature of the scheme.
    BadSignatureEncoding,
}

/// The scheme that a network signs with, if it is supported.
pub open spec fn scheme_of(network: BlockchainNetwork) -> Option<SignatureScheme> {
    match network {
        BlockchainNetwork::Polkadot | BlockchainNetwork::Kusama => Some(SignatureScheme::Sr25519),
        _ => None,
    }
}

pub fn scheme_for(network: BlockchainNetwork) -> (r: Option<SignatureScheme>)
    ensures
        r == scheme_of(network),
{
    match network {
        BlockchainNetwork::Polkadot | BlockchainNetwork::Kusama => Some(SignatureScheme::Sr25519),
        _ => None,
    }
}

/// The sr25519 public key that an address carries, if it carries one.
pub open spec fn sr25519_public_of(a: AddressModel) -> Option<Seq<u8>> {
    match a {
        AddressModel::Id(k) => Some(k),
        AddressModel::Address32(k) => Some(k),
        _ => None,
    }
}

/// What checking `signature` by `address` over `message` under `scheme` gives.
pub open spec fn verify_outcome(
    address: AddressModel,
    message: Seq<u8>,
    signature: Seq<u8>,
    scheme: SignatureScheme,
) -> Result<bool, VerifyError> {
    match scheme {
        SignatureScheme::Sr25519 => if signature.len() != 64 {
            Err(VerifyError::BadSignatureEncoding)
        } else {
            match sr25519_public_of(address) {
                Some(public) => Ok(sr25519_accepts(signature, message, public)),
                None => Err(VerifyError::AddressConversion),
            }
        },
    }
}

/// Checks that `address` signed `message`: `Ok(false)` for a well-formed
/// signature that does not verify.
pub fn verify(address: &VaneMultiAddress, message: &[u8], signature: &Vec<u8>, scheme: SignatureScheme) -> (r: Result<bool, VerifyError>)
    ensures
        r == verify_outcome(address@, message@, signature@, scheme),
{
    match scheme {
        SignatureScheme::Sr25519 => {
            if signature.len() != 64 {
                return Err(VerifyError::BadSignatureEncoding);
            }
            let sig = read_array::<64>(signature, 0);
            assert(sig@ =~= signature@);
            match address {
                VaneMultiAddress::Id(k) => Ok(sr25519_verify(&sig, message, k)),
                VaneMultiAddress::Address32(k) => Ok(sr25519_verify(&sig, message, k)),
                _ => Err(VerifyError::AddressConversion),
            }
        },
    }
}

} // verus!
