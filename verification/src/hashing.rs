//! The digest that anchors a state: SHA-256 over the state's CBOR encoding.

use vstd::prelude::*;

use sha2::{Digest, Sha256};

use crate::cbor::cbor_encoding;
use crate::encoding::state_tree;
use crate::model::{CircleState, CircleView};

verus! {

/// The SHA-256 digest of the bytes, as `sha2::Sha256` computes it.
pub uninterp spec fn sha256(data: Seq<u8>) -> Seq<u8>;

/// Feeds the bytes to a fresh `sha2::Sha256` and returns what `finalize`
/// gives. The digest depends on the bytes alone; the contract gives it its
/// name and claims nothing more of it.
#[verifier::external_body]
fn sha256_digest(data: &[u8]) -> (digest: [u8; 32])
    ensures
        digest@ == sha256(data@),
{
    let mut hasher = Sha256::new();
    hasher.update(data);
    let mut digest = [0u8; 32];
    digest.copy_from_slice(&hasher.finalize());
    digest
}

/// The digest of an encoding, and 32 zero bytes where there is no encoding.
pub open spec fn digest_of_encoding(encoded: Option<Seq<u8>>) -> Seq<u8> {
    match encoded {
        Some(bytes) => sha256(bytes),
        None => Seq::new(32, |k: int| 0u8),
    }
}

/// The digest of a state: that of the encoding of its CBOR item.
pub open spec fn state_digest(state: CircleView) -> Seq<u8> {
    digest_of_encoding(cbor_encoding(state_tree(state)))
}

/// The digest of an encoding, and 32 zero bytes where the encoder gave none.
pub fn digest_encoded(encoded: &Option<Vec<u8>>) -> (digest: [u8; 32])
    ensures
        digest@ == digest_of_encoding(
            match encoded {
                Some(bytes) => Some(bytes@),
                None => None,
            },
        ),
{
    match encoded {
        Some(bytes) => sha256_digest(bytes.as_slice()),
        None => [0u8; 32],
    }
}

impl CircleState {
    /// The digest that stands for this state in the chain of states: SHA-256
    /// over the CBOR encoding of all twelve fields, and 32 zero bytes where
    /// the encoder reports an error. The same state always has the same
    /// digest.
    pub fn state_hash(&self) -> (hash: [u8; 32])
        ensures
            hash@ == state_digest(self@),
    {
        let encoded = self.to_cbor().to_bytes();
        digest_encoded(&encoded)
    }
}

} // verus!
