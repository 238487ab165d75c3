//! A RingCT-style confidential transaction engine over a BLS12-381-class
//! curve.  A spender assembles a transaction that hides which of a ring of
//! candidate inputs is really being spent, hides the transferred amounts
//! behind Pedersen commitments, and certifies with range proofs and a
//! homomorphic balance check that no value is created or destroyed.
//!
//! Group elements and scalars are carried as their canonical compressed
//! encodings; the curve, range-proof and hashing subsystems are reached
//! through a small set of trusted wrappers in [`curve`].  Randomness is
//! drawn from the operating system inside those wrappers rather than
//! passed in by the caller, and the contracts state only what holds of
//! every draw.
use vstd::prelude::*;

pub mod bytes;
pub mod curve;
pub mod commitment;
pub mod mlsag;
pub mod ringct;

verus! {

/// A transaction amount: the range-proof width is fixed at 64 bits, so no
/// larger value can exist.
pub type Amount = u64;

/// Every failure the engine can report at its API boundary.
#[derive(Debug, Clone, Copy, PartialEq, Eq, Structural)]
pub enum Error {
    /// Signing material held no inputs.
    NoInputs,
    /// Signing material held no outputs.
    NoOutputs,
    /// A transaction under verification held no inputs.
    TransactionMustHaveAnInput,
    /// A ring signature did not verify against the signing message.
    InvalidSignature,
    /// A range proof could not be produced or did not verify.
    RangeProofFailure,
    /// Two inputs of one transaction carried the same key image.
    KeyImageNotUniqueAcrossInputs,
    /// One public key appeared twice across the rings of a transaction.
    PublicKeyNotUniqueAcrossInputs,
    /// The pseudo-commitments did not sum to the output commitments.
    CommitmentsDoNotBalance,
    /// Bytes could not be decoded as a point or scalar.
    MalformedEncoding,
}

} // verus!
