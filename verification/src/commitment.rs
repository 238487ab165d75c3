//! The revealed form of a Pedersen commitment: value and blinding together,
//! retained by the party who may later open or spend it.
use vstd::prelude::*;

use crate::curve::{g1_commit, g1_commit_of, sc_of_u64, sc_random, FieldScalar, GroupPoint};
use crate::Amount;

verus! {

/// The pair (value, blinding).  The committed point is a deterministic
/// function of the pair, and two revealed commitments are equivalent exactly
/// when both fields match.
pub struct RevealedCommitment {
    pub value: Amount,
    pub blinding: FieldScalar,
}

impl RevealedCommitment {
    /// The compressed point this pair commits to: `value·G_v + blinding·G_b`.
    pub open spec fn commit_spec(self) -> Seq<u8> {
        g1_commit_of(sc_of_u64(self.value), self.blinding@)
    }

    /// Commits to the pair under the fixed Pedersen generator pair.
    pub fn commit(&self) -> (r: GroupPoint)
        ensures
            r@ == self.commit_spec(),
    {
        let v = FieldScalar::from_u64(self.value);
        g1_commit(&v, &self.blinding)
    }

    /// A commitment to `value` under a freshly drawn uniform blinding.
    pub fn from_value(value: Amount) -> (r: RevealedCommitment)
        ensures
            r.value == value,
    {
        RevealedCommitment { value, blinding: sc_random() }
    }

    /// The committed value.
    pub fn value(&self) -> (r: Amount)
        ensures
            r == self.value,
    {
        self.value
    }

    /// The blinding factor.
    pub fn blinding(&self) -> (r: &FieldScalar)
        ensures
            r@ == self.blinding@,
    {
        &self.blinding
    }

    /// An owned copy.
    pub fn duplicate(&self) -> (r: RevealedCommitment)
        ensures
            r.value == self.value,
            r.blinding@ == self.blinding@,
    {
        RevealedCommitment { value: self.value, blinding: self.blinding.duplicate() }
    }
}

} // verus!
