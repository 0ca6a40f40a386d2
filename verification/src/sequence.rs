//! The genome representation: a scalar unsigned integer paired with the
//! logical number of its low-order bits that carry alleles.

use vstd::prelude::*;
use vstd::arithmetic::power2::pow2;
use crate::scalar::GenomeScalar;

verus! {

#[derive(Debug, PartialEq, Eq)]
pub enum BinarySequenceError {
    /// The chosen integer type offers more than twice as many distinct
    /// values as the requested logical length asks for.
    ChosenTypeUnnecessarilyBig,
}

/// A genome of `len` logical bits, stored in the low-order bits of an
/// unsigned integer scalar. Bits at positions at or above `len` carry no
/// allele and no mutation operator ever changes them.
#[derive(Debug, PartialEq, Clone, Copy)]
pub struct BinarySequence<T: GenomeScalar> {
    sequence: T,
    len: usize,
}

impl<T: GenomeScalar> BinarySequence<T> {
    /// The scalar holding the genome's bits.
    pub closed spec fn spec_sequence(self) -> T {
        self.sequence
    }

    /// The logical number of addressable bits.
    pub closed spec fn spec_len(&self) -> usize {
        self.len
    }

    /// Constructs a genome; fails when the scalar type's full range,
    /// `pow2(width)`, exceeds twice the logical length. No other check is
    /// made here: a length above the width is only caught when a mutation
    /// is attempted.
    pub fn new(sequence: T, len: usize) -> (r: Result<Self, BinarySequenceError>)
        ensures
            match r {
                Ok(s) => {
                    &&& pow2(T::width()) <= 2 * len
                    &&& s.spec_sequence() == sequence
                    &&& s.spec_len() == len
                },
                Err(e) => {
                    &&& pow2(T::width()) > 2 * len
                    &&& e == BinarySequenceError::ChosenTypeUnnecessarilyBig
                },
            },
    {
        if T::oversized(len) {
            return Err(BinarySequenceError::ChosenTypeUnnecessarilyBig);
        }
        Ok(BinarySequence { sequence, len })
    }

    #[verifier::when_used_as_spec(spec_len)]
    pub fn len(&self) -> (l: usize)
        ensures
            l == self.spec_len(),
    {
        self.len
    }

    pub fn sequence(&self) -> (s: &T)
        ensures
            *s == self.spec_sequence(),
    {
        &self.sequence
    }

    pub fn as_mut(&mut self) -> (r: &mut T)
        ensures
            *r == old(self).spec_sequence(),
            final(self).spec_sequence() == *final(r),
            final(self).spec_len() == old(self).spec_len(),
    {
        &mut self.sequence
    }
}

} // verus!
