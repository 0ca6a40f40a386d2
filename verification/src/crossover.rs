//! Recombination of two genomes. Only the frame is in place: the length
//! rule is enforced, while the exchange of bits is left to a coming
//! revision.

use vstd::prelude::*;
use crate::scalar::GenomeScalar;
use crate::sequence::BinarySequence;

verus! {

#[derive(Debug, PartialEq, Eq)]
pub enum CrossoverError {
    /// The configured sequence length is below the two bits that any
    /// recombination needs.
    InvalidSequenceLength,
}

/// A recombination strategy over two genomes backed by the scalar type
/// `Target`. Every implementer keeps both logical lengths.
pub trait Crossover<Target: GenomeScalar> {
    fn crossover(
        &self,
        first: &mut BinarySequence<Target>,
        second: &mut BinarySequence<Target>,
    ) -> (r: Result<(), CrossoverError>)
        ensures
            final(first).spec_len() == old(first).spec_len(),
            final(second).spec_len() == old(second).spec_len(),
    ;
}

/// Recombination at a single cut point.
pub struct SinglePointCrossover {
    sequence_length: usize,
}

impl SinglePointCrossover {
    pub closed spec fn spec_sequence_length(self) -> usize {
        self.sequence_length
    }

    pub fn new(sequence_length: usize) -> (c: Self)
        ensures
            c.spec_sequence_length() == sequence_length,
    {
        SinglePointCrossover { sequence_length }
    }

    /// Rejects a configured length below two. The exchange itself is not
    /// implemented yet, so on success both genomes are left as they were.
    pub fn crossover(
        &self,
        first: &mut BinarySequence<u16>,
        second: &mut BinarySequence<u16>,
    ) -> (r: Result<(), CrossoverError>)
        ensures
            *final(first) == *old(first),
            *final(second) == *old(second),
            match r {
                Ok(()) => self.spec_sequence_length() >= 2,
                Err(e) => {
                    &&& self.spec_sequence_length() < 2
                    &&& e == CrossoverError::InvalidSequenceLength
                },
            },
    {
        if self.sequence_length < 2 {
            return Err(CrossoverError::InvalidSequenceLength);
        }
        Ok(())
    }
}

impl Crossover<u16> for SinglePointCrossover {
    fn crossover(
        &self,
        first: &mut BinarySequence<u16>,
        second: &mut BinarySequence<u16>,
    ) -> (r: Result<(), CrossoverError>) {
        SinglePointCrossover::crossover(self, first, second)
    }
}

} // verus!
