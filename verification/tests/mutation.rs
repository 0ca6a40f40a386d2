use binary_genome::mutator::BitFlipMutator;
use binary_genome::mutator::MutationError;
use binary_genome::sequence::BinarySequence;

#[test]
fn mutated_should_always_be_less_than_sequence_length() {
    let mutator = BitFlipMutator::new(1 << 31);
    let mut sequence: BinarySequence<u16> = BinarySequence::new(40, 32768).unwrap();
    let _ = mutator.mutate(&mut sequence);
    // No mutation ever touches a bit at or above the logical length, and a
    // length wider than the scalar is refused outright, so the scalar is
    // exactly as it was.
    assert!(*sequence.sequence() == 40);
}

#[test]
fn test_bitflip_mutator() {
    let mutator = BitFlipMutator::new(1 << 31);

    let sequence_1: BinarySequence<u16> = BinarySequence::new(0, 32768).unwrap();
    let mut sequence_2 = sequence_1.clone();
    let result = mutator.mutate(&mut sequence_2);
    // A logical length of 32768 does not fit a 16-bit scalar: the operator
    // reports the mismatch and leaves the genome untouched.
    assert_eq!(result, Err(MutationError::UnmatchedTypeAndSequenceLength));
    assert_eq!(sequence_2, sequence_1);
}
