use binary_genome::mutator::BitFlipMutator;
use binary_genome::mutator::MultiPointMutator;
use binary_genome::mutator::MutationError;
use binary_genome::mutator::Mutator;
use binary_genome::mutator::SinglePointMutator;
use binary_genome::mutator::toss;
use binary_genome::sequence::BinarySequence;
use binary_genome::sequence::BinarySequenceError;

const HALF: u32 = 1 << 31;

#[test]
fn construction_boundary_u8() {
    // 2 * 128 == 256 == 2^8: the smallest length a u8 genome accepts.
    assert!(BinarySequence::<u8>::new(0, 128).is_ok());
    assert!(matches!(
        BinarySequence::<u8>::new(0, 127),
        Err(BinarySequenceError::ChosenTypeUnnecessarilyBig)
    ));
}

#[test]
fn construction_boundary_u16() {
    assert!(BinarySequence::<u16>::new(0, 32768).is_ok());
    assert!(matches!(
        BinarySequence::<u16>::new(0, 32767),
        Err(BinarySequenceError::ChosenTypeUnnecessarilyBig)
    ));
}

#[test]
fn construction_boundary_u32() {
    assert!(BinarySequence::<u32>::new(0, 1 << 31).is_ok());
    assert!(BinarySequence::<u32>::new(0, (1 << 31) - 1).is_err());
}

#[test]
fn construction_boundary_u64() {
    assert!(BinarySequence::<u64>::new(0, 1 << 63).is_ok());
    assert!(BinarySequence::<u64>::new(0, (1 << 63) - 1).is_err());
}

#[test]
fn construction_boundary_usize() {
    assert!(BinarySequence::<usize>::new(0, 1 << (usize::BITS - 1)).is_ok());
    assert!(BinarySequence::<usize>::new(0, (1 << (usize::BITS - 1)) - 1).is_err());
}

#[test]
fn construction_u128_always_rejected() {
    // 2^128 exceeds twice any possible logical length.
    assert!(BinarySequence::<u128>::new(0, usize::MAX).is_err());
}

#[test]
fn accessors_read_and_write_the_scalar() {
    let mut sequence: BinarySequence<u8> = BinarySequence::new(40, 128).unwrap();
    assert_eq!(sequence.len(), 128);
    assert_eq!(*sequence.sequence(), 40);
    *sequence.as_mut() = 99;
    assert_eq!(*sequence.sequence(), 99);
    assert_eq!(sequence.len(), 128);
}

#[test]
fn clone_is_value_equal() {
    let sequence: BinarySequence<u16> = BinarySequence::new(513, 32768).unwrap();
    let copy = sequence.clone();
    assert_eq!(copy, sequence);
    assert_eq!(*copy.sequence(), 513);
}

#[test]
fn replaying_the_same_mask_restores_the_scalar() {
    let mut sequence: BinarySequence<u8> = BinarySequence::new(40, 128).unwrap();
    let mask: u8 = 0b0010_0110;
    *sequence.as_mut() ^= mask;
    assert_ne!(*sequence.sequence(), 40);
    *sequence.as_mut() ^= mask;
    assert_eq!(*sequence.sequence(), 40);
}

#[test]
fn bitflip_rejects_length_wider_than_the_scalar() {
    let mutator = BitFlipMutator::new(HALF);
    let mut sequence: BinarySequence<u8> = BinarySequence::new(40, 128).unwrap();
    let result = mutator.mutate(&mut sequence);
    assert_eq!(result, Err(MutationError::UnmatchedTypeAndSequenceLength));
    assert_eq!(*sequence.sequence(), 40);
    assert_eq!(sequence.len(), 128);
}

#[test]
fn singlepoint_rejects_length_wider_than_the_scalar() {
    let mutator = SinglePointMutator;
    let mut sequence: BinarySequence<u16> = BinarySequence::new(7, 32768).unwrap();
    let result = mutator.mutate(&mut sequence);
    assert_eq!(result, Err(MutationError::UnmatchedTypeAndSequenceLength));
    assert_eq!(*sequence.sequence(), 7);
}

#[test]
fn multipoint_rejects_length_wider_than_the_scalar() {
    let mutator = MultiPointMutator::new(3);
    let mut sequence: BinarySequence<u64> = BinarySequence::new(17, 1 << 63).unwrap();
    let result = mutator.mutate(&mut sequence);
    assert_eq!(result, Err(MutationError::UnmatchedTypeAndSequenceLength));
    assert_eq!(*sequence.sequence(), 17);
}

#[test]
fn multipoint_keeps_its_configuration() {
    let mutator = MultiPointMutator::new(7);
    assert_eq!(mutator.num_mutations(), 7);
}

#[test]
fn mutators_error_through_the_trait_as_well() {
    let mut sequence: BinarySequence<u8> = BinarySequence::new(5, 128).unwrap();
    let bitflip = BitFlipMutator::new(HALF);
    let single = SinglePointMutator;
    let multi = MultiPointMutator::new(1);
    assert_eq!(
        <BitFlipMutator as Mutator<u8>>::mutate(&bitflip, &mut sequence),
        Err(MutationError::UnmatchedTypeAndSequenceLength)
    );
    assert_eq!(
        <SinglePointMutator as Mutator<u8>>::mutate(&single, &mut sequence),
        Err(MutationError::UnmatchedTypeAndSequenceLength)
    );
    assert_eq!(
        <MultiPointMutator as Mutator<u8>>::mutate(&multi, &mut sequence),
        Err(MutationError::UnmatchedTypeAndSequenceLength)
    );
    assert_eq!(*sequence.sequence(), 5);
}

#[test]
fn toss_at_zero_never_succeeds() {
    for _ in 0..1000 {
        assert!(!toss(0));
    }
}

#[test]
fn toss_at_one_half_is_roughly_balanced() {
    let trials: u32 = 10000;
    let mut successes: u32 = 0;
    for _ in 0..trials {
        if toss(HALF) {
            successes += 1;
        }
    }
    // A fair trial repeated 10000 times stays far inside these bounds.
    assert!(successes > 3000 && successes < 7000, "successes: {}", successes);
}
