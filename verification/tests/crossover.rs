use binary_genome::crossover::Crossover;
use binary_genome::crossover::CrossoverError;
use binary_genome::crossover::SinglePointCrossover;
use binary_genome::sequence::BinarySequence;

#[test]
fn crossover_rejects_a_length_below_two() {
    let operator = SinglePointCrossover::new(1);
    let mut first: BinarySequence<u16> = BinarySequence::new(3, 32768).unwrap();
    let mut second: BinarySequence<u16> = BinarySequence::new(5, 32768).unwrap();
    let result = operator.crossover(&mut first, &mut second);
    assert_eq!(result, Err(CrossoverError::InvalidSequenceLength));
    assert_eq!(*first.sequence(), 3);
    assert_eq!(*second.sequence(), 5);
}

#[test]
fn crossover_accepts_a_length_of_two_and_leaves_the_genomes() {
    let operator = SinglePointCrossover::new(2);
    let mut first: BinarySequence<u16> = BinarySequence::new(3, 32768).unwrap();
    let mut second: BinarySequence<u16> = BinarySequence::new(5, 32768).unwrap();
    assert!(operator.crossover(&mut first, &mut second).is_ok());
    assert_eq!(*first.sequence(), 3);
    assert_eq!(*second.sequence(), 5);
    // The same call through the capability keeps both lengths as well.
    assert!(
        <SinglePointCrossover as Crossover<u16>>::crossover(&operator, &mut first, &mut second)
            .is_ok()
    );
    assert_eq!(first.len(), 32768);
    assert_eq!(second.len(), 32768);
}
