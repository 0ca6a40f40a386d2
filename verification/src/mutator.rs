//! The three mutation operators over a `BinarySequence`: independent
//! per-bit flips, one uniformly random flip, and a fixed number of distinct
//! flips sampled without replacement.

use vstd::prelude::*;
use rand::Rng;
use crate::scalar::GenomeScalar;
use crate::scalar::count_trues;
use crate::scalar::flip_positions;
use crate::scalar::lemma_count_trues_of_positions;
use crate::scalar::xor_bits;
use crate::sequence::BinarySequence;

verus! {

/// Relies on rand::Rng::gen for u32, on the thread-local generator: a fresh
/// sample whose value nothing is promised about.
#[verifier::external_body]
fn random_u32() -> u32 {
    rand::thread_rng().gen()
}

/// Relies on rand::Rng::gen_range over `0..n`: it returns a value of the
/// half-open range, drawn uniformly, and panics only when the range is
/// empty, which the precondition rules out.
#[verifier::external_body]
fn random_index(n: usize) -> (r: usize)
    requires
        n >= 1,
    ensures
        r < n,
{
    rand::thread_rng().gen_range(0..n)
}

/// One Bernoulli trial: draws a fresh sample from the process-wide random
/// source and succeeds iff the sample lies strictly below `probability`,
/// read as a fraction of the `u32` range. Which sample comes back is
/// random, but no sample lies below zero: a zero probability never
/// succeeds.
pub fn toss(probability: u32) -> (r: bool)
    ensures
        probability == 0 ==> r == false,
{
    random_u32() < probability
}

#[derive(Debug, PartialEq, Eq)]
pub enum MutationError {
    /// The genome's logical length does not fit in its scalar type.
    UnmatchedTypeAndSequenceLength,
    /// More distinct flips were requested than the logical length admits.
    NumMutationMoreThanSequenceLength,
}

pub type MutationResult<T> = Result<T, MutationError>;

/// The bits at positions `from` and above are unchanged.
pub open spec fn preserves_from(old_bits: Seq<bool>, new_bits: Seq<bool>, from: int) -> bool {
    &&& new_bits.len() == old_bits.len()
    &&& forall|i: int| from <= i < old_bits.len() ==> new_bits[i] == old_bits[i]
}

/// Exactly one bit below `len` is negated.
pub open spec fn is_single_flip(old_bits: Seq<bool>, new_bits: Seq<bool>, len: int) -> bool {
    exists|i: int| 0 <= i < len && new_bits == old_bits.update(i, !old_bits[i])
}

/// Exactly `k` distinct bits below `len - 1` are negated.
pub open spec fn is_multi_flip(old_bits: Seq<bool>, new_bits: Seq<bool>, k: nat, len: int) -> bool {
    exists|ps: Set<int>|
        {
            &&& ps.finite()
            &&& ps.len() == k
            &&& (forall|i: int| ps.contains(i) ==> 0 <= i < len - 1)
            &&& new_bits == flip_positions(old_bits, ps)
        }
}

/// A single-point mutation changes exactly one bit: the bitwise
/// difference between the scalar's bits before and after holds exactly
/// one set bit.
pub proof fn lemma_single_flip_changes_exactly_one_bit(
    old_bits: Seq<bool>,
    new_bits: Seq<bool>,
    len: int,
)
    requires
        0 <= len <= old_bits.len(),
        new_bits.len() == old_bits.len(),
        is_single_flip(old_bits, new_bits, len),
    ensures
        count_trues(xor_bits(old_bits, new_bits)) == 1,
{
    let i = choose|i: int| 0 <= i < len && new_bits == old_bits.update(i, !old_bits[i]);
    broadcast use vstd::set::axiom_set_empty_len;

    let s = Set::<int>::empty().insert(i);
    vstd::set::axiom_set_insert_len(Set::<int>::empty(), i);
    assert(xor_bits(old_bits, new_bits) =~= Seq::new(old_bits.len(), |j: int| s.contains(j)));
    lemma_count_trues_of_positions(s, old_bits.len());
}

/// A multi-point mutation with `k` sampled positions changes exactly `k`
/// bits, its picks being distinct: the bitwise difference between the
/// scalar's bits before and after holds exactly `k` set bits.
pub proof fn lemma_multi_flip_changes_exactly_k_bits(
    old_bits: Seq<bool>,
    new_bits: Seq<bool>,
    k: nat,
    len: int,
)
    requires
        len - 1 <= old_bits.len(),
        new_bits.len() == old_bits.len(),
        is_multi_flip(old_bits, new_bits, k, len),
    ensures
        count_trues(xor_bits(old_bits, new_bits)) == k,
{
    let ps = choose|ps: Set<int>|
        {
            &&& ps.finite()
            &&& ps.len() == k
            &&& (forall|i: int| ps.contains(i) ==> 0 <= i < len - 1)
            &&& new_bits == flip_positions(old_bits, ps)
        };
    assert(xor_bits(old_bits, new_bits) =~= Seq::new(old_bits.len(), |j: int| ps.contains(j)));
    lemma_count_trues_of_positions(ps, old_bits.len());
}

/// A mutation strategy over genomes backed by the scalar type `Target`.
pub trait Mutator<Target: GenomeScalar> {
    /// Mutates the genome in place. Every implementer keeps the logical
    /// length, leaves the genome untouched when it reports an error, and on
    /// success never changes a bit at or above the logical length.
    fn mutate(&self, sequence: &mut BinarySequence<Target>) -> (r: MutationResult<()>)
        ensures
            final(sequence).spec_len() == old(sequence).spec_len(),
            match r {
                Ok(()) => preserves_from(
                    old(sequence).spec_sequence().bits(),
                    final(sequence).spec_sequence().bits(),
                    old(sequence).spec_len() as int,
                ),
                Err(_) => *final(sequence) == *old(sequence),
            },
    ;
}

/// Flips each addressable bit independently with the same probability.
pub struct BitFlipMutator {
    probability: u32,
}

impl BitFlipMutator {
    /// The per-bit flip chance, as a fraction of the `u32` range.
    pub closed spec fn spec_probability(self) -> u32 {
        self.probability
    }

    /// A probability of zero, a trial that can never succeed, is rejected;
    /// a fraction of the `u32` range can never reach one.
    pub fn new(probability: u32) -> (m: Self)
        requires
            probability >= 1,
        ensures
            m.spec_probability() == probability,
    {
        BitFlipMutator { probability }
    }

    /// For each position below the logical length, one Bernoulli trial
    /// decides whether that bit is flipped.
    pub fn mutate<T: GenomeScalar>(&self, sequence: &mut BinarySequence<T>) -> (r: MutationResult<
        (),
    >)
        ensures
            final(sequence).spec_len() == old(sequence).spec_len(),
            match r {
                Ok(()) => {
                    &&& old(sequence).spec_len() <= T::width()
                    &&& preserves_from(
                        old(sequence).spec_sequence().bits(),
                        final(sequence).spec_sequence().bits(),
                        old(sequence).spec_len() as int,
                    )
                },
                Err(e) => {
                    &&& old(sequence).spec_len() > T::width()
                    &&& e == MutationError::UnmatchedTypeAndSequenceLength
                    &&& *final(sequence) == *old(sequence)
                },
            },
    {
        let len = sequence.len();
        if T::width_exec() < len {
            return Err(MutationError::UnmatchedTypeAndSequenceLength);
        }
        let mut pos: usize = 0;
        while pos < len
            invariant
                pos <= len,
                len == sequence.spec_len(),
                len == old(sequence).spec_len(),
                len <= T::width(),
                preserves_from(
                    old(sequence).spec_sequence().bits(),
                    sequence.spec_sequence().bits(),
                    len as int,
                ),
            decreases len - pos,
        {
            if toss(self.probability) {
                let v = *sequence.sequence();
                proof {
                    v.lemma_bits_len();
                }
                let flipped = v.flip_bit(pos);
                *sequence.as_mut() = flipped;
            }
            pos += 1;
        }
        Ok(())
    }
}

impl<T: GenomeScalar> Mutator<T> for BitFlipMutator {
    fn mutate(&self, sequence: &mut BinarySequence<T>) -> (r: MutationResult<()>) {
        BitFlipMutator::mutate(self, sequence)
    }
}

/// Flips exactly one bit, drawn uniformly among the addressable positions.
pub struct SinglePointMutator;

impl SinglePointMutator {
    /// The genome must offer at least one addressable bit: the uniform draw
    /// over an empty range has no value to return.
    pub fn mutate<T: GenomeScalar>(&self, sequence: &mut BinarySequence<T>) -> (r: MutationResult<
        (),
    >)
        requires
            old(sequence).spec_len() >= 1,
        ensures
            final(sequence).spec_len() == old(sequence).spec_len(),
            match r {
                Ok(()) => {
                    &&& old(sequence).spec_len() <= T::width()
                    &&& is_single_flip(
                        old(sequence).spec_sequence().bits(),
                        final(sequence).spec_sequence().bits(),
                        old(sequence).spec_len() as int,
                    )
                    &&& preserves_from(
                        old(sequence).spec_sequence().bits(),
                        final(sequence).spec_sequence().bits(),
                        old(sequence).spec_len() as int,
                    )
                },
                Err(e) => {
                    &&& old(sequence).spec_len() > T::width()
                    &&& e == MutationError::UnmatchedTypeAndSequenceLength
                    &&& *final(sequence) == *old(sequence)
                },
            },
    {
        let len = sequence.len();
        if T::width_exec() < len {
            return Err(MutationError::UnmatchedTypeAndSequenceLength);
        }
        let idx = random_index(len);
        let v = *sequence.sequence();
        proof {
            v.lemma_bits_len();
        }
        let flipped = v.flip_bit(idx);
        *sequence.as_mut() = flipped;
        Ok(())
    }
}

impl<T: GenomeScalar> Mutator<T> for SinglePointMutator {
    fn mutate(&self, sequence: &mut BinarySequence<T>) -> (r: MutationResult<()>) {
        if sequence.len() == 0 {
            // A genome without addressable bits leaves the uniform draw
            // with an empty range, so no flip can be made.
            return Err(MutationError::UnmatchedTypeAndSequenceLength);
        }
        SinglePointMutator::mutate(self, sequence)
    }
}

/// Flips a configured number of distinct bits, sampled without replacement
/// from the positions strictly below `len - 1`: the topmost addressable bit
/// is never a candidate for multi-point mutation.
pub struct MultiPointMutator {
    num_mutations: usize,
}

impl MultiPointMutator {
    pub closed spec fn spec_num_mutations(self) -> usize {
        self.num_mutations
    }

    pub fn new(num_mutations: usize) -> (m: Self)
        ensures
            m.spec_num_mutations() == num_mutations,
    {
        MultiPointMutator { num_mutations }
    }

    pub fn num_mutations(&self) -> (n: usize)
        ensures
            n == self.spec_num_mutations(),
    {
        self.num_mutations
    }

    /// Accumulates the sampled positions into a mask and applies the mask
    /// to the scalar with one exclusive or. A request for at least as many
    /// flips as there are addressable bits cannot be served from the
    /// candidate universe and is a recoverable error.
    pub fn mutate<T: GenomeScalar>(&self, sequence: &mut BinarySequence<T>) -> (r: MutationResult<
        (),
    >)
        ensures
            final(sequence).spec_len() == old(sequence).spec_len(),
            match r {
                Ok(()) => {
                    &&& old(sequence).spec_len() <= T::width()
                    &&& (self.spec_num_mutations() == 0 || self.spec_num_mutations() < old(
                        sequence,
                    ).spec_len())
                    &&& is_multi_flip(
                        old(sequence).spec_sequence().bits(),
                        final(sequence).spec_sequence().bits(),
                        self.spec_num_mutations() as nat,
                        old(sequence).spec_len() as int,
                    )
                    &&& preserves_from(
                        old(sequence).spec_sequence().bits(),
                        final(sequence).spec_sequence().bits(),
                        old(sequence).spec_len() as int,
                    )
                    &&& (self.spec_num_mutations() == 0 ==> *final(sequence) == *old(sequence))
                },
                Err(e) => {
                    &&& *final(sequence) == *old(sequence)
                    &&& match e {
                        MutationError::UnmatchedTypeAndSequenceLength => old(sequence).spec_len()
                            > T::width(),
                        MutationError::NumMutationMoreThanSequenceLength => {
                            &&& old(sequence).spec_len() <= T::width()
                            &&& self.spec_num_mutations() >= 1
                            &&& self.spec_num_mutations() >= old(sequence).spec_len()
                        },
                    }
                },
            },
    {
        let len = sequence.len();
        if T::width_exec() < len {
            return Err(MutationError::UnmatchedTypeAndSequenceLength);
        }
        let k = self.num_mutations();
        if k == 0 {
            proof {
                let bs = old(sequence).spec_sequence().bits();
                let none: Set<int> = Set::empty();
                old(sequence).spec_sequence().lemma_bits_len();
                assert(none.finite());
                assert(none.len() == 0);
                assert(flip_positions(bs, none) =~= bs);
                assert(is_multi_flip(bs, bs, 0, len as int));
            }
            return Ok(());
        }
        if k >= len {
            return Err(MutationError::NumMutationMoreThanSequenceLength);
        }
        // 1 <= k < len <= width: the candidate universe [0, len - 1) holds
        // len - 1 >= k positions.
        let mut candidates: Vec<usize> = Vec::new();
        let mut i: usize = 0;
        while i < len - 1
            invariant
                i <= len - 1,
                len >= 1,
                candidates@.len() == i,
                forall|a: int| 0 <= a < i ==> candidates@[a] == a,
            decreases len - 1 - i,
        {
            candidates.push(i);
            i += 1;
        }
        let mut mask: T = T::zero();
        let ghost mut chosen: Set<int> = Set::empty();
        let mut drawn: usize = 0;
        proof {
            mask.lemma_bits_len();
        }
        while drawn < k
            invariant
                drawn <= k,
                1 <= k < len,
                len <= T::width(),
                candidates@.len() == len - 1 - drawn,
                forall|a: int|
                    0 <= a < candidates@.len() ==> (candidates@[a] as int) < len - 1
                        && !chosen.contains(candidates@[a] as int),
                forall|a: int, b: int|
                    0 <= a < b < candidates@.len() ==> candidates@[a] != candidates@[b],
                chosen.finite(),
                chosen.len() == drawn,
                forall|p: int| chosen.contains(p) ==> 0 <= p < len - 1,
                mask.bits().len() == T::width(),
                forall|j: int| 0 <= j < T::width() ==> (mask.bits()[j] <==> chosen.contains(j)),
            decreases k - drawn,
        {
            let idx = random_index(candidates.len());
            let pos = candidates[idx];
            let ghost prior = chosen;
            proof {
                mask.lemma_bits_len();
                chosen = chosen.insert(pos as int);
                vstd::set::axiom_set_insert_len(prior, pos as int);
            }
            mask = mask.flip_bit(pos);
            candidates.remove(idx);
            drawn += 1;
        }
        let v = *sequence.sequence();
        proof {
            v.lemma_bits_len();
            mask.lemma_bits_len();
        }
        let mutated = v.bit_xor(mask);
        *sequence.as_mut() = mutated;
        proof {
            assert(mutated.bits() =~= flip_positions(v.bits(), chosen));
        }
        Ok(())
    }
}

impl<T: GenomeScalar> Mutator<T> for MultiPointMutator {
    fn mutate(&self, sequence: &mut BinarySequence<T>) -> (r: MutationResult<()>) {
        MultiPointMutator::mutate(self, sequence)
    }
}

} // verus!
