//! The capability that a genome's backing integer must offer: a fixed bit
//! width, a view of the value as its bits (low bit first), and the few
//! bit-level operations that the mutation operators use.

use vstd::prelude::*;
use vstd::arithmetic::power2::pow2;
use vstd::arithmetic::power2::lemma2_to64;
use vstd::arithmetic::power2::lemma2_to64_rest;
use vstd::arithmetic::power2::lemma_pow2_adds;

verus! {

/// A sequence of `n` cleared bits.
pub open spec fn all_false(n: nat) -> Seq<bool> {
    Seq::new(n, |i: int| false)
}

/// Bitwise exclusive or of two bit sequences of equal length.
pub open spec fn xor_bits(a: Seq<bool>, b: Seq<bool>) -> Seq<bool>
    recommends
        a.len() == b.len(),
{
    Seq::new(a.len(), |i: int| a[i] != b[i])
}

/// The bit sequence `bs` with every bit whose position lies in `ps` negated.
pub open spec fn flip_positions(bs: Seq<bool>, ps: Set<int>) -> Seq<bool> {
    Seq::new(bs.len(), |i: int| if ps.contains(i) { !bs[i] } else { bs[i] })
}

/// Applying the same exclusive-or mask twice restores the original bits.
pub proof fn lemma_xor_mask_twice_restores(a: Seq<bool>, m: Seq<bool>)
    requires
        a.len() == m.len(),
    ensures
        xor_bits(xor_bits(a, m), m) == a,
{
    assert(xor_bits(xor_bits(a, m), m) =~= a);
}

/// Negating the bits at the same set of positions twice restores the
/// original bits.
pub proof fn lemma_flip_positions_twice_restores(bs: Seq<bool>, ps: Set<int>)
    ensures
        flip_positions(flip_positions(bs, ps), ps) == bs,
{
    assert(flip_positions(flip_positions(bs, ps), ps) =~= bs);
}

/// Replaying one captured mutation mask twice restores the scalar itself,
/// not only its view: where `once` and `twice` are the results of the two
/// successive exclusive ors with the same mask, as `bit_xor` returns
/// them, the second application yields the very value the first started
/// from.
pub proof fn lemma_replay_restores_scalar<T: GenomeScalar>(v: T, m: T, once: T, twice: T)
    requires
        once.bits() == xor_bits(v.bits(), m.bits()),
        twice.bits() == xor_bits(once.bits(), m.bits()),
    ensures
        twice == v,
{
    v.lemma_bits_len();
    m.lemma_bits_len();
    lemma_xor_mask_twice_restores(v.bits(), m.bits());
    twice.lemma_bits_injective(v);
}

/// Number of set bits in a bit sequence.
pub open spec fn count_trues(s: Seq<bool>) -> nat
    decreases s.len(),
{
    if s.len() == 0 {
        0
    } else {
        count_trues(s.drop_last()) + if s.last() {
            1nat
        } else {
            0nat
        }
    }
}

/// A sequence that is true exactly on the positions of a finite set holds
/// as many true entries as the set has elements.
pub proof fn lemma_count_trues_of_positions(s: Set<int>, n: nat)
    requires
        s.finite(),
        forall|p: int| s.contains(p) ==> 0 <= p < n,
    ensures
        count_trues(Seq::new(n, |i: int| s.contains(i))) == s.len(),
    decreases n,
{
    let q = Seq::new(n, |i: int| s.contains(i));
    if n == 0 {
        broadcast use vstd::set::axiom_set_empty_len;

        assert(s =~= Set::empty());
    } else {
        let t = s.remove(n - 1);
        vstd::set::axiom_set_remove_finite(s, n - 1);
        vstd::set::axiom_set_remove_len(s, n - 1);
        lemma_count_trues_of_positions(t, (n - 1) as nat);
        assert(q.drop_last() =~= Seq::new((n - 1) as nat, |i: int| t.contains(i)));
        assert(q.last() == s.contains(n - 1));
    }
}

/// An unsigned integer scalar of a fixed bit width, as far as the genome
/// representation and the mutation operators need it.
pub trait GenomeScalar: Sized + Copy {
    /// Number of bits of the backing integer type.
    spec fn width() -> nat;

    /// The value viewed as its bits, position 0 being the low bit.
    spec fn bits(self) -> Seq<bool>;

    proof fn lemma_bits_len(self)
        ensures
            self.bits().len() == Self::width(),
    ;

    /// The bits determine the value: two scalars with the same bits are
    /// the same scalar.
    proof fn lemma_bits_injective(self, other: Self)
        requires
            self.bits() == other.bits(),
        ensures
            self == other,
    ;

    fn width_exec() -> (w: usize)
        ensures
            w as nat == Self::width(),
    ;

    fn zero() -> (z: Self)
        ensures
            z.bits() == all_false(Self::width()),
    ;

    fn flip_bit(self, i: usize) -> (r: Self)
        requires
            (i as nat) < Self::width(),
        ensures
            r.bits() == self.bits().update(i as int, !self.bits()[i as int]),
    ;

    fn bit_xor(self, other: Self) -> (r: Self)
        ensures
            r.bits() == xor_bits(self.bits(), other.bits()),
    ;

    /// Whether the type's full range of `pow2(width)` values exceeds twice
    /// the requested logical length, which the genome constructor rejects.
    fn oversized(len: usize) -> (b: bool)
        ensures
            b == (pow2(Self::width()) > 2 * len),
    ;
}

pub open spec fn u8_bit(x: u8, i: u8) -> bool {
    (x >> i) & 1 == 1
}

spec fn u8_bits_agree_below(x: u8, y: u8, n: nat) -> bool
    decreases n,
{
    n == 0 || (u8_bit(x, (n - 1) as u8) == u8_bit(y, (n - 1) as u8) && u8_bits_agree_below(
        x,
        y,
        (n - 1) as nat,
    ))
}

proof fn lemma_u8_bits_agree(x: u8, y: u8, n: nat)
    requires
        n <= 8,
        forall|j: u8| j < 8 ==> u8_bit(x, j) == u8_bit(y, j),
    ensures
        u8_bits_agree_below(x, y, n),
    decreases n,
{
    if n > 0 {
        lemma_u8_bits_agree(x, y, (n - 1) as nat);
        assert(u8_bit(x, (n - 1) as u8) == u8_bit(y, (n - 1) as u8));
    }
}

impl GenomeScalar for u8 {
    open spec fn width() -> nat {
        8
    }

    open spec fn bits(self) -> Seq<bool> {
        Seq::new(8, |i: int| u8_bit(self, i as u8))
    }

    proof fn lemma_bits_len(self) {
    }

    proof fn lemma_bits_injective(self, other: Self) {
        let x = self;
        let y = other;
        assert forall|j: u8| j < 8 implies u8_bit(x, j) == u8_bit(y, j) by {
            assert(x.bits()[j as int] == y.bits()[j as int]);
        }
        lemma_u8_bits_agree(x, y, 8);
        assert(x == y) by (bit_vector)
            requires
                u8_bits_agree_below(x, y, 8),
        ;
    }

    fn width_exec() -> (w: usize) {
        8
    }

    fn zero() -> (z: Self) {
        proof {
            assert forall|j: int| 0 <= j < 8 implies !(0u8.bits()[j]) by {
                let jj = j as u8;
                assert(!u8_bit(0u8, jj)) by (bit_vector)
                    requires
                        jj < 8,
                ;
            }
            assert(0u8.bits() =~= all_false(8));
        }
        0u8
    }

    fn flip_bit(self, i: usize) -> (r: Self) {
        let sh: u8 = i as u8;
        let r = self ^ (1u8 << sh);
        proof {
            let x = self;
            assert forall|j: int| 0 <= j < 8 implies r.bits()[j] == x.bits().update(
                i as int,
                !x.bits()[i as int],
            )[j] by {
                let jj = j as u8;
                assert(u8_bit(x ^ (1u8 << sh), jj) == if jj == sh {
                    !u8_bit(x, jj)
                } else {
                    u8_bit(x, jj)
                }) by (bit_vector)
                    requires
                        sh < 8 && jj < 8,
                ;
            }
            assert(r.bits() =~= x.bits().update(i as int, !x.bits()[i as int]));
        }
        r
    }

    fn bit_xor(self, other: Self) -> (r: Self) {
        let r = self ^ other;
        proof {
            let x = self;
            let y = other;
            assert forall|j: int| 0 <= j < 8 implies r.bits()[j] == (x.bits()[j]
                != y.bits()[j]) by {
                let jj = j as u8;
                assert(u8_bit(x ^ y, jj) == (u8_bit(x, jj) != u8_bit(y, jj))) by (bit_vector)
                    requires
                        jj < 8,
                ;
            }
            assert(r.bits() =~= xor_bits(x.bits(), y.bits()));
        }
        r
    }

    fn oversized(len: usize) -> (b: bool) {
        proof {
            lemma2_to64();
        }
        len < 128
    }
}

pub open spec fn u16_bit(x: u16, i: u16) -> bool {
    (x >> i) & 1 == 1
}

spec fn u16_bits_agree_below(x: u16, y: u16, n: nat) -> bool
    decreases n,
{
    n == 0 || (u16_bit(x, (n - 1) as u16) == u16_bit(y, (n - 1) as u16) && u16_bits_agree_below(
        x,
        y,
        (n - 1) as nat,
    ))
}

proof fn lemma_u16_bits_agree(x: u16, y: u16, n: nat)
    requires
        n <= 16,
        forall|j: u16| j < 16 ==> u16_bit(x, j) == u16_bit(y, j),
    ensures
        u16_bits_agree_below(x, y, n),
    decreases n,
{
    if n > 0 {
        lemma_u16_bits_agree(x, y, (n - 1) as nat);
        assert(u16_bit(x, (n - 1) as u16) == u16_bit(y, (n - 1) as u16));
    }
}


impl GenomeScalar for u16 {
    open spec fn width() -> nat {
        16
    }

    open spec fn bits(self) -> Seq<bool> {
        Seq::new(16, |i: int| u16_bit(self, i as u16))
    }

    proof fn lemma_bits_len(self) {
    }

    proof fn lemma_bits_injective(self, other: Self) {
        let x = self;
        let y = other;
        assert forall|j: u16| j < 16 implies u16_bit(x, j) == u16_bit(y, j) by {
            assert(x.bits()[j as int] == y.bits()[j as int]);
        }
        lemma_u16_bits_agree(x, y, 16);
        assert(x == y) by (bit_vector)
            requires
                u16_bits_agree_below(x, y, 16),
        ;
    }

    fn width_exec() -> (w: usize) {
        16
    }

    fn zero() -> (z: Self) {
        proof {
            assert forall|j: int| 0 <= j < 16 implies !(0u16.bits()[j]) by {
                let jj = j as u16;
                assert(!u16_bit(0u16, jj)) by (bit_vector)
                    requires
                        jj < 16,
                ;
            }
            assert(0u16.bits() =~= all_false(16));
        }
        0u16
    }

    fn flip_bit(self, i: usize) -> (r: Self) {
        let sh: u16 = i as u16;
        let r = self ^ (1u16 << sh);
        proof {
            let x = self;
            assert forall|j: int| 0 <= j < 16 implies r.bits()[j] == x.bits().update(
                i as int,
                !x.bits()[i as int],
            )[j] by {
                let jj = j as u16;
                assert(u16_bit(x ^ (1u16 << sh), jj) == if jj == sh {
                    !u16_bit(x, jj)
                } else {
                    u16_bit(x, jj)
                }) by (bit_vector)
                    requires
                        sh < 16 && jj < 16,
                ;
            }
            assert(r.bits() =~= x.bits().update(i as int, !x.bits()[i as int]));
        }
        r
    }

    fn bit_xor(self, other: Self) -> (r: Self) {
        let r = self ^ other;
        proof {
            let x = self;
            let y = other;
            assert forall|j: int| 0 <= j < 16 implies r.bits()[j] == (x.bits()[j]
                != y.bits()[j]) by {
                let jj = j as u16;
                assert(u16_bit(x ^ y, jj) == (u16_bit(x, jj) != u16_bit(y, jj))) by (bit_vector)
                    requires
                        jj < 16,
                ;
            }
            assert(r.bits() =~= xor_bits(x.bits(), y.bits()));
        }
        r
    }

    fn oversized(len: usize) -> (b: bool) {
        proof {
            lemma2_to64();
        }
        len < 32768
    }
}

pub open spec fn u32_bit(x: u32, i: u32) -> bool {
    (x >> i) & 1 == 1
}

spec fn u32_bits_agree_below(x: u32, y: u32, n: nat) -> bool
    decreases n,
{
    n == 0 || (u32_bit(x, (n - 1) as u32) == u32_bit(y, (n - 1) as u32) && u32_bits_agree_below(
        x,
        y,
        (n - 1) as nat,
    ))
}

proof fn lemma_u32_bits_agree(x: u32, y: u32, n: nat)
    requires
        n <= 32,
        forall|j: u32| j < 32 ==> u32_bit(x, j) == u32_bit(y, j),
    ensures
        u32_bits_agree_below(x, y, n),
    decreases n,
{
    if n > 0 {
        lemma_u32_bits_agree(x, y, (n - 1) as nat);
        assert(u32_bit(x, (n - 1) as u32) == u32_bit(y, (n - 1) as u32));
    }
}


impl GenomeScalar for u32 {
    open spec fn width() -> nat {
        32
    }

    open spec fn bits(self) -> Seq<bool> {
        Seq::new(32, |i: int| u32_bit(self, i as u32))
    }

    proof fn lemma_bits_len(self) {
    }

    proof fn lemma_bits_injective(self, other: Self) {
        let x = self;
        let y = other;
        assert forall|j: u32| j < 32 implies u32_bit(x, j) == u32_bit(y, j) by {
            assert(x.bits()[j as int] == y.bits()[j as int]);
        }
        lemma_u32_bits_agree(x, y, 32);
        assert(x == y) by (bit_vector)
            requires
                u32_bits_agree_below(x, y, 32),
        ;
    }

    fn width_exec() -> (w: usize) {
        32
    }

    fn zero() -> (z: Self) {
        proof {
            assert forall|j: int| 0 <= j < 32 implies !(0u32.bits()[j]) by {
                let jj = j as u32;
                assert(!u32_bit(0u32, jj)) by (bit_vector)
                    requires
                        jj < 32,
                ;
            }
            assert(0u32.bits() =~= all_false(32));
        }
        0u32
    }

    fn flip_bit(self, i: usize) -> (r: Self) {
        let sh: u32 = i as u32;
        let r = self ^ (1u32 << sh);
        proof {
            let x = self;
            assert forall|j: int| 0 <= j < 32 implies r.bits()[j] == x.bits().update(
                i as int,
                !x.bits()[i as int],
            )[j] by {
                let jj = j as u32;
                assert(u32_bit(x ^ (1u32 << sh), jj) == if jj == sh {
                    !u32_bit(x, jj)
                } else {
                    u32_bit(x, jj)
                }) by (bit_vector)
                    requires
                        sh < 32 && jj < 32,
                ;
            }
            assert(r.bits() =~= x.bits().update(i as int, !x.bits()[i as int]));
        }
        r
    }

    fn bit_xor(self, other: Self) -> (r: Self) {
        let r = self ^ other;
        proof {
            let x = self;
            let y = other;
            assert forall|j: int| 0 <= j < 32 implies r.bits()[j] == (x.bits()[j]
                != y.bits()[j]) by {
                let jj = j as u32;
                assert(u32_bit(x ^ y, jj) == (u32_bit(x, jj) != u32_bit(y, jj))) by (bit_vector)
                    requires
                        jj < 32,
                ;
            }
            assert(r.bits() =~= xor_bits(x.bits(), y.bits()));
        }
        r
    }

    fn oversized(len: usize) -> (b: bool) {
        proof {
            lemma2_to64();
        }
        len < 0x80000000
    }
}

pub open spec fn u64_bit(x: u64, i: u64) -> bool {
    (x >> i) & 1 == 1
}

spec fn u64_bits_agree_below(x: u64, y: u64, n: nat) -> bool
    decreases n,
{
    n == 0 || (u64_bit(x, (n - 1) as u64) == u64_bit(y, (n - 1) as u64) && u64_bits_agree_below(
        x,
        y,
        (n - 1) as nat,
    ))
}

proof fn lemma_u64_bits_agree(x: u64, y: u64, n: nat)
    requires
        n <= 64,
        forall|j: u64| j < 64 ==> u64_bit(x, j) == u64_bit(y, j),
    ensures
        u64_bits_agree_below(x, y, n),
    decreases n,
{
    if n > 0 {
        lemma_u64_bits_agree(x, y, (n - 1) as nat);
        assert(u64_bit(x, (n - 1) as u64) == u64_bit(y, (n - 1) as u64));
    }
}


impl GenomeScalar for u64 {
    open spec fn width() -> nat {
        64
    }

    open spec fn bits(self) -> Seq<bool> {
        Seq::new(64, |i: int| u64_bit(self, i as u64))
    }

    proof fn lemma_bits_len(self) {
    }

    proof fn lemma_bits_injective(self, other: Self) {
        let x = self;
        let y = other;
        assert forall|j: u64| j < 64 implies u64_bit(x, j) == u64_bit(y, j) by {
            assert(x.bits()[j as int] == y.bits()[j as int]);
        }
        lemma_u64_bits_agree(x, y, 64);
        assert(x == y) by (bit_vector)
            requires
                u64_bits_agree_below(x, y, 64),
        ;
    }

    fn width_exec() -> (w: usize) {
        64
    }

    fn zero() -> (z: Self) {
        proof {
            assert forall|j: int| 0 <= j < 64 implies !(0u64.bits()[j]) by {
                let jj = j as u64;
                assert(!u64_bit(0u64, jj)) by (bit_vector)
                    requires
                        jj < 64,
                ;
            }
            assert(0u64.bits() =~= all_false(64));
        }
        0u64
    }

    fn flip_bit(self, i: usize) -> (r: Self) {
        let sh: u64 = i as u64;
        let r = self ^ (1u64 << sh);
        proof {
            let x = self;
            assert forall|j: int| 0 <= j < 64 implies r.bits()[j] == x.bits().update(
                i as int,
                !x.bits()[i as int],
            )[j] by {
                let jj = j as u64;
                assert(u64_bit(x ^ (1u64 << sh), jj) == if jj == sh {
                    !u64_bit(x, jj)
                } else {
                    u64_bit(x, jj)
                }) by (bit_vector)
                    requires
                        sh < 64 && jj < 64,
                ;
            }
            assert(r.bits() =~= x.bits().update(i as int, !x.bits()[i as int]));
        }
        r
    }

    fn bit_xor(self, other: Self) -> (r: Self) {
        let r = self ^ other;
        proof {
            let x = self;
            let y = other;
            assert forall|j: int| 0 <= j < 64 implies r.bits()[j] == (x.bits()[j]
                != y.bits()[j]) by {
                let jj = j as u64;
                assert(u64_bit(x ^ y, jj) == (u64_bit(x, jj) != u64_bit(y, jj))) by (bit_vector)
                    requires
                        jj < 64,
                ;
            }
            assert(r.bits() =~= xor_bits(x.bits(), y.bits()));
        }
        r
    }

    fn oversized(len: usize) -> (b: bool) {
        if usize::BITS < 64 {
            proof {
                lemma2_to64();
                assert(2 * len < pow2(64));
            }
            true
        } else {
            let threshold: usize = 1usize << 63u32;
            proof {
                lemma2_to64();
                lemma2_to64_rest();
                assert(usize::BITS == 64 ==> 1usize << 63u32 == (0x8000000000000000u64 as usize))
                    by (bit_vector);
            }
            len < threshold
        }
    }
}

pub open spec fn u128_bit(x: u128, i: u128) -> bool {
    (x >> i) & 1 == 1
}

spec fn u128_bits_agree_below(x: u128, y: u128, n: nat) -> bool
    decreases n,
{
    n == 0 || (u128_bit(x, (n - 1) as u128) == u128_bit(y, (n - 1) as u128) && u128_bits_agree_below(
        x,
        y,
        (n - 1) as nat,
    ))
}

proof fn lemma_u128_bits_agree(x: u128, y: u128, n: nat)
    requires
        n <= 128,
        forall|j: u128| j < 128 ==> u128_bit(x, j) == u128_bit(y, j),
    ensures
        u128_bits_agree_below(x, y, n),
    decreases n,
{
    if n > 0 {
        lemma_u128_bits_agree(x, y, (n - 1) as nat);
        assert(u128_bit(x, (n - 1) as u128) == u128_bit(y, (n - 1) as u128));
    }
}


impl GenomeScalar for u128 {
    open spec fn width() -> nat {
        128
    }

    open spec fn bits(self) -> Seq<bool> {
        Seq::new(128, |i: int| u128_bit(self, i as u128))
    }

    proof fn lemma_bits_len(self) {
    }

    proof fn lemma_bits_injective(self, other: Self) {
        let x = self;
        let y = other;
        assert forall|j: u128| j < 128 implies u128_bit(x, j) == u128_bit(y, j) by {
            assert(x.bits()[j as int] == y.bits()[j as int]);
        }
        lemma_u128_bits_agree(x, y, 128);
        assert(x == y) by (bit_vector)
            requires
                u128_bits_agree_below(x, y, 128),
        ;
    }

    fn width_exec() -> (w: usize) {
        128
    }

    fn zero() -> (z: Self) {
        proof {
            assert forall|j: int| 0 <= j < 128 implies !(0u128.bits()[j]) by {
                let jj = j as u128;
                assert(!u128_bit(0u128, jj)) by (bit_vector)
                    requires
                        jj < 128,
                ;
            }
            assert(0u128.bits() =~= all_false(128));
        }
        0u128
    }

    fn flip_bit(self, i: usize) -> (r: Self) {
        let sh: u32 = i as u32;
        let r = self ^ (1u128 << sh);
        proof {
            let x = self;
            assert forall|j: int| 0 <= j < 128 implies r.bits()[j] == x.bits().update(
                i as int,
                !x.bits()[i as int],
            )[j] by {
                let jj = j as u128;
                assert(u128_bit(x ^ (1u128 << sh), jj) == if jj == sh as u128 {
                    !u128_bit(x, jj)
                } else {
                    u128_bit(x, jj)
                }) by (bit_vector)
                    requires
                        sh < 128 && jj < 128,
                ;
            }
            assert(r.bits() =~= x.bits().update(i as int, !x.bits()[i as int]));
        }
        r
    }

    fn bit_xor(self, other: Self) -> (r: Self) {
        let r = self ^ other;
        proof {
            let x = self;
            let y = other;
            assert forall|j: int| 0 <= j < 128 implies r.bits()[j] == (x.bits()[j]
                != y.bits()[j]) by {
                let jj = j as u128;
                assert(u128_bit(x ^ y, jj) == (u128_bit(x, jj) != u128_bit(y, jj))) by (bit_vector)
                    requires
                        jj < 128,
                ;
            }
            assert(r.bits() =~= xor_bits(x.bits(), y.bits()));
        }
        r
    }

    fn oversized(len: usize) -> (b: bool) {
        proof {
            lemma2_to64();
            lemma_pow2_adds(64, 64);
            assert(2 * len < pow2(128));
        }
        true
    }
}

pub open spec fn usize_bit(x: usize, i: usize) -> bool {
    (x >> i) & 1 == 1
}

impl GenomeScalar for usize {
    open spec fn width() -> nat {
        usize::BITS as nat
    }

    open spec fn bits(self) -> Seq<bool> {
        Seq::new(usize::BITS as nat, |i: int| usize_bit(self, i as usize))
    }

    proof fn lemma_bits_len(self) {
    }

    proof fn lemma_bits_injective(self, other: Self) {
        let x = self;
        let y = other;
        let xw = x as u64;
        let yw = y as u64;
        assert forall|j: u64| j < 64 implies u64_bit(xw, j) == u64_bit(yw, j) by {
            if j < usize::BITS as u64 {
                let jj = j as usize;
                assert(x.bits()[j as int] == y.bits()[j as int]);
                assert(usize_bit(x, jj) == usize_bit(y, jj));
                assert(jj < usize::BITS ==> u64_bit(x as u64, jj as u64) == usize_bit(x, jj))
                    by (bit_vector);
                assert(jj < usize::BITS ==> u64_bit(y as u64, jj as u64) == usize_bit(y, jj))
                    by (bit_vector);
            } else {
                assert(j >= usize::BITS as u64 ==> !u64_bit(x as u64, j) && !u64_bit(y as u64, j))
                    by (bit_vector);
            }
        }
        lemma_u64_bits_agree(xw, yw, 64);
        assert(xw == yw) by (bit_vector)
            requires
                u64_bits_agree_below(xw, yw, 64),
        ;
    }

    fn width_exec() -> (w: usize) {
        usize::BITS as usize
    }

    fn zero() -> (z: Self) {
        proof {
            assert forall|j: int| 0 <= j < usize::BITS implies !(0usize.bits()[j]) by {
                let jj = j as usize;
                assert(jj < usize::BITS ==> !usize_bit(0usize, jj)) by (bit_vector);
            }
            assert(0usize.bits() =~= all_false(usize::BITS as nat));
        }
        0
    }

    fn flip_bit(self, i: usize) -> (r: Self) {
        let r = self ^ (1usize << i);
        proof {
            let x = self;
            let sh = i;
            assert forall|j: int| 0 <= j < usize::BITS implies r.bits()[j] == x.bits().update(
                i as int,
                !x.bits()[i as int],
            )[j] by {
                let jj = j as usize;
                assert(sh < usize::BITS && jj < usize::BITS ==> (usize_bit(x ^ (1usize << sh), jj)
                    == if jj == sh {
                    !usize_bit(x, jj)
                } else {
                    usize_bit(x, jj)
                })) by (bit_vector);
            }
            assert(r.bits() =~= x.bits().update(i as int, !x.bits()[i as int]));
        }
        r
    }

    fn bit_xor(self, other: Self) -> (r: Self) {
        let r = self ^ other;
        proof {
            let x = self;
            let y = other;
            assert forall|j: int| 0 <= j < usize::BITS implies r.bits()[j] == (x.bits()[j]
                != y.bits()[j]) by {
                let jj = j as usize;
                assert(jj < usize::BITS ==> (usize_bit(x ^ y, jj) == (usize_bit(x, jj)
                    != usize_bit(y, jj)))) by (bit_vector);
            }
            assert(r.bits() =~= xor_bits(x.bits(), y.bits()));
        }
        r
    }

    fn oversized(len: usize) -> (b: bool) {
        let shift: u32 = usize::BITS - 1;
        let threshold: usize = 1usize << shift;
        proof {
            lemma2_to64();
            lemma2_to64_rest();
            assert(usize::BITS == 32 ==> 1usize << shift == 0x80000000usize) by (bit_vector)
                requires
                    shift == usize::BITS - 1,
            ;
            assert(usize::BITS == 64 ==> 1usize << shift == (0x8000000000000000u64 as usize)) by (bit_vector)
                requires
                    shift == usize::BITS - 1,
            ;
        }
        len < threshold
    }
}

} // verus!
