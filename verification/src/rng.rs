//! A small deterministic random source, passed explicitly through the
//! generator and the scheduler so that tests can supply fixed seeds.
//!
//! The contracts state only what holds of every outcome: a drawn number lies
//! in its range, and a shuffle permutes its input.

use vstd::prelude::*;
use vstd::multiset::Multiset;
use vstd::seq_lib::to_multiset_update;

verus! {

/// A xorshift pseudo-random number generator.
pub struct Rng {
    state: u64,
}

impl Rng {
    /// A generator seeded with the given value.
    pub fn new(seed: u64) -> Rng {
        Rng { state: if seed == 0 { 0x9E37_79B9_7F4A_7C15u64 } else { seed } }
    }

    /// The next raw draw.
    pub fn next_u64(&mut self) -> u64 {
        let mut x = self.state;
        x = x ^ (x << 13u64);
        x = x ^ (x >> 7u64);
        x = x ^ (x << 17u64);
        self.state = x;
        x
    }

    /// A draw from `lo..=hi`.
    pub fn range_inclusive(&mut self, lo: u64, hi: u64) -> (r: u64)
        requires
            lo <= hi,
            hi - lo < u64::MAX,
        ensures
            lo <= r <= hi,
    {
        let span = hi - lo + 1;
        let draw = self.next_u64() % span;
        lo + draw
    }

    /// A draw from `0..n`.
    pub fn below(&mut self, n: usize) -> (r: usize)
        requires
            n > 0,
        ensures
            r < n,
    {
        (self.next_u64() % (n as u64)) as usize
    }

    /// One draw of an event with probability `chance`: true with
    /// `numerator` cases out of `denominator`.
    pub fn below_rational(&mut self, chance: crate::data::Rational) -> (b: bool)
        requires
            chance.denominator >= 1,
    {
        let draw = self.next_u64() % (chance.denominator as u64);
        draw < chance.numerator as u64
    }

    /// Reorders the elements in place; the collection keeps exactly the
    /// elements it had.
    pub fn shuffle<T: Copy>(&mut self, v: &mut Vec<T>)
        ensures
            final(v)@.to_multiset() == old(v)@.to_multiset(),
            final(v)@.len() == old(v)@.len(),
    {
        let mut i: usize = v.len();
        while i > 1
            invariant
                i <= v@.len(),
                v@.len() == old(v)@.len(),
                v@.to_multiset() == old(v)@.to_multiset(),
            decreases i,
        {
            let j = self.below(i);
            i = i - 1;
            let a = v[i];
            let b = v[j];
            let ghost before = v@;
            v.set(i, b);
            v.set(j, a);
            proof {
                broadcast use vstd::seq_lib::group_to_multiset_ensures;

                to_multiset_update(before, i as int, b);
                to_multiset_update(before.update(i as int, b), j as int, a);
                if i == j {
                    assert(v@ =~= before);
                } else {
                    assert(before.update(i as int, b)[j as int] == before[j as int]);
                    assert(before.contains(a));
                    lemma_swap_multiset(before.to_multiset(), a, b);
                }
            }
        }
    }
}

/// Taking `a` out and putting it back, around an insertion of `b`, leaves
/// the multiset with `b` added; used to show a swap is a permutation.
proof fn lemma_swap_multiset<T>(m: Multiset<T>, a: T, b: T)
    requires
        m.count(a) > 0,
    ensures
        m.insert(b).remove(a).insert(a).remove(b) == m,
{
    assert(m.insert(b).remove(a).insert(a).remove(b) =~= m);
}

} // verus!
