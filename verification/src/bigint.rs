//! The number type: its representation, its constructors and the
//! inspections that only borrow it.

use vstd::prelude::*;
use crate::digits::{
    is_normalized, lemma_nonzero_count_empty, lemma_nonzero_count_push,
    lemma_normalize_keeps_value, nonzero_count, normalize, value_of,
};

verus! {

/// A natural number of any size.
///
/// `data` holds the limbs, least-significant first. A well-formed number
/// has no most-significant zero limb, so zero is the empty vector and every
/// number has exactly one representation.
pub struct BigInt {
    pub data: Vec<u64>,
}

impl View for BigInt {
    type V = Seq<u64>;

    /// The limbs, least-significant first.
    open spec fn view(&self) -> Seq<u64> {
        self.data@
    }
}

impl Clone for BigInt {
    /// An independent copy with the same limbs.
    fn clone(&self) -> (copy: Self)
        ensures
            copy@ == self@,
    {
        BigInt { data: self.data.clone() }
    }
}

impl BigInt {
    /// The natural number that the limbs denote.
    pub open spec fn value(&self) -> nat {
        value_of(self@)
    }

    /// Well-formedness: the limbs are normalized.
    pub open spec fn wf(&self) -> bool {
        is_normalized(self@)
    }

    /// The number `x`: no limb for zero, the single limb `x` otherwise.
    pub fn new(x: u64) -> (number: Self)
        ensures
            number.wf(),
            number@ == if x == 0 {
                Seq::<u64>::empty()
            } else {
                seq![x]
            },
            number.value() == x,
    {
        if x == 0 {
            BigInt { data: vec![] }
        } else {
            let number = BigInt { data: vec![x] };
            proof {
                assert(number@ =~= seq![x]);
                assert(number@.drop_first() =~= Seq::<u64>::empty());
                assert(value_of(number@.drop_first()) == 0);
            }
            number
        }
    }

    /// Whether the representation invariant holds: the vector is empty or
    /// its last limb is not zero.
    pub fn test_invariant(&self) -> (holds: bool)
        ensures
            holds == self.wf(),
    {
        if self.data.len() == 0 {
            true
        } else {
            self.data[self.data.len() - 1] != 0
        }
    }

    /// The number denoted by the limbs `v`, which may end in zero limbs:
    /// they are removed.
    pub fn from_vec(v: Vec<u64>) -> (number: Self)
        ensures
            number.wf(),
            number@ == normalize(v@),
            number.value() == value_of(v@),
    {
        let mut v = v;
        let ghost given = v@;
        while v.len() > 0 && v[v.len() - 1] == 0
            invariant
                normalize(v@) == normalize(given),
            decreases v.len(),
        {
            proof {
                assert(v@.subrange(0, v@.len() - 1) =~= v@.drop_last());
            }
            v.pop();
        }
        proof {
            lemma_normalize_keeps_value(given);
        }
        BigInt { data: v }
    }

    /// The number of limbs; zero has none.
    pub fn number_of_digits(&self) -> (count: usize)
        ensures
            count == self@.len(),
    {
        self.data.len()
    }

    /// The number of limbs that are not zero.
    pub fn non_zero_digits(&self) -> (count: u64)
        ensures
            count == nonzero_count(self@),
    {
        let mut count: u64 = 0;
        let mut i: usize = 0;
        proof {
            lemma_nonzero_count_empty();
            assert(self@.take(0) =~= Seq::<u64>::empty());
        }
        while i < self.data.len()
            invariant
                i <= self@.len(),
                count <= i,
                count == nonzero_count(self@.take(i as int)),
            decreases self@.len() - i,
        {
            proof {
                lemma_nonzero_count_push(self@.take(i as int), self@[i as int]);
                assert(self@.take(i as int).push(self@[i as int]) =~= self@.take(i + 1));
            }
            if self.data[i] != 0 {
                count += 1;
            }
            i += 1;
        }
        proof {
            assert(self@.take(i as int) =~= self@);
        }
        count
    }
}

} // verus!
