//! The minimum of two numbers and of a list of numbers, and the first
//! element of a list.

use vstd::prelude::*;
use crate::bigint::BigInt;
use crate::digits::{
    lemma_highest_difference_decides, lemma_shorter_is_smaller, lemma_value_injective, smaller,
    value_of,
};

verus! {

/// Whether `least` is a least element of `numbers`: it occurs among them and
/// none of them denotes a smaller number.
pub open spec fn is_least_of(least: Seq<u64>, numbers: Seq<BigInt>) -> bool {
    &&& exists|i: int| 0 <= i < numbers.len() && #[trigger] numbers[i]@ == least
    &&& forall|j: int| 0 <= j < numbers.len() ==> value_of(least) <= #[trigger] numbers[j].value()
}

/// Whether every number of `numbers` is well-formed.
pub open spec fn all_wf(numbers: Seq<BigInt>) -> bool {
    forall|i: int| 0 <= i < numbers.len() ==> #[trigger] numbers[i].wf()
}

/// A list of well-formed numbers has at most one least element.
pub proof fn lemma_least_is_unique(first: Seq<u64>, second: Seq<u64>, numbers: Seq<BigInt>)
    requires
        all_wf(numbers),
        is_least_of(first, numbers),
        is_least_of(second, numbers),
    ensures
        first == second,
{
    let i = choose|i: int| 0 <= i < numbers.len() && #[trigger] numbers[i]@ == first;
    let j = choose|j: int| 0 <= j < numbers.len() && #[trigger] numbers[j]@ == second;
    assert(numbers[i].wf() && numbers[j].wf());
    assert(value_of(second) <= numbers[i].value());
    assert(value_of(first) <= numbers[j].value());
    lemma_value_injective(first, second);
}

impl BigInt {
    /// The smaller of two well-formed numbers.
    ///
    /// The number with fewer limbs is the smaller one. Where both have the
    /// same number of limbs, they are compared limb by limb from the
    /// most-significant end, and the first limb that differs decides.
    pub fn min_try1(self, other: Self) -> (least: Self)
        requires
            self.wf(),
            other.wf(),
        ensures
            least.wf(),
            least@ == smaller(self@, other@),
    {
        if self.data.len() < other.data.len() {
            proof {
                lemma_shorter_is_smaller(self@, other@);
            }
            self
        } else if self.data.len() > other.data.len() {
            proof {
                lemma_shorter_is_smaller(other@, self@);
            }
            other
        } else {
            let mut i: usize = self.data.len();
            while i > 0
                invariant
                    self.wf(),
                    other.wf(),
                    i <= self@.len(),
                    self@.len() == other@.len(),
                    forall|j: int| i <= j < self@.len() ==> self@[j] == other@[j],
                decreases i,
            {
                i -= 1;
                if self.data[i] < other.data[i] {
                    proof {
                        lemma_highest_difference_decides(self@, other@, i as int);
                    }
                    return self;
                } else if self.data[i] > other.data[i] {
                    proof {
                        lemma_highest_difference_decides(other@, self@, i as int);
                    }
                    return other;
                }
            }
            proof {
                assert(self@ =~= other@);
            }
            self
        }
    }
}

/// The least of the numbers in `v`, as an independent copy; `None` where
/// `v` is empty.
pub fn vec_min(v: &Vec<BigInt>) -> (least: Option<BigInt>)
    requires
        all_wf(v@),
    ensures
        least is None <==> v@.len() == 0,
        least matches Some(m) ==> m.wf() && is_least_of(m@, v@),
{
    let mut least: Option<BigInt> = None;
    let mut i: usize = 0;
    while i < v.len()
        invariant
            i <= v@.len(),
            all_wf(v@),
            least is None <==> i == 0,
            least matches Some(m) ==> m.wf() && is_least_of(m@, v@.take(i as int)),
        decreases v@.len() - i,
    {
        let e = v[i].clone();
        let ghost seen = v@.take(i as int);
        let ghost next = v@.take(i + 1);
        assert(next[i as int]@ == e@);
        assert(v@[i as int].wf());
        least = Some(
            match least {
                None => e,
                Some(n) => {
                    let m = e.min_try1(n);
                    proof {
                        let k = choose|k: int| 0 <= k < seen.len() && #[trigger] seen[k]@ == n@;
                        assert(next[k]@ == n@);
                        assert forall|j: int| 0 <= j < next.len() implies value_of(m@)
                            <= #[trigger] next[j].value() by {
                            if j < i {
                                assert(seen[j] == next[j]);
                            }
                        }
                    }
                    m
                },
            },
        );
        i += 1;
    }
    proof {
        assert(v@.take(i as int) =~= v@);
    }
    least
}

/// The first element of `v`; `None` where `v` is empty.
pub fn head<T>(v: &Vec<T>) -> (first: Option<&T>)
    ensures
        first == if v@.len() > 0 {
            Some(&v@[0])
        } else {
            None
        },
{
    if v.len() > 0 {
        Some(&v[0])
    } else {
        None
    }
}

/// The first element of a list that is not empty.
pub fn rust_foo(v: Vec<i32>) -> (first: i32)
    requires
        v@.len() > 0,
    ensures
        first == v@[0],
{
    let first: Option<&i32> = head(&v);
    *first.unwrap()
}

} // verus!
