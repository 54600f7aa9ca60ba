//! The mathematical model: limb sequences, the naturals they denote, and
//! the canonical (normalized) form in which every natural has one sequence.

use vstd::prelude::*;

verus! {

/// `n` moved up by one limb: multiplied by the radix, two to the power 64.
pub open spec fn shifted(n: nat) -> nat {
    n * 0x1_0000_0000_0000_0000
}

/// The natural number denoted by `limbs`, least-significant limb first.
pub open spec fn value_of(limbs: Seq<u64>) -> nat
    decreases limbs.len(),
{
    if limbs.len() == 0 {
        0
    } else {
        limbs[0] as nat + shifted(value_of(limbs.drop_first()))
    }
}

/// The weight of the limb at `position`: the radix to that power.
pub open spec fn weight(position: nat) -> nat
    decreases position,
{
    if position == 0 {
        1
    } else {
        shifted(weight((position - 1) as nat))
    }
}

/// A sequence is normalized when it has no most-significant zero limb:
/// it is empty, or its last limb is not zero.
pub open spec fn is_normalized(limbs: Seq<u64>) -> bool {
    limbs.len() == 0 || limbs.last() != 0
}

/// `limbs` with every trailing (most-significant) zero limb removed.
pub open spec fn normalize(limbs: Seq<u64>) -> Seq<u64>
    decreases limbs.len(),
{
    if limbs.len() > 0 && limbs.last() == 0 {
        normalize(limbs.drop_last())
    } else {
        limbs
    }
}

/// The number of limbs of `limbs` that are not zero.
pub open spec fn nonzero_count(limbs: Seq<u64>) -> nat {
    limbs.filter(|limb: u64| limb != 0).len()
}

/// The number of limbs of `limbs` that are zero.
pub open spec fn zero_count(limbs: Seq<u64>) -> nat {
    limbs.filter(|limb: u64| limb == 0).len()
}

/// Of two limb sequences, the one that denotes the smaller natural; the
/// first where both denote the same one.
pub open spec fn smaller(a: Seq<u64>, b: Seq<u64>) -> Seq<u64> {
    if value_of(a) <= value_of(b) {
        a
    } else {
        b
    }
}

/// Normalizing yields a normalized sequence.
pub proof fn lemma_normalize_is_normalized(limbs: Seq<u64>)
    ensures
        is_normalized(normalize(limbs)),
    decreases limbs.len(),
{
    if limbs.len() > 0 && limbs.last() == 0 {
        lemma_normalize_is_normalized(limbs.drop_last());
    }
}

/// Normalizing keeps a prefix of the sequence and drops only zero limbs.
pub proof fn lemma_normalize_is_prefix(limbs: Seq<u64>)
    ensures
        normalize(limbs).len() <= limbs.len(),
        normalize(limbs) == limbs.take(normalize(limbs).len() as int),
        forall|i: int| normalize(limbs).len() <= i < limbs.len() ==> limbs[i] == 0,
    decreases limbs.len(),
{
    if limbs.len() > 0 && limbs.last() == 0 {
        let rest = limbs.drop_last();
        lemma_normalize_is_prefix(rest);
        let kept = normalize(rest).len() as int;
        assert(rest.take(kept) =~= limbs.take(kept));
        assert forall|i: int| kept <= i < limbs.len() implies limbs[i] == 0 by {
            if i < rest.len() {
                assert(rest[i] == limbs[i]);
            }
        }
    } else {
        assert(limbs.take(limbs.len() as int) =~= limbs);
    }
}

/// A normalized sequence is left as it is.
pub proof fn lemma_normalize_fixes_normalized(limbs: Seq<u64>)
    requires
        is_normalized(limbs),
    ensures
        normalize(limbs) == limbs,
{
}

/// The normal form is the only normalized prefix that leaves out nothing
/// but zero limbs.
pub proof fn lemma_normalize_is_unique(limbs: Seq<u64>, kept: int)
    requires
        0 <= kept <= limbs.len(),
        is_normalized(limbs.take(kept)),
        forall|i: int| kept <= i < limbs.len() ==> limbs[i] == 0,
    ensures
        normalize(limbs) == limbs.take(kept),
    decreases limbs.len(),
{
    if kept == limbs.len() {
        assert(limbs.take(kept) =~= limbs);
    } else {
        let rest = limbs.drop_last();
        assert(rest.take(kept) =~= limbs.take(kept));
        lemma_normalize_is_unique(rest, kept);
    }
}

/// Normalizing twice is normalizing once.
pub proof fn lemma_normalize_idempotent(limbs: Seq<u64>)
    ensures
        normalize(normalize(limbs)) == normalize(limbs),
{
    lemma_normalize_is_normalized(limbs);
    lemma_normalize_fixes_normalized(normalize(limbs));
}

/// One more limb on the most-significant side adds that limb times its
/// weight, so the value is the sum of the limbs, each times its weight.
pub proof fn lemma_value_push(limbs: Seq<u64>, limb: u64)
    ensures
        value_of(limbs.push(limb)) == value_of(limbs) + limb * weight(limbs.len()),
    decreases limbs.len(),
{
    let longer = limbs.push(limb);
    if limbs.len() == 0 {
        assert(longer.drop_first() =~= limbs);
        assert(value_of(longer) == longer[0] as nat + shifted(value_of(limbs)));
        assert(limb * weight(0) == limb) by (nonlinear_arith)
            requires
                weight(0) == 1,
        ;
    } else {
        let rest = limbs.drop_first();
        let below = weight(rest.len());
        lemma_value_push(rest, limb);
        assert(longer.drop_first() =~= rest.push(limb));
        assert(weight(limbs.len()) == shifted(below));
        assert(shifted((limb * below) as nat) == limb * shifted(below)) by (nonlinear_arith);
    }
}

/// A zero limb on the most-significant side adds nothing to the value.
pub proof fn lemma_value_push_zero(limbs: Seq<u64>)
    ensures
        value_of(limbs.push(0)) == value_of(limbs),
{
    lemma_value_push(limbs, 0);
}

/// Normalizing keeps the value.
pub proof fn lemma_normalize_keeps_value(limbs: Seq<u64>)
    ensures
        value_of(normalize(limbs)) == value_of(limbs),
    decreases limbs.len(),
{
    if limbs.len() > 0 && limbs.last() == 0 {
        let rest = limbs.drop_last();
        lemma_normalize_keeps_value(rest);
        lemma_value_push_zero(rest);
        assert(rest.push(0) =~= limbs);
    }
}

/// A sequence whose most-significant limb is not zero denotes a positive
/// number.
pub proof fn lemma_value_positive(limbs: Seq<u64>)
    requires
        limbs.len() > 0,
        limbs.last() != 0,
    ensures
        value_of(limbs) > 0,
    decreases limbs.len(),
{
    if limbs.len() > 1 {
        let rest = limbs.drop_first();
        assert(rest.last() == limbs.last());
        lemma_value_positive(rest);
    }
}

/// Among normalized sequences the one with fewer limbs denotes the smaller
/// number, whatever the limbs are. Only the longer one needs to be
/// normalized.
pub proof fn lemma_shorter_is_smaller(a: Seq<u64>, b: Seq<u64>)
    requires
        a.len() < b.len(),
        is_normalized(b),
    ensures
        value_of(a) < value_of(b),
    decreases a.len(),
{
    if a.len() == 0 {
        lemma_value_positive(b);
    } else {
        let a_rest = a.drop_first();
        let b_rest = b.drop_first();
        assert(b_rest.last() == b.last());
        lemma_shorter_is_smaller(a_rest, b_rest);
    }
}

/// Among sequences of one length, the most-significant limb in which they
/// differ decides: the sequence with the smaller limb there denotes the
/// smaller number.
pub proof fn lemma_highest_difference_decides(a: Seq<u64>, b: Seq<u64>, i: int)
    requires
        a.len() == b.len(),
        0 <= i < a.len(),
        a[i] < b[i],
        forall|j: int| i < j < a.len() ==> a[j] == b[j],
    ensures
        value_of(a) < value_of(b),
    decreases a.len(),
{
    let a_rest = a.drop_first();
    let b_rest = b.drop_first();
    if i == 0 {
        assert(a_rest =~= b_rest);
    } else {
        assert forall|j: int| i - 1 < j < a_rest.len() implies a_rest[j] == b_rest[j] by {
            assert(a_rest[j] == a[j + 1]);
            assert(b_rest[j] == b[j + 1]);
        }
        lemma_highest_difference_decides(a_rest, b_rest, i - 1);
    }
}

/// Sequences of one length that denote the same number are the same.
proof fn lemma_same_length_injective(a: Seq<u64>, b: Seq<u64>)
    requires
        a.len() == b.len(),
        value_of(a) == value_of(b),
    ensures
        a == b,
    decreases a.len(),
{
    if a.len() == 0 {
        assert(a =~= b);
    } else {
        let a_rest = a.drop_first();
        let b_rest = b.drop_first();
        lemma_same_length_injective(a_rest, b_rest);
        assert(a =~= seq![a[0]] + a_rest);
        assert(b =~= seq![b[0]] + b_rest);
    }
}

/// Two normalized sequences that denote the same number are the same
/// sequence.
pub proof fn lemma_value_injective(a: Seq<u64>, b: Seq<u64>)
    requires
        is_normalized(a),
        is_normalized(b),
        value_of(a) == value_of(b),
    ensures
        a == b,
{
    if a.len() < b.len() {
        lemma_shorter_is_smaller(a, b);
    } else if b.len() < a.len() {
        lemma_shorter_is_smaller(b, a);
    } else {
        lemma_same_length_injective(a, b);
    }
}

/// The minimum does not depend on the order of its operands.
pub proof fn lemma_smaller_symmetric(a: Seq<u64>, b: Seq<u64>)
    requires
        is_normalized(a),
        is_normalized(b),
    ensures
        smaller(a, b) == smaller(b, a),
{
    if value_of(a) == value_of(b) {
        lemma_value_injective(a, b);
    }
}

/// Taking minimums of three sequences gives the same whichever two are
/// taken first.
pub proof fn lemma_smaller_associative(a: Seq<u64>, b: Seq<u64>, c: Seq<u64>)
    ensures
        smaller(smaller(a, b), c) == smaller(a, smaller(b, c)),
{
}

/// The minimum is one of the operands and denotes the smaller of the two
/// numbers.
pub proof fn lemma_smaller_is_minimum(a: Seq<u64>, b: Seq<u64>)
    ensures
        smaller(a, b) == a || smaller(a, b) == b,
        value_of(smaller(a, b)) <= value_of(a),
        value_of(smaller(a, b)) <= value_of(b),
{
}

/// No limb of the empty sequence is counted.
pub proof fn lemma_nonzero_count_empty()
    ensures
        nonzero_count(Seq::<u64>::empty()) == 0,
{
    Seq::<u64>::empty().lemma_filter_len(|limb: u64| limb != 0);
}

/// One more limb raises the count by one exactly when it is not zero.
pub proof fn lemma_nonzero_count_push(limbs: Seq<u64>, limb: u64)
    ensures
        nonzero_count(limbs.push(limb)) == nonzero_count(limbs) + if limb != 0 {
            1nat
        } else {
            0nat
        },
{
    limbs.lemma_filter_len_push(|limb: u64| limb != 0, limb);
}

/// The count is at most the number of limbs, and a normalized sequence
/// that is not empty has at least its last limb counted.
pub proof fn lemma_nonzero_count_bounds(limbs: Seq<u64>)
    ensures
        nonzero_count(limbs) <= limbs.len(),
        limbs.len() > 0 && is_normalized(limbs) ==> nonzero_count(limbs) >= 1,
{
    limbs.lemma_filter_len(|limb: u64| limb != 0);
    if limbs.len() > 0 {
        lemma_nonzero_count_push(limbs.drop_last(), limbs.last());
        assert(limbs.drop_last().push(limbs.last()) =~= limbs);
    }
}

/// Every limb is either zero or not.
pub proof fn lemma_counts_add_up(limbs: Seq<u64>)
    ensures
        nonzero_count(limbs) + zero_count(limbs) == limbs.len(),
    decreases limbs.len(),
{
    if limbs.len() == 0 {
        limbs.lemma_filter_len(|limb: u64| limb != 0);
        limbs.lemma_filter_len(|limb: u64| limb == 0);
    } else {
        let rest = limbs.drop_last();
        lemma_counts_add_up(rest);
        rest.lemma_filter_len_push(|limb: u64| limb != 0, limbs.last());
        rest.lemma_filter_len_push(|limb: u64| limb == 0, limbs.last());
        assert(rest.push(limbs.last()) =~= limbs);
    }
}

/// In a normalized sequence that is not empty, the limbs that are not
/// counted are the zero limbs below the most-significant one.
pub proof fn lemma_nonzero_count_of_normalized(limbs: Seq<u64>)
    requires
        is_normalized(limbs),
        limbs.len() > 0,
    ensures
        nonzero_count(limbs) == limbs.len() - zero_count(limbs.drop_last()),
{
    let rest = limbs.drop_last();
    lemma_counts_add_up(limbs);
    rest.lemma_filter_len_push(|limb: u64| limb == 0, limbs.last());
    assert(rest.push(limbs.last()) =~= limbs);
}

} // verus!
