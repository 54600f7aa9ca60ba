use bigint_core::bigint::BigInt;
use bigint_core::minimum::{head, rust_foo, vec_min};

fn min_limbs(a: Vec<u64>, b: Vec<u64>) -> Vec<u64> {
    BigInt::from_vec(a).min_try1(BigInt::from_vec(b)).data
}

#[test]
fn min_prefers_fewer_limbs() {
    // Two limbs against three: the limbs themselves do not matter.
    assert_eq!(min_limbs(vec![9, 9], vec![0, 0, 1]), vec![9, 9]);
    assert_eq!(min_limbs(vec![0, 0, 1], vec![9, 9]), vec![9, 9]);
    assert_eq!(min_limbs(vec![u64::MAX, u64::MAX], vec![0, 0, 1]), vec![u64::MAX, u64::MAX]);
    assert_eq!(min_limbs(vec![u64::MAX], vec![0, 1]), vec![u64::MAX]);
}

#[test]
fn min_counts_limbs_after_stripping() {
    // [1, 0, 0] is the number one: its two zero limbs are trailing ones.
    assert_eq!(BigInt::from_vec(vec![1, 0, 0]).data, vec![1]);
    assert_eq!(min_limbs(vec![9, 9], vec![1, 0, 0]), vec![1]);
    assert_eq!(min_limbs(vec![1, 0, 0], vec![9, 9]), vec![1]);
}

#[test]
fn min_normalizes_before_counting_limbs() {
    // [9, 9, 0, 0] is the two-limb number [9, 9].
    assert_eq!(min_limbs(vec![9, 9, 0, 0], vec![0, 0, 1]), vec![9, 9]);
    assert_eq!(min_limbs(vec![0, 0, 1], vec![9, 9, 0, 0]), vec![9, 9]);
}

#[test]
fn min_of_equal_length_scans_from_the_top() {
    assert_eq!(min_limbs(vec![9, 1], vec![8, 1]), vec![8, 1]);
    assert_eq!(min_limbs(vec![8, 1], vec![9, 1]), vec![8, 1]);
}

#[test]
fn min_lets_the_higher_limb_decide() {
    // The lower limb says otherwise; the higher one wins.
    assert_eq!(min_limbs(vec![1, 9], vec![9, 1]), vec![9, 1]);
    assert_eq!(min_limbs(vec![9, 1], vec![1, 9]), vec![9, 1]);
    assert_eq!(min_limbs(vec![0, 0, 5], vec![u64::MAX, u64::MAX, 4]), vec![u64::MAX, u64::MAX, 4]);
    assert_eq!(min_limbs(vec![3, 7, 2], vec![4, 6, 2]), vec![4, 6, 2]);
}

#[test]
fn min_of_equal_values() {
    assert_eq!(BigInt::new(7).min_try1(BigInt::new(7)).data, BigInt::new(7).data);
    assert_eq!(min_limbs(vec![1, 2, 3], vec![1, 2, 3]), vec![1, 2, 3]);
    assert_eq!(min_limbs(vec![], vec![]), Vec::<u64>::new());
}

#[test]
fn min_with_zero_is_zero() {
    assert_eq!(BigInt::new(0).min_try1(BigInt::new(5)).data, Vec::<u64>::new());
    assert_eq!(BigInt::new(5).min_try1(BigInt::new(0)).data, Vec::<u64>::new());
    assert_eq!(min_limbs(vec![0, 0, 1], vec![0, 0]), Vec::<u64>::new());
}

#[test]
fn min_of_single_limbs_is_the_smaller_limb() {
    assert_eq!(BigInt::new(3).min_try1(BigInt::new(4)).data, vec![3]);
    assert_eq!(BigInt::new(4).min_try1(BigInt::new(3)).data, vec![3]);
    assert_eq!(BigInt::new(u64::MAX).min_try1(BigInt::new(1)).data, vec![1]);
}

#[test]
fn min_is_symmetric() {
    let samples: Vec<Vec<u64>> = vec![
        vec![],
        vec![1],
        vec![7],
        vec![9, 9],
        vec![1, 0, 0, 1],
        vec![9, 1],
        vec![8, 1],
        vec![1, 9],
        vec![0, 0, 1],
        vec![u64::MAX, u64::MAX],
    ];
    for a in samples.iter() {
        for b in samples.iter() {
            let ab = min_limbs(a.clone(), b.clone());
            let ba = min_limbs(b.clone(), a.clone());
            assert_eq!(ab, ba);
            assert!(ab == *a || ab == *b);
        }
    }
}

#[test]
fn min_keeps_the_invariant() {
    let least = BigInt::from_vec(vec![4, 0, 2, 0]).min_try1(BigInt::from_vec(vec![5, 0, 2]));
    assert!(least.test_invariant());
    assert_eq!(least.data, vec![4, 0, 2]);
}

#[test]
fn vec_min_of_nothing_is_none() {
    assert!(vec_min(&Vec::new()).is_none());
}

#[test]
fn vec_min_of_one_is_that_one() {
    let numbers = vec![BigInt::from_vec(vec![3, 4])];
    assert_eq!(vec_min(&numbers).unwrap().data, vec![3, 4]);
}

#[test]
fn vec_min_finds_the_least() {
    let numbers = vec![
        BigInt::from_vec(vec![9, 9]),
        BigInt::from_vec(vec![1, 0, 1]),
        BigInt::new(12),
        BigInt::from_vec(vec![8, 1]),
        BigInt::new(11),
        BigInt::from_vec(vec![9, 1]),
    ];
    let least = vec_min(&numbers).unwrap();
    assert_eq!(least.data, vec![11]);
    assert!(least.test_invariant());
    // The list is only borrowed.
    assert_eq!(numbers.len(), 6);
    assert_eq!(numbers[4].data, vec![11]);
}

#[test]
fn vec_min_with_the_least_first_and_last() {
    let first = vec![BigInt::new(0), BigInt::new(3), BigInt::new(2)];
    assert_eq!(vec_min(&first).unwrap().data, Vec::<u64>::new());
    let last = vec![BigInt::from_vec(vec![0, 2]), BigInt::from_vec(vec![5, 1]), BigInt::new(6)];
    assert_eq!(vec_min(&last).unwrap().data, vec![6]);
}

#[test]
fn vec_min_does_not_depend_on_the_order() {
    let forward = vec![BigInt::new(5), BigInt::from_vec(vec![0, 1]), BigInt::new(4)];
    let backward = vec![BigInt::new(4), BigInt::from_vec(vec![0, 1]), BigInt::new(5)];
    assert_eq!(vec_min(&forward).unwrap().data, vec_min(&backward).unwrap().data);
    assert_eq!(vec_min(&forward).unwrap().data, vec![4]);
}

#[test]
fn head_of_nothing_is_none() {
    let empty: Vec<i32> = Vec::new();
    assert!(head(&empty).is_none());
}

#[test]
fn head_is_the_first_element() {
    let numbers = vec![4, 5, 6];
    assert_eq!(head(&numbers), Some(&4));
    let words = vec![String::from("first"), String::from("second")];
    assert_eq!(head(&words).unwrap(), "first");
    let one = vec![BigInt::new(1)];
    assert_eq!(head(&one).unwrap().data, vec![1]);
}

#[test]
fn rust_foo_returns_the_first_element() {
    assert_eq!(rust_foo(vec![42]), 42);
    assert_eq!(rust_foo(vec![-3, 2, 1]), -3);
}
