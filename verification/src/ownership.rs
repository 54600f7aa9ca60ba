//! Two small exercises in ownership: copying a limb vector before giving it
//! away, and writing through an exclusive borrow into an enum.

use vstd::prelude::*;
use crate::bigint::BigInt;

verus! {

/// A value that is either a number or a text.
pub enum Variant {
    Number(i32),
    Text(String),
}

/// Builds the same number twice from one limb vector: once from a copy of
/// the vector, once from the vector itself, which is given up by that.
pub fn clone_demo() {
    let v: Vec<u64> = vec![0, 1 << 16];
    let b1 = BigInt::from_vec((&v).clone());
    let b2 = BigInt::from_vec(v);
    assert(b1@ == b2@);
}

/// Overwrites the number inside `var` through an exclusive borrow of it; a
/// text is left alone. While the borrow lives, `var` itself cannot be
/// assigned, so the borrow always points at a number.
#[allow(unused_variables)]
pub fn work_on_variant(var: Variant, text: String) {
    let mut var = var;
    let ptr: &mut i32;
    match var {
        Variant::Number(ref mut n) => ptr = n,
        Variant::Text(_) => return,
    }
    *ptr = 1337;
    assert(var == Variant::Number(1337));
}

} // verus!
