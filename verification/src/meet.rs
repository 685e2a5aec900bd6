//! The pairs that the build-system smoke test prints.
use vstd::prelude::*;
use itertools::Itertools;

verus! {

/// The pairs `(i, j)` with `0 <= i < a` and `0 <= j < b`, `i` first.
pub open spec fn grid_pairs(a: i32, b: i32) -> Seq<(i32, i32)> {
    Seq::new((a * b) as nat, |k: int| ((k / (b as int)) as i32, (k % (b as int)) as i32))
}

/// `itertools::Itertools::cartesian_product` of `0..a` and `0..b`, collected:
/// every pair of an element of the first range with one of the second, in the
/// order of the first range, then of the second.
#[verifier::external_body]
fn cartesian_pairs(a: i32, b: i32) -> (v: Vec<(i32, i32)>)
    requires
        0 <= a,
        0 < b,
    ensures
        v@ == grid_pairs(a, b),
{
    (0..a).cartesian_product(0..b).collect()
}

/// The pairs of `0..2` with `0..2`.
pub fn meet_pairs() -> (v: Vec<(i32, i32)>)
    ensures
        v@ == seq![(0i32, 0i32), (0i32, 1i32), (1i32, 0i32), (1i32, 1i32)],
{
    let v = cartesian_pairs(2, 2);
    assert(v@ == seq![(0i32, 0i32), (0i32, 1i32), (1i32, 0i32), (1i32, 1i32)]);
    v
}

} // verus!
