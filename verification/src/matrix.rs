//! The implicit matrix `A`. Its entry in row `i` and column `j` is the
//! reciprocal of a positive integer given in closed form, so no entry is ever
//! stored: this module computes the integers, two adjacent ones at a time.

use vstd::prelude::*;
use crate::pair::usizex2;

verus! {

/// The denominator of the entry of `A` in row `i` and column `j`: the entry
/// itself is `1 / denominator(i, j)`.
pub open spec fn denominator(i: nat, j: nat) -> nat {
    (i + j) * (i + j + 1) / 2 + i + 1
}

/// Whether the denominator of entry `(i, j)` can be worked out in machine
/// words: the product of the two consecutive numbers, taken before it is
/// halved, is the largest value on the way.
pub open spec fn computable(i: nat, j: nat) -> bool {
    (i + j) * (i + j + 1) <= usize::MAX
}

/// Every step on the way to a computable denominator fits in a machine word.
pub proof fn lemma_computable_steps(i: nat, j: nat)
    requires
        computable(i, j),
    ensures
        i + j + 1 <= usize::MAX,
        denominator(i, j) <= usize::MAX,
{
    let s = i + j;
    assert(s + 1 <= s * (s + 1) || s == 0) by (nonlinear_arith);
    assert(s * (s + 1) / 2 + s + 1 <= s * (s + 1) || s < 2) by (nonlinear_arith);
    if s < 2 {
        assert(s * (s + 1) <= 2) by (nonlinear_arith)
            requires
                s < 2,
        ;
    }
}

/// Entries whose indices add up to less than 65536 are computable on every
/// machine.
pub proof fn lemma_small_indices_are_computable(i: nat, j: nat)
    requires
        i + j <= 65535,
    ensures
        computable(i, j),
{
    let s = i + j;
    assert(s * (s + 1) <= 0xffff_ffff) by (nonlinear_arith)
        requires
            0 <= s <= 65535,
    ;
}

/// A computable entry stays computable when its row or column gets smaller.
pub proof fn lemma_computable_monotonic(i: nat, j: nat, i_max: nat, j_max: nat)
    requires
        i <= i_max,
        j <= j_max,
        computable(i_max, j_max),
    ensures
        computable(i, j),
{
    let s = i + j;
    let t = i_max + j_max;
    assert(s * (s + 1) <= t * (t + 1)) by (nonlinear_arith)
        requires
            s <= t,
    ;
}

/// No denominator is zero, so every entry of `A` is a finite positive number.
pub proof fn lemma_denominator_positive(i: nat, j: nat)
    ensures
        denominator(i, j) >= 1,
{
    let s = i + j;
    assert(s * (s + 1) >= 0) by (nonlinear_arith);
}

/// `A` is nowhere symmetric off its diagonal: mirrored entries have
/// denominators that differ by exactly the difference of their indices, so
/// they are equal only where row and column coincide.
pub proof fn lemma_mirror_difference(i: nat, j: nat)
    ensures
        denominator(i, j) - denominator(j, i) == i - j,
        denominator(i, j) == denominator(j, i) <==> i == j,
{
}

/// Which of the two matrices a multiplication applies: `A` itself, or its
/// transpose.
#[derive(Copy, Clone, Debug, PartialEq, Eq, Structural)]
pub enum Orientation {
    Direct,
    Transposed,
}

/// The denominator of the entry in row `i` and column `j` of the matrix that
/// `orientation` names. The transpose swaps the two indices.
pub open spec fn oriented_denominator(orientation: Orientation, i: nat, j: nat) -> nat {
    match orientation {
        Orientation::Direct => denominator(i, j),
        Orientation::Transposed => denominator(j, i),
    }
}

/// The denominators of two entries of `A` at once: lane by lane, `i` holds the
/// rows and `j` the columns.
#[allow(non_snake_case)]
pub fn Ax2(i: usizex2, j: usizex2) -> (d: usizex2)
    requires
        computable(i.0 as nat, j.0 as nat),
        computable(i.1 as nat, j.1 as nat),
    ensures
        d.0 == denominator(i.0 as nat, j.0 as nat),
        d.1 == denominator(i.1 as nat, j.1 as nat),
        d.0 >= 1,
        d.1 >= 1,
{
    proof {
        lemma_computable_steps(i.0 as nat, j.0 as nat);
        lemma_computable_steps(i.1 as nat, j.1 as nat);
    }
    (i + j) * (i + j + usizex2(1, 1)) / usizex2(2, 2) + i + usizex2(1, 1)
}

/// The denominators of two entries of the transpose of `A` at once: the entry
/// of the transpose in row `i` and column `j` is the entry of `A` in row `j`
/// and column `i`.
#[allow(non_snake_case)]
pub fn Atx2(i: usizex2, j: usizex2) -> (d: usizex2)
    requires
        computable(j.0 as nat, i.0 as nat),
        computable(j.1 as nat, i.1 as nat),
    ensures
        d.0 == denominator(j.0 as nat, i.0 as nat),
        d.1 == denominator(j.1 as nat, i.1 as nat),
        d.0 >= 1,
        d.1 >= 1,
{
    Ax2(j, i)
}

} // verus!

