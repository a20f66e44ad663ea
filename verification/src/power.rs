//! Power iteration on the normal matrix: the iterate is taken through the
//! matrix and its transpose a fixed number of times, with no test for
//! convergence, and the norm is estimated from the last two vectors.

use vstd::prelude::*;
use crate::dimension::{acceptable, rejection, Dimension, InvalidDimension};
use crate::fold::{folds_along, folds_to};
use crate::multiply::{mult_AtAv, normal_product_is};

verus! {

/// Whether `terms` lists the products of the slots of `x` and `y` that have
/// the same index.
pub open spec fn products_of<T, M: Fn(T, T) -> T>(product: M, x: Seq<T>, y: Seq<T>, terms: Seq<T>) -> bool {
    &&& terms.len() == (if x.len() <= y.len() {
        x.len()
    } else {
        y.len()
    })
    &&& forall|i: int| 0 <= i < terms.len() ==> call_ensures(product, (x[i], y[i]), #[trigger] terms[i])
}

/// Whether `total` is the dot product of `x` and `y`: their products slot by
/// slot, added up from the left.
pub open spec fn dot_is<T, M: Fn(T, T) -> T, S: Fn(T, T) -> T>(
    product: M,
    sum: S,
    zero: T,
    x: Seq<T>,
    y: Seq<T>,
    total: T,
) -> bool {
    exists|terms: Seq<T>| #[trigger] products_of(product, x, y, terms) && folds_to(sum, zero, terms, total)
}

/// The dot product of two vectors. Where one is longer, its surplus slots are
/// left out.
pub fn dot<T, M, S>(x: &[T], y: &[T], zero: T, product: &M, sum: &S) -> (total: T) where
    T: Copy,
    M: Fn(T, T) -> T,
    S: Fn(T, T) -> T,

    requires
        forall|a: T, b: T| call_requires(*product, (a, b)),
        forall|a: T, b: T| call_requires(*sum, (a, b)),
    ensures
        dot_is(*product, *sum, zero, x@, y@, total),
{
    let len = if x.len() <= y.len() {
        x.len()
    } else {
        y.len()
    };
    let mut total = zero;
    let ghost mut terms: Seq<T> = Seq::empty();
    let ghost mut partial: Seq<T> = seq![zero];
    let mut i: usize = 0;
    while i < len
        invariant
            i <= len,
            len <= x@.len(),
            len <= y@.len(),
            terms.len() == i,
            forall|k: int| 0 <= k < i ==> call_ensures(*product, (x@[k], y@[k]), #[trigger] terms[k]),
            folds_along(*sum, zero, terms, partial),
            partial.last() == total,
            forall|a: T, b: T| call_requires(*product, (a, b)),
            forall|a: T, b: T| call_requires(*sum, (a, b)),
        decreases len - i,
    {
        let term = product(x[i], y[i]);
        let next = sum(total, term);
        proof {
            terms = terms.push(term);
            partial = partial.push(next);
        }
        total = next;
        i += 1;
    }
    proof {
        assert(products_of(*product, x@, y@, terms));
    }
    total
}

/// Whether `estimate` is what the iteration reports from its last two
/// vectors: `root_of_ratio` applied to the dot product of `u` and `v` and to
/// that of `v` with itself, in this order.
pub open spec fn estimate_is<T, M: Fn(T, T) -> T, S: Fn(T, T) -> T, R: Fn(T, T) -> T>(
    product: M,
    sum: S,
    root_of_ratio: R,
    zero: T,
    u: Seq<T>,
    v: Seq<T>,
    estimate: T,
) -> bool {
    exists|above: T, below: T|
        #![trigger dot_is(product, sum, zero, u, v, above), dot_is(product, sum, zero, v, v, below)]
        {
            &&& dot_is(product, sum, zero, u, v, above)
            &&& dot_is(product, sum, zero, v, v, below)
            &&& call_ensures(root_of_ratio, (above, below), estimate)
        }
}

/// The estimate of the norm from the last two vectors of the iteration: the
/// square root of their Rayleigh quotient. `root_of_ratio` is the caller's
/// way to divide its first argument by its second and take the square root;
/// it is handed the dot product of `u` and `v`, then that of `v` with itself.
pub fn norm_estimate<T, M, S, R>(
    u: &[T],
    v: &[T],
    zero: T,
    product: &M,
    sum: &S,
    root_of_ratio: &R,
) -> (estimate: T) where T: Copy, M: Fn(T, T) -> T, S: Fn(T, T) -> T, R: Fn(T, T) -> T
    requires
        forall|a: T, b: T| call_requires(*product, (a, b)),
        forall|a: T, b: T| call_requires(*sum, (a, b)),
        forall|a: T, b: T| call_requires(*root_of_ratio, (a, b)),
    ensures
        estimate_is(*product, *sum, *root_of_ratio, zero, u@, v@, estimate),
{
    let above = dot(u, v, zero, product, sum);
    let below = dot(v, v, zero, product, sum);
    root_of_ratio(above, below)
}

/// How often the iterate is taken through the normal matrix and back.
pub const ITERATIONS: usize = 10;

/// Whether `us` and `vs` list the two vectors of an iteration on `n` slots
/// as they stand at the start and after each round. At the start `u` is all
/// `one` and `v` all `zero`; a round makes `v` the product of `u` with the
/// normal matrix, and then `u` the product of the new `v`.
pub open spec fn iterates<T, Q: Fn(T, usize) -> T, S: Fn(T, T) -> T>(
    quotient: Q,
    sum: S,
    zero: T,
    one: T,
    n: nat,
    us: Seq<Seq<T>>,
    vs: Seq<Seq<T>>,
) -> bool {
    &&& us.len() >= 1
    &&& vs.len() == us.len()
    &&& us[0] == Seq::new(n, |i: int| one)
    &&& vs[0] == Seq::new(n, |i: int| zero)
    &&& forall|round: int|
        0 <= round < us.len() - 1 ==> {
            &&& normal_product_is(quotient, sum, zero, #[trigger] us[round], vs[round + 1])
            &&& normal_product_is(quotient, sum, zero, vs[round + 1], us[round + 1])
        }
}

/// Whether `estimate` is the estimate of the norm from the leading `n` by `n`
/// block of the matrix: what the two vectors give after the last round.
pub open spec fn spectralnorm_is<
    T,
    Q: Fn(T, usize) -> T,
    S: Fn(T, T) -> T,
    M: Fn(T, T) -> T,
    R: Fn(T, T) -> T,
>(quotient: Q, sum: S, product: M, root_of_ratio: R, zero: T, one: T, n: nat, estimate: T) -> bool {
    exists|us: Seq<Seq<T>>, vs: Seq<Seq<T>>|
        #![trigger iterates(quotient, sum, zero, one, n, us, vs)]
        {
            &&& iterates(quotient, sum, zero, one, n, us, vs)
            &&& us.len() == ITERATIONS + 1
            &&& estimate_is(product, sum, root_of_ratio, zero, us.last(), vs.last(), estimate)
        }
}

/// A vector of `n` slots that all hold `value`.
fn filled<T: Copy>(n: usize, value: T) -> (vector: Vec<T>)
    ensures
        vector@ == Seq::new(n as nat, |i: int| value),
{
    let mut vector: Vec<T> = Vec::new();
    while vector.len() < n
        invariant
            vector@.len() <= n,
            forall|i: int| 0 <= i < vector@.len() ==> vector@[i] == value,
        decreases n - vector@.len(),
    {
        vector.push(value);
    }
    assert(vector@ =~= Seq::new(n as nat, |i: int| value));
    vector
}

/// The estimate of the spectral norm of the matrix from its leading `n` by
/// `n` block, or why `n` is no size to work with.
pub fn spectralnorm<T, Q, S, M, R>(
    n: usize,
    zero: T,
    one: T,
    quotient: &Q,
    sum: &S,
    product: &M,
    root_of_ratio: &R,
) -> (answer: Result<T, InvalidDimension>) where
    T: Copy + Send + Sync,
    Q: Fn(T, usize) -> T + Sync,
    S: Fn(T, T) -> T + Sync,
    M: Fn(T, T) -> T,
    R: Fn(T, T) -> T,

    requires
        forall|x: T, d: usize| d >= 1 ==> call_requires(*quotient, (x, d)),
        forall|a: T, b: T| call_requires(*sum, (a, b)),
        forall|a: T, b: T| call_requires(*product, (a, b)),
        forall|a: T, b: T| call_requires(*root_of_ratio, (a, b)),
    ensures
        answer is Ok <==> acceptable(n as nat),
        n % 2 == 0 && 2 <= n <= 32768 ==> answer is Ok,
        answer matches Ok(estimate) ==> spectralnorm_is(
            *quotient,
            *sum,
            *product,
            *root_of_ratio,
            zero,
            one,
            n as nat,
            estimate,
        ),
        answer matches Err(reason) ==> rejection(n as nat) == Some(reason),
        answer matches Err(InvalidDimension::Odd) <==> n % 2 == 1,
        answer matches Err(InvalidDimension::Zero) <==> n == 0,
{
    let dimension = match Dimension::new(n) {
        Ok(dimension) => dimension,
        Err(reason) => {
            return Err(reason);
        },
    };
    let mut u = filled(n, one);
    let mut v = filled(n, zero);
    let mut tmp = filled(n, zero);
    let ghost mut us: Seq<Seq<T>> = seq![u@];
    let ghost mut vs: Seq<Seq<T>> = seq![v@];
    let mut round: usize = 0;
    while round < ITERATIONS
        invariant
            round <= ITERATIONS,
            dimension@ == n,
            u@.len() == n,
            v@.len() == n,
            tmp@.len() == n,
            iterates(*quotient, *sum, zero, one, n as nat, us, vs),
            us.len() == round + 1,
            us.last() == u@,
            vs.last() == v@,
            forall|x: T, d: usize| d >= 1 ==> call_requires(*quotient, (x, d)),
            forall|a: T, b: T| call_requires(*sum, (a, b)),
        decreases ITERATIONS - round,
    {
        mult_AtAv(&dimension, u.as_slice(), v.as_mut_slice(), tmp.as_mut_slice(), zero, quotient, sum);
        mult_AtAv(&dimension, v.as_slice(), u.as_mut_slice(), tmp.as_mut_slice(), zero, quotient, sum);
        round += 1;
        proof {
            us = us.push(u@);
            vs = vs.push(v@);
        }
    }
    Ok(norm_estimate(u.as_slice(), v.as_slice(), zero, product, sum, root_of_ratio))
}

} // verus!
