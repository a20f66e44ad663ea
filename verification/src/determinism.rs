//! Why two runs agree. The library fixes every operation and its place in
//! the order, whatever the number of workers and however the chunks fall to
//! them. So where the caller's arithmetic gives one result for each pair of
//! arguments, each vector on the way and the estimate at the end can come
//! out in one way only.

use vstd::prelude::*;
use crate::fold::{folds_along, folds_to};
use crate::matrix::Orientation;
use crate::multiply::{lane_is, lane_quotients, normal_product_is, product_is, slot_is};
use crate::power::{dot_is, estimate_is, iterates, products_of, spectralnorm_is};

verus! {

/// Whether `f` gives one result for each pair of arguments.
pub open spec fn single_valued<A, B, T, F: Fn(A, B) -> T>(f: F) -> bool {
    forall|a: A, b: B, first: T, second: T|
        #![trigger call_ensures(f, (a, b), first), call_ensures(f, (a, b), second)]
        call_ensures(f, (a, b), first) && call_ensures(f, (a, b), second) ==> first == second
}

/// Two lists of running totals over the same terms agree up to any place.
proof fn lemma_partials_agree<T, S: Fn(T, T) -> T>(
    sum: S,
    zero: T,
    terms: Seq<T>,
    first: Seq<T>,
    second: Seq<T>,
    k: int,
)
    requires
        single_valued::<T, T, T, S>(sum),
        folds_along(sum, zero, terms, first),
        folds_along(sum, zero, terms, second),
        0 <= k <= terms.len(),
    ensures
        first[k] == second[k],
    decreases k,
{
    if k > 0 {
        lemma_partials_agree(sum, zero, terms, first, second, k - 1);
        assert(call_ensures(sum, (first[k - 1], terms[k - 1]), first[k - 1 + 1]));
        assert(call_ensures(sum, (second[k - 1], terms[k - 1]), second[k - 1 + 1]));
    }
}

/// Adding up the same terms from the left gives the same total.
pub proof fn lemma_fold_single_valued<T, S: Fn(T, T) -> T>(
    sum: S,
    zero: T,
    terms: Seq<T>,
    first: T,
    second: T,
)
    requires
        single_valued::<T, T, T, S>(sum),
        folds_to(sum, zero, terms, first),
        folds_to(sum, zero, terms, second),
    ensures
        first == second,
{
    let one = choose|partial: Seq<T>| #[trigger]
        folds_along(sum, zero, terms, partial) && partial.last() == first;
    let other = choose|partial: Seq<T>| #[trigger]
        folds_along(sum, zero, terms, partial) && partial.last() == second;
    lemma_partials_agree(sum, zero, terms, one, other, terms.len() as int);
}

/// A lane ends a row with the same total whenever it is worked out again.
pub proof fn lemma_lane_single_valued<T, Q: Fn(T, usize) -> T, S: Fn(T, T) -> T>(
    quotient: Q,
    sum: S,
    zero: T,
    v: Seq<T>,
    orientation: Orientation,
    row: nat,
    lane: nat,
    first: T,
    second: T,
)
    requires
        single_valued::<T, usize, T, Q>(quotient),
        single_valued::<T, T, T, S>(sum),
        lane_is(quotient, sum, zero, v, orientation, row, lane, first),
        lane_is(quotient, sum, zero, v, orientation, row, lane, second),
    ensures
        first == second,
{
    let one = choose|terms: Seq<T>| #[trigger]
        lane_quotients(quotient, v, orientation, row, lane, terms) && folds_to(sum, zero, terms, first);
    let other = choose|terms: Seq<T>| #[trigger]
        lane_quotients(quotient, v, orientation, row, lane, terms) && folds_to(
            sum,
            zero,
            terms,
            second,
        );
    assert forall|k: int| 0 <= k < one.len() implies one[k] == other[k] by {
        let _ = one[k];
        let _ = other[k];
    }
    assert(one =~= other);
    lemma_fold_single_valued(sum, zero, one, first, second);
}

/// A slot of a product holds the same value whenever it is worked out again.
pub proof fn lemma_slot_single_valued<T, Q: Fn(T, usize) -> T, S: Fn(T, T) -> T>(
    quotient: Q,
    sum: S,
    zero: T,
    v: Seq<T>,
    orientation: Orientation,
    row: nat,
    first: T,
    second: T,
)
    requires
        single_valued::<T, usize, T, Q>(quotient),
        single_valued::<T, T, T, S>(sum),
        slot_is(quotient, sum, zero, v, orientation, row, first),
        slot_is(quotient, sum, zero, v, orientation, row, second),
    ensures
        first == second,
{
    let (even_one, odd_one) = choose|even: T, odd: T|
        #![trigger lane_is(quotient, sum, zero, v, orientation, row, 0, even), lane_is(quotient, sum, zero, v, orientation, row, 1, odd)]
        {
            &&& lane_is(quotient, sum, zero, v, orientation, row, 0, even)
            &&& lane_is(quotient, sum, zero, v, orientation, row, 1, odd)
            &&& call_ensures(sum, (even, odd), first)
        };
    let (even_other, odd_other) = choose|even: T, odd: T|
        #![trigger lane_is(quotient, sum, zero, v, orientation, row, 0, even), lane_is(quotient, sum, zero, v, orientation, row, 1, odd)]
        {
            &&& lane_is(quotient, sum, zero, v, orientation, row, 0, even)
            &&& lane_is(quotient, sum, zero, v, orientation, row, 1, odd)
            &&& call_ensures(sum, (even, odd), second)
        };
    lemma_lane_single_valued(quotient, sum, zero, v, orientation, row, 0, even_one, even_other);
    lemma_lane_single_valued(quotient, sum, zero, v, orientation, row, 1, odd_one, odd_other);
}

/// A product comes out the same whenever it is worked out again, in one
/// piece or in chunks.
pub proof fn lemma_product_single_valued<T, Q: Fn(T, usize) -> T, S: Fn(T, T) -> T>(
    quotient: Q,
    sum: S,
    zero: T,
    v: Seq<T>,
    orientation: Orientation,
    start: nat,
    first: Seq<T>,
    second: Seq<T>,
)
    requires
        single_valued::<T, usize, T, Q>(quotient),
        single_valued::<T, T, T, S>(sum),
        first.len() == second.len(),
        product_is(quotient, sum, zero, v, orientation, start, first),
        product_is(quotient, sum, zero, v, orientation, start, second),
    ensures
        first == second,
{
    assert forall|offset: int| 0 <= offset < first.len() implies first[offset] == second[offset] by {
        lemma_slot_single_valued(
            quotient,
            sum,
            zero,
            v,
            orientation,
            (start + offset) as nat,
            first[offset],
            second[offset],
        );
    }
    assert(first =~= second);
}

/// A product with the normal matrix comes out the same whenever it is worked
/// out again.
pub proof fn lemma_normal_product_single_valued<T, Q: Fn(T, usize) -> T, S: Fn(T, T) -> T>(
    quotient: Q,
    sum: S,
    zero: T,
    v: Seq<T>,
    first: Seq<T>,
    second: Seq<T>,
)
    requires
        single_valued::<T, usize, T, Q>(quotient),
        single_valued::<T, T, T, S>(sum),
        normal_product_is(quotient, sum, zero, v, first),
        normal_product_is(quotient, sum, zero, v, second),
    ensures
        first == second,
{
    let one = choose|tmp: Seq<T>|
        #![trigger product_is(quotient, sum, zero, v, Orientation::Direct, 0, tmp)]
        {
            &&& tmp.len() == v.len()
            &&& first.len() == v.len()
            &&& product_is(quotient, sum, zero, v, Orientation::Direct, 0, tmp)
            &&& product_is(quotient, sum, zero, tmp, Orientation::Transposed, 0, first)
        };
    let other = choose|tmp: Seq<T>|
        #![trigger product_is(quotient, sum, zero, v, Orientation::Direct, 0, tmp)]
        {
            &&& tmp.len() == v.len()
            &&& second.len() == v.len()
            &&& product_is(quotient, sum, zero, v, Orientation::Direct, 0, tmp)
            &&& product_is(quotient, sum, zero, tmp, Orientation::Transposed, 0, second)
        };
    lemma_product_single_valued(quotient, sum, zero, v, Orientation::Direct, 0, one, other);
    lemma_product_single_valued(quotient, sum, zero, one, Orientation::Transposed, 0, first, second);
}

/// Two iterations agree on both vectors after each round that both have run.
proof fn lemma_rounds_agree<T, Q: Fn(T, usize) -> T, S: Fn(T, T) -> T>(
    quotient: Q,
    sum: S,
    zero: T,
    one: T,
    n: nat,
    us: Seq<Seq<T>>,
    vs: Seq<Seq<T>>,
    other_us: Seq<Seq<T>>,
    other_vs: Seq<Seq<T>>,
    round: int,
)
    requires
        single_valued::<T, usize, T, Q>(quotient),
        single_valued::<T, T, T, S>(sum),
        iterates(quotient, sum, zero, one, n, us, vs),
        iterates(quotient, sum, zero, one, n, other_us, other_vs),
        0 <= round < us.len(),
        round < other_us.len(),
    ensures
        us[round] == other_us[round],
        vs[round] == other_vs[round],
    decreases round,
{
    if round > 0 {
        let before = round - 1;
        lemma_rounds_agree(quotient, sum, zero, one, n, us, vs, other_us, other_vs, before);
        let _ = us[before];
        let _ = other_us[before];
        lemma_normal_product_single_valued(quotient, sum, zero, us[before], vs[before + 1], other_vs[before + 1]);
        lemma_normal_product_single_valued(quotient, sum, zero, vs[before + 1], us[before + 1], other_us[before + 1]);
    }
}

/// A dot product comes out the same whenever it is worked out again.
pub proof fn lemma_dot_single_valued<T, M: Fn(T, T) -> T, S: Fn(T, T) -> T>(
    product: M,
    sum: S,
    zero: T,
    x: Seq<T>,
    y: Seq<T>,
    first: T,
    second: T,
)
    requires
        single_valued::<T, T, T, M>(product),
        single_valued::<T, T, T, S>(sum),
        dot_is(product, sum, zero, x, y, first),
        dot_is(product, sum, zero, x, y, second),
    ensures
        first == second,
{
    let one = choose|terms: Seq<T>| #[trigger]
        products_of(product, x, y, terms) && folds_to(sum, zero, terms, first);
    let other = choose|terms: Seq<T>| #[trigger]
        products_of(product, x, y, terms) && folds_to(sum, zero, terms, second);
    assert forall|i: int| 0 <= i < one.len() implies one[i] == other[i] by {
        let _ = one[i];
        let _ = other[i];
    }
    assert(one =~= other);
    lemma_fold_single_valued(sum, zero, one, first, second);
}

/// Two runs on vectors of the same length give the same estimate, bit for
/// bit, where the arithmetic gives one result for each pair of arguments.
/// The number of workers and the way the chunks fall to them have no part
/// in it.
pub proof fn lemma_spectralnorm_single_valued<
    T,
    Q: Fn(T, usize) -> T,
    S: Fn(T, T) -> T,
    M: Fn(T, T) -> T,
    R: Fn(T, T) -> T,
>(quotient: Q, sum: S, product: M, root_of_ratio: R, zero: T, one: T, n: nat, first: T, second: T)
    requires
        single_valued::<T, usize, T, Q>(quotient),
        single_valued::<T, T, T, S>(sum),
        single_valued::<T, T, T, M>(product),
        single_valued::<T, T, T, R>(root_of_ratio),
        spectralnorm_is(quotient, sum, product, root_of_ratio, zero, one, n, first),
        spectralnorm_is(quotient, sum, product, root_of_ratio, zero, one, n, second),
    ensures
        first == second,
{
    let (us, vs) = choose|us: Seq<Seq<T>>, vs: Seq<Seq<T>>|
        #![trigger iterates(quotient, sum, zero, one, n, us, vs)]
        {
            &&& iterates(quotient, sum, zero, one, n, us, vs)
            &&& us.len() == crate::power::ITERATIONS + 1
            &&& estimate_is(product, sum, root_of_ratio, zero, us.last(), vs.last(), first)
        };
    let (other_us, other_vs) = choose|us: Seq<Seq<T>>, vs: Seq<Seq<T>>|
        #![trigger iterates(quotient, sum, zero, one, n, us, vs)]
        {
            &&& iterates(quotient, sum, zero, one, n, us, vs)
            &&& us.len() == crate::power::ITERATIONS + 1
            &&& estimate_is(product, sum, root_of_ratio, zero, us.last(), vs.last(), second)
        };
    lemma_rounds_agree(quotient, sum, zero, one, n, us, vs, other_us, other_vs, us.len() - 1);
    let u = us.last();
    let v = vs.last();
    let (above, below) = choose|above: T, below: T|
        #![trigger dot_is(product, sum, zero, u, v, above), dot_is(product, sum, zero, v, v, below)]
        {
            &&& dot_is(product, sum, zero, u, v, above)
            &&& dot_is(product, sum, zero, v, v, below)
            &&& call_ensures(root_of_ratio, (above, below), first)
        };
    let (other_above, other_below) = choose|above: T, below: T|
        #![trigger dot_is(product, sum, zero, u, v, above), dot_is(product, sum, zero, v, v, below)]
        {
            &&& dot_is(product, sum, zero, u, v, above)
            &&& dot_is(product, sum, zero, v, v, below)
            &&& call_ensures(root_of_ratio, (above, below), second)
        };
    lemma_dot_single_valued(product, sum, zero, u, v, above, other_above);
    lemma_dot_single_valued(product, sum, zero, v, v, below, other_below);
}

} // verus!
