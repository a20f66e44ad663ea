//! Products of a vector with the matrix and with its transpose, for any
//! kind of number. The caller brings the numbers and how to add and divide
//! them; this module says which operations are made and in which order.
//! A number is only ever divided by a denominator of the matrix, which is
//! at least 1. Each slot of a product is worked out on its own, from the
//! whole input vector, so the slots can be shared out among parallel
//! workers.

use rayon::iter::{IndexedParallelIterator, IntoParallelRefIterator, ParallelIterator};
use rayon::slice::ParallelSliceMut;
use vstd::prelude::*;
use crate::chunks::{chunk_plan, lemma_chunk_of_slot, split_plan, Chunk};
use crate::dimension::Dimension;
use crate::fold::{folds_along, folds_to};
use crate::matrix::{oriented_denominator, Orientation};

verus! {

/// Whether `terms` lists what one lane takes in on the way to output slot
/// `row`: lane 0 reads the input slots with an even index, lane 1 those with
/// an odd index, and each slot is divided by the denominator of the matrix
/// entry that it meets.
pub open spec fn lane_quotients<T, Q: Fn(T, usize) -> T>(
    quotient: Q,
    v: Seq<T>,
    orientation: Orientation,
    row: nat,
    lane: nat,
    terms: Seq<T>,
) -> bool {
    &&& 2 * terms.len() == v.len()
    &&& forall|k: int|
        0 <= k < terms.len() ==> call_ensures(
            quotient,
            (v[2 * k + lane], oriented_denominator(orientation, row, (2 * k + lane) as nat) as usize),
            #[trigger] terms[k],
        )
}

/// Whether `total` is what one lane holds at the end of a row: its quotients,
/// added up from the left.
pub open spec fn lane_is<T, Q: Fn(T, usize) -> T, S: Fn(T, T) -> T>(
    quotient: Q,
    sum: S,
    zero: T,
    v: Seq<T>,
    orientation: Orientation,
    row: nat,
    lane: nat,
    total: T,
) -> bool {
    exists|terms: Seq<T>| #[trigger]
        lane_quotients(quotient, v, orientation, row, lane, terms) && folds_to(sum, zero, terms, total)
}

/// Whether `value` is slot `row` of the product of `v` with the matrix that
/// `orientation` names: the sum of the two lanes.
pub open spec fn slot_is<T, Q: Fn(T, usize) -> T, S: Fn(T, T) -> T>(
    quotient: Q,
    sum: S,
    zero: T,
    v: Seq<T>,
    orientation: Orientation,
    row: nat,
    value: T,
) -> bool {
    exists|even: T, odd: T|
        #![trigger lane_is(quotient, sum, zero, v, orientation, row, 0, even), lane_is(quotient, sum, zero, v, orientation, row, 1, odd)]
        {
            &&& lane_is(quotient, sum, zero, v, orientation, row, 0, even)
            &&& lane_is(quotient, sum, zero, v, orientation, row, 1, odd)
            &&& call_ensures(sum, (even, odd), value)
        }
}

/// One slot of the product of `v` with the matrix that `orientation` names.
/// The input is read two slots at a time, each pair adding to two running
/// totals; the slot is the sum of the two.
pub fn row_product<T, Q, S>(
    dimension: &Dimension,
    orientation: Orientation,
    v: &[T],
    row: usize,
    zero: T,
    quotient: &Q,
    sum: &S,
) -> (value: T) where T: Copy, Q: Fn(T, usize) -> T, S: Fn(T, T) -> T
    requires
        v@.len() == dimension@,
        row < dimension@,
        forall|x: T, d: usize| d >= 1 ==> call_requires(*quotient, (x, d)),
        forall|a: T, b: T| call_requires(*sum, (a, b)),
    ensures
        slot_is(*quotient, *sum, zero, v@, orientation, row as nat, value),
{
    let n = dimension.get();
    let pairs = dimension.pairs();
    let mut even = zero;
    let mut odd = zero;
    let ghost mut even_terms: Seq<T> = Seq::empty();
    let ghost mut odd_terms: Seq<T> = Seq::empty();
    let ghost mut even_partial: Seq<T> = seq![zero];
    let ghost mut odd_partial: Seq<T> = seq![zero];
    let mut pair: usize = 0;
    while pair < pairs
        invariant
            pair <= pairs,
            2 * pairs == n,
            v@.len() == n,
            n == dimension@,
            row < n,
            even_terms.len() == pair,
            odd_terms.len() == pair,
            forall|k: int|
                0 <= k < pair ==> call_ensures(
                    *quotient,
                    (v@[2 * k + 0], oriented_denominator(orientation, row as nat, (2 * k + 0) as nat) as usize),
                    #[trigger] even_terms[k],
                ),
            forall|k: int|
                0 <= k < pair ==> call_ensures(
                    *quotient,
                    (v@[2 * k + 1], oriented_denominator(orientation, row as nat, (2 * k + 1) as nat) as usize),
                    #[trigger] odd_terms[k],
                ),
            folds_along(*sum, zero, even_terms, even_partial),
            folds_along(*sum, zero, odd_terms, odd_partial),
            even_partial.last() == even,
            odd_partial.last() == odd,
            forall|x: T, d: usize| d >= 1 ==> call_requires(*quotient, (x, d)),
            forall|a: T, b: T| call_requires(*sum, (a, b)),
        decreases pairs - pair,
    {
        let bottom = dimension.denominators(orientation, row, pair);
        let even_term = quotient(v[2 * pair], bottom.0);
        let odd_term = quotient(v[2 * pair + 1], bottom.1);
        let even_next = sum(even, even_term);
        let odd_next = sum(odd, odd_term);
        proof {
            even_terms = even_terms.push(even_term);
            odd_terms = odd_terms.push(odd_term);
            even_partial = even_partial.push(even_next);
            odd_partial = odd_partial.push(odd_next);
        }
        even = even_next;
        odd = odd_next;
        pair += 1;
    }
    let value = sum(even, odd);
    proof {
        assert(lane_quotients(*quotient, v@, orientation, row as nat, 0, even_terms));
        assert(lane_quotients(*quotient, v@, orientation, row as nat, 1, odd_terms));
        assert(lane_is(*quotient, *sum, zero, v@, orientation, row as nat, 0, even));
        assert(lane_is(*quotient, *sum, zero, v@, orientation, row as nat, 1, odd));
    }
    value
}

/// Whether `out` holds the slots `start`, `start + 1`, ... of the product of
/// `v` with the matrix that `orientation` names.
pub open spec fn product_is<T, Q: Fn(T, usize) -> T, S: Fn(T, T) -> T>(
    quotient: Q,
    sum: S,
    zero: T,
    v: Seq<T>,
    orientation: Orientation,
    start: nat,
    out: Seq<T>,
) -> bool {
    forall|offset: int|
        0 <= offset < out.len() ==> slot_is(
            quotient,
            sum,
            zero,
            v,
            orientation,
            (start + offset) as nat,
            #[trigger] out[offset],
        )
}

/// Workers that each fill one chunk of the output vector fill all of it:
/// where every chunk holds its share of the product, the vector holds the
/// product.
pub proof fn lemma_chunks_make_the_product<T, Q: Fn(T, usize) -> T, S: Fn(T, T) -> T>(
    quotient: Q,
    sum: S,
    zero: T,
    v: Seq<T>,
    orientation: Orientation,
    out: Seq<T>,
)
    requires
        out.len() <= usize::MAX,
        forall|k: int|
            0 <= k < chunk_plan(out.len()).len() ==> product_is(
                quotient,
                sum,
                zero,
                v,
                orientation,
                (#[trigger] chunk_plan(out.len())[k]).start as nat,
                out.subrange(
                    chunk_plan(out.len())[k].start as int,
                    chunk_plan(out.len())[k].end() as int,
                ),
            ),
    ensures
        product_is(quotient, sum, zero, v, orientation, 0, out),
{
    let plan = chunk_plan(out.len());
    assert forall|row: int| 0 <= row < out.len() implies slot_is(
        quotient,
        sum,
        zero,
        v,
        orientation,
        row as nat,
        #[trigger] out[row],
    ) by {
        let k = lemma_chunk_of_slot(out.len() as usize, row as nat);
        let chunk = plan[k];
        let share = out.subrange(chunk.start as int, chunk.end() as int);
        assert(product_is(quotient, sum, zero, v, orientation, chunk.start as nat, share));
        assert(share[row - chunk.start] == out[row]);
    }
}

/// Fills `out` with the slots `start`, `start + 1`, ... of the product of `v`
/// with the matrix that `orientation` names. Every slot of `out` is
/// overwritten, and nothing of what it held is read.
pub fn mult<T, Q, S>(
    dimension: &Dimension,
    orientation: Orientation,
    v: &[T],
    out: &mut [T],
    start: usize,
    zero: T,
    quotient: &Q,
    sum: &S,
) where T: Copy, Q: Fn(T, usize) -> T, S: Fn(T, T) -> T
    requires
        v@.len() == dimension@,
        start + old(out)@.len() <= dimension@,
        forall|x: T, d: usize| d >= 1 ==> call_requires(*quotient, (x, d)),
        forall|a: T, b: T| call_requires(*sum, (a, b)),
    ensures
        final(out)@.len() == old(out)@.len(),
        product_is(*quotient, *sum, zero, v@, orientation, start as nat, final(out)@),
{
    let n = dimension.get();
    let len = out.len();
    let mut offset: usize = 0;
    while offset < len
        invariant
            offset <= len,
            out@.len() == len,
            len == old(out)@.len(),
            v@.len() == n,
            n == dimension@,
            start + len <= n,
            forall|done: int|
                0 <= done < offset ==> slot_is(
                    *quotient,
                    *sum,
                    zero,
                    v@,
                    orientation,
                    (start + done) as nat,
                    #[trigger] out@[done],
                ),
            forall|x: T, d: usize| d >= 1 ==> call_requires(*quotient, (x, d)),
            forall|a: T, b: T| call_requires(*sum, (a, b)),
        decreases len - offset,
    {
        let value = row_product(dimension, orientation, v, start + offset, zero, quotient, sum);
        out[offset] = value;
        offset += 1;
    }
}

/// Shares the slots of `out` out among the workers of rayon's thread pool.
/// The body is one chain of calls into rayon: `par_chunks_mut`
/// (`rayon::slice::ParallelSliceMut`) cuts `out` into consecutive chunks of
/// `size` slots, the last one shorter where `size` does not divide the
/// length; `zip` (`rayon::iter::IndexedParallelIterator`) pairs the chunks,
/// in their order, with the entries of `chunks`; `for_each`
/// (`rayon::iter::ParallelIterator`) runs `mult` on every pair and returns
/// when all are done.
///
/// Nothing of this is proved. The contract claims of rayon that every chunk
/// of `out` is handed to `mult` once, together with the entry of the plan
/// that has its number, and that `out` is changed in no other way. What a
/// chunk holds afterwards is then what `mult` ensures for it. The
/// preconditions are those under which `par_chunks_mut` does not panic
/// (`size` is not zero), the plan has one entry for each chunk, and each
/// call of `mult` meets what `mult` requires.
#[verifier::external_body]
fn fill_chunks<T, Q, S>(
    dimension: &Dimension,
    orientation: Orientation,
    v: &[T],
    out: &mut [T],
    size: usize,
    chunks: &Vec<Chunk>,
    zero: T,
    quotient: &Q,
    sum: &S,
) where T: Copy + Send + Sync, Q: Fn(T, usize) -> T + Sync, S: Fn(T, T) -> T + Sync
    requires
        size >= 1,
        chunks@ == split_plan(old(out)@.len(), size as nat),
        v@.len() == dimension@,
        old(out)@.len() == dimension@,
        forall|x: T, d: usize| d >= 1 ==> call_requires(*quotient, (x, d)),
        forall|a: T, b: T| call_requires(*sum, (a, b)),
    ensures
        final(out)@.len() == old(out)@.len(),
        forall|k: int|
            0 <= k < chunks@.len() ==> product_is(
                *quotient,
                *sum,
                zero,
                v@,
                orientation,
                (#[trigger] chunks@[k]).start as nat,
                final(out)@.subrange(chunks@[k].start as int, chunks@[k].end() as int),
            ),
{
    out.par_chunks_mut(size).zip(chunks.par_iter()).for_each(
        |(slots, chunk)| mult(dimension, orientation, v, slots, chunk.start, zero, quotient, sum),
    );
}

/// The product of `v` with the matrix that `orientation` names, each chunk
/// of it computed by a worker of its own. Every slot of `out` is overwritten,
/// and nothing of what it held is read.
pub fn par_mult<T, Q, S>(
    dimension: &Dimension,
    orientation: Orientation,
    v: &[T],
    out: &mut [T],
    zero: T,
    quotient: &Q,
    sum: &S,
) where T: Copy + Send + Sync, Q: Fn(T, usize) -> T + Sync, S: Fn(T, T) -> T + Sync
    requires
        v@.len() == dimension@,
        old(out)@.len() == dimension@,
        forall|x: T, d: usize| d >= 1 ==> call_requires(*quotient, (x, d)),
        forall|a: T, b: T| call_requires(*sum, (a, b)),
    ensures
        final(out)@.len() == old(out)@.len(),
        product_is(*quotient, *sum, zero, v@, orientation, 0, final(out)@),
{
    let size = dimension.chunk_size();
    let chunks = dimension.chunks();
    fill_chunks(dimension, orientation, v, out, size, &chunks, zero, quotient, sum);
    proof {
        dimension.lemma_fits_a_word();
        lemma_chunks_make_the_product(*quotient, *sum, zero, v@, orientation, out@);
    }
}

/// Whether `out` is the product of `v` with the normal matrix: the product
/// with the matrix, multiplied by the transpose.
pub open spec fn normal_product_is<T, Q: Fn(T, usize) -> T, S: Fn(T, T) -> T>(
    quotient: Q,
    sum: S,
    zero: T,
    v: Seq<T>,
    out: Seq<T>,
) -> bool {
    exists|tmp: Seq<T>|
        #![trigger product_is(quotient, sum, zero, v, Orientation::Direct, 0, tmp)]
        {
            &&& tmp.len() == v.len()
            &&& out.len() == v.len()
            &&& product_is(quotient, sum, zero, v, Orientation::Direct, 0, tmp)
            &&& product_is(quotient, sum, zero, tmp, Orientation::Transposed, 0, out)
        }
}

/// The product of `v` with the normal matrix, in two steps that share the
/// scratch vector `tmp`: `tmp` becomes the product of `v` with the matrix,
/// then `out` the product of `tmp` with the transpose. Both are overwritten
/// in every slot, and nothing of what they held is read.
#[allow(non_snake_case)]
pub fn mult_AtAv<T, Q, S>(
    dimension: &Dimension,
    v: &[T],
    out: &mut [T],
    tmp: &mut [T],
    zero: T,
    quotient: &Q,
    sum: &S,
) where T: Copy + Send + Sync, Q: Fn(T, usize) -> T + Sync, S: Fn(T, T) -> T + Sync
    requires
        v@.len() == dimension@,
        old(out)@.len() == dimension@,
        old(tmp)@.len() == dimension@,
        forall|x: T, d: usize| d >= 1 ==> call_requires(*quotient, (x, d)),
        forall|a: T, b: T| call_requires(*sum, (a, b)),
    ensures
        final(out)@.len() == old(out)@.len(),
        final(tmp)@.len() == old(tmp)@.len(),
        product_is(*quotient, *sum, zero, v@, Orientation::Direct, 0, final(tmp)@),
        product_is(*quotient, *sum, zero, final(tmp)@, Orientation::Transposed, 0, final(out)@),
        normal_product_is(*quotient, *sum, zero, v@, final(out)@),
{
    par_mult(dimension, Orientation::Direct, v, tmp, zero, quotient, sum);
    par_mult(dimension, Orientation::Transposed, tmp, out, zero, quotient, sum);
}

} // verus!
