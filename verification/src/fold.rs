//! Adding up from the left, for any kind of number. Where addition is not
//! associative the order of the additions decides the total, so it is part
//! of what the library promises.

use vstd::prelude::*;

verus! {

/// Whether `partial` lists the running totals of adding up `terms` from the
/// left, starting at `zero`: each total is what `sum` gave for the total
/// before it and the next term.
pub open spec fn folds_along<T, S: Fn(T, T) -> T>(
    sum: S,
    zero: T,
    terms: Seq<T>,
    partial: Seq<T>,
) -> bool {
    &&& partial.len() == terms.len() + 1
    &&& partial[0] == zero
    &&& forall|k: int|
        0 <= k < terms.len() ==> call_ensures(sum, (partial[k], #[trigger] terms[k]), partial[k + 1])
}

/// Whether `total` is what adding up `terms` from the left gives, starting at
/// `zero`.
pub open spec fn folds_to<T, S: Fn(T, T) -> T>(sum: S, zero: T, terms: Seq<T>, total: T) -> bool {
    exists|partial: Seq<T>| #[trigger] folds_along(sum, zero, terms, partial) && partial.last() == total
}

} // verus!
