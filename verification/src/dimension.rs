//! The size of the problem. A vector length is accepted once, when a
//! `Dimension` is made; everything that is handed out afterwards stays inside
//! the matrix and inside the machine word.

use vstd::prelude::*;
use crate::chunks::{chunk_plan, chunk_ranges, quarter, tiles, Chunk};
use crate::matrix::{
    computable, lemma_computable_monotonic, lemma_small_indices_are_computable, oriented_denominator,
    Atx2, Ax2, Orientation,
};
use crate::pair::usizex2;

verus! {

/// Why a vector length is turned down.
#[derive(Copy, Clone, Debug, PartialEq, Eq, Structural)]
pub enum InvalidDimension {
    /// The length is odd: the input is read two slots at a time.
    Odd,
    /// The length is zero: the estimate would divide zero by zero.
    Zero,
    /// The length is so large that a denominator of the matrix would not fit
    /// in a machine word.
    TooLarge,
}

/// Whether `n` is a length to work with: even, at least 2, and small enough
/// that the denominator of every entry in the first `n` rows and columns can
/// be computed.
pub open spec fn acceptable(n: nat) -> bool {
    &&& n >= 2
    &&& n % 2 == 0
    &&& computable((n - 1) as nat, (n - 1) as nat)
}

/// What is wrong with `n` as a vector length, if anything. An odd length is
/// reported as odd whatever its size.
pub open spec fn rejection(n: nat) -> Option<InvalidDimension> {
    if n % 2 == 1 {
        Some(InvalidDimension::Odd)
    } else if n == 0 {
        Some(InvalidDimension::Zero)
    } else if !computable((n - 1) as nat, (n - 1) as nat) {
        Some(InvalidDimension::TooLarge)
    } else {
        None
    }
}

/// Even lengths from 2 to 32768 are acceptable on every machine.
pub proof fn lemma_small_lengths_are_acceptable(n: nat)
    requires
        2 <= n <= 32768,
        n % 2 == 0,
    ensures
        acceptable(n),
{
    lemma_small_indices_are_computable((n - 1) as nat, (n - 1) as nat);
}

/// With an acceptable length, every entry of the leading `n` by `n` block of
/// the matrix and of its transpose has a computable denominator.
pub proof fn lemma_acceptable_block(n: nat, i: nat, j: nat)
    requires
        acceptable(n),
        i < n,
        j < n,
    ensures
        computable(i, j),
        computable(j, i),
{
    lemma_computable_monotonic(i, j, (n - 1) as nat, (n - 1) as nat);
    lemma_computable_monotonic(j, i, (n - 1) as nat, (n - 1) as nat);
}

/// An accepted vector length.
#[derive(Copy, Clone, Debug)]
pub struct Dimension {
    n: usize,
}

impl View for Dimension {
    type V = nat;

    closed spec fn view(&self) -> nat {
        self.n as nat
    }
}

impl Dimension {
    #[verifier::type_invariant]
    spec fn well_formed(&self) -> bool {
        acceptable(self.n as nat)
    }

    /// Accepts `n` as a vector length, or says what is wrong with it.
    pub fn new(n: usize) -> (made: Result<Dimension, InvalidDimension>)
        ensures
            made is Ok <==> acceptable(n as nat),
            n % 2 == 0 && 2 <= n <= 32768 ==> made is Ok,
            made matches Ok(dimension) ==> dimension@ == n,
            made matches Err(reason) ==> rejection(n as nat) == Some(reason),
            made matches Err(InvalidDimension::Odd) <==> n % 2 == 1,
            made matches Err(InvalidDimension::Zero) <==> n == 0,
    {
        if n % 2 == 1 {
            return Err(InvalidDimension::Odd);
        }
        if n == 0 {
            return Err(InvalidDimension::Zero);
        }
        proof {
            if n <= 32768 {
                lemma_small_lengths_are_acceptable(n as nat);
            }
        }
        let ghost last = (n - 1) as nat;
        let fits = match n.checked_mul(2) {
            None => {
                assert(!computable(last, last)) by (nonlinear_arith)
                    requires
                        last == n - 1,
                        n * 2 > usize::MAX,
                        usize::MAX >= 3,
                ;
                false
            },
            Some(twice) => {
                assert((last + last) * (last + last + 1) == (twice - 2) * (twice - 1))
                    by (nonlinear_arith)
                    requires
                        last == n - 1,
                        twice == n * 2,
                ;
                (twice - 2).checked_mul(twice - 1).is_some()
            },
        };
        if fits {
            Ok(Dimension { n })
        } else {
            Err(InvalidDimension::TooLarge)
        }
    }

    /// An accepted length fits in a machine word.
    pub proof fn lemma_fits_a_word(&self)
        ensures
            self@ <= usize::MAX,
    {
    }

    /// The length.
    pub fn get(&self) -> (n: usize)
        ensures
            n == self@,
            acceptable(n as nat),
    {
        proof {
            use_type_invariant(self);
        }
        self.n
    }

    /// The number of pairs of adjacent slots that the vector is read in. No
    /// slot is left over.
    pub fn pairs(&self) -> (count: usize)
        ensures
            2 * count == self@,
    {
        proof {
            use_type_invariant(self);
        }
        self.n / 2
    }

    /// The number of slots that each parallel worker but the last fills.
    pub fn chunk_size(&self) -> (size: usize)
        ensures
            size == quarter(self@),
            size >= 1,
    {
        proof {
            use_type_invariant(self);
        }
        crate::chunks::chunk_size(self.n)
    }

    /// The chunks of the output vector, one for each parallel worker. They
    /// tile the vector.
    pub fn chunks(&self) -> (chunks: Vec<Chunk>)
        ensures
            chunks@ == chunk_plan(self@),
            tiles(chunks@, self@),
            1 <= chunks@.len() <= 4,
    {
        proof {
            use_type_invariant(self);
        }
        chunk_ranges(self.n)
    }

    /// The denominators of the two adjacent matrix entries that meet input
    /// pair `pair` on the way to output slot `row`: those in row `row` and
    /// columns `2 * pair` and `2 * pair + 1` of the matrix that `orientation`
    /// names.
    pub fn denominators(&self, orientation: Orientation, row: usize, pair: usize) -> (d: usizex2)
        requires
            row < self@,
            2 * pair < self@,
        ensures
            d.0 == oriented_denominator(orientation, row as nat, (2 * pair) as nat),
            d.1 == oriented_denominator(orientation, row as nat, (2 * pair + 1) as nat),
            d.0 >= 1,
            d.1 >= 1,
    {
        proof {
            use_type_invariant(self);
            lemma_acceptable_block(self.n as nat, row as nat, (2 * pair) as nat);
            lemma_acceptable_block(self.n as nat, row as nat, (2 * pair + 1) as nat);
        }
        let i = usizex2(row, row);
        let j = usizex2(2 * pair, 2 * pair + 1);
        match orientation {
            Orientation::Direct => Ax2(i, j),
            Orientation::Transposed => Atx2(i, j),
        }
    }
}

} // verus!
