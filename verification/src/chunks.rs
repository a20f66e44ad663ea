//! Cutting an index range into contiguous chunks of a fixed size, the last of
//! which may be shorter. One chunk of the output vector is the share of one
//! parallel worker, so the chunks must cover the range with no gap and no
//! overlap: that is what lets the workers write without synchronisation.

use vstd::prelude::*;

verus! {

/// The half-open index range `[start, start + len)`.
#[derive(Copy, Clone, Debug, PartialEq, Eq, Structural)]
pub struct Chunk {
    pub start: usize,
    pub len: usize,
}

impl Chunk {
    /// The first index behind the chunk.
    pub open spec fn end(self) -> nat {
        (self.start + self.len) as nat
    }

    /// Whether index `p` lies in the chunk.
    pub open spec fn contains(self, p: nat) -> bool {
        self.start <= p < self.start + self.len
    }
}

/// `a / b`, rounded up.
pub open spec fn ceil_div(a: nat, b: nat) -> nat
    recommends
        b > 0,
{
    if a % b == 0 {
        a / b
    } else {
        a / b + 1
    }
}

/// The smaller of two numbers.
pub open spec fn smaller(a: int, b: int) -> int {
    if a <= b {
        a
    } else {
        b
    }
}

/// The chunks of `[0, len)` when every chunk but the last holds `size`
/// indices: chunk `k` starts at `k * size`.
pub open spec fn split_plan(len: nat, size: nat) -> Seq<Chunk>
    recommends
        size > 0,
{
    Seq::new(
        ceil_div(len, size),
        |k: int| Chunk { start: (k * size) as usize, len: smaller(size as int, len - k * size) as usize },
    )
}

/// The chunk size for a vector of `n` slots: a quarter of it, rounded up.
pub open spec fn quarter(n: nat) -> nat {
    ceil_div(n, 4)
}

/// The chunks that a vector of `n` slots is cut into. An empty vector has
/// none.
pub open spec fn chunk_plan(n: nat) -> Seq<Chunk> {
    if n == 0 {
        Seq::empty()
    } else {
        split_plan(n, quarter(n))
    }
}

/// Whether `chunks`, in their order, cover `[0, len)` exactly: none is empty,
/// the first starts at 0, each of the others starts where the one before it
/// ends, and the last ends at `len`.
pub open spec fn tiles(chunks: Seq<Chunk>, len: nat) -> bool {
    &&& forall|k: int| 0 <= k < chunks.len() ==> (#[trigger] chunks[k]).len >= 1
    &&& forall|k: int|
        0 <= k < chunks.len() ==> (#[trigger] chunks[k]).start == (if k == 0 {
            0
        } else {
            chunks[k - 1].end()
        })
    &&& if chunks.len() == 0 {
        len == 0
    } else {
        chunks.last().end() == len
    }
}

/// Chunk `k` exists exactly when it has something to hold: the rounded-up
/// quotient counts the multiples of `size` below `len`.
pub proof fn lemma_ceil_div_counts(len: nat, size: nat, k: nat)
    requires
        size > 0,
    ensures
        k < ceil_div(len, size) <==> k * size < len,
{
    let q = len / size;
    let r = len % size;
    assert(len == q * size + r && 0 <= r < size) by (nonlinear_arith)
        requires
            size > 0,
            q == len / size,
            r == len % size,
    ;
    assert(k < q ==> k * size + size <= q * size) by (nonlinear_arith)
        requires
            size > 0,
    ;
    assert(k >= q ==> k * size >= q * size) by (nonlinear_arith)
        requires
            size > 0,
    ;
    assert(k > q ==> k * size >= q * size + size) by (nonlinear_arith)
        requires
            size > 0,
    ;
}

/// Cutting by a fixed size tiles the range: no gap, no overlap, no empty
/// chunk, and the number of chunks is the rounded-up quotient.
pub proof fn lemma_split_tiles(len: usize, size: usize)
    requires
        size >= 1,
    ensures
        split_plan(len as nat, size as nat).len() == ceil_div(len as nat, size as nat),
        tiles(split_plan(len as nat, size as nat), len as nat),
{
    let plan = split_plan(len as nat, size as nat);
    let count = ceil_div(len as nat, size as nat);
    assert forall|k: int| 0 <= k < plan.len() implies (#[trigger] plan[k]).len >= 1 && plan[k].start
        == (if k == 0 {
        0
    } else {
        plan[k - 1].end()
    }) by {
        lemma_ceil_div_counts(len as nat, size as nat, k as nat);
        if k > 0 {
            lemma_ceil_div_counts(len as nat, size as nat, (k - 1) as nat);
            assert((k - 1) * size == k * size - size) by (nonlinear_arith);
        } else {
            assert(k * size == 0) by (nonlinear_arith)
                requires
                    k == 0,
            ;
        }
    }
    if count > 0 {
        let k = (count - 1) as nat;
        lemma_ceil_div_counts(len as nat, size as nat, k);
        lemma_ceil_div_counts(len as nat, size as nat, count);
        assert(count * size == k * size + size) by (nonlinear_arith)
            requires
                count == k + 1,
        ;
        assert(plan.last() == plan[k as int]);
    } else {
        lemma_ceil_div_counts(len as nat, size as nat, 0);
        assert(0 * size == 0) by (nonlinear_arith);
    }
}

/// Every position of the range lies in exactly one chunk: the one whose
/// number is the position divided by the chunk size.
pub proof fn lemma_split_position(len: usize, size: usize, p: nat)
    requires
        size >= 1,
        p < len,
    ensures
        p / (size as nat) < split_plan(len as nat, size as nat).len(),
        split_plan(len as nat, size as nat)[(p / (size as nat)) as int].contains(p),
        forall|k: int|
            0 <= k < split_plan(len as nat, size as nat).len() && (#[trigger] split_plan(
                len as nat,
                size as nat,
            )[k]).contains(p) ==> k == p / (size as nat),
{
    let plan = split_plan(len as nat, size as nat);
    let q = p / (size as nat);
    let r = p % (size as nat);
    assert(p == q * size + r && 0 <= r < size) by (nonlinear_arith)
        requires
            size > 0,
            q == p / (size as nat),
            r == p % (size as nat),
    ;
    lemma_ceil_div_counts(len as nat, size as nat, q);
    assert forall|k: int| 0 <= k < plan.len() && (#[trigger] plan[k]).contains(p) implies k
        == q by {
        lemma_ceil_div_counts(len as nat, size as nat, k as nat);
        assert(k * size <= p < k * size + size);
        assert(k == q) by (nonlinear_arith)
            requires
                size > 0,
                k * size <= p < k * size + size,
                q * size <= p < q * size + size,
        ;
    }
}

/// The chunks of a vector of `n` slots tile `[0, n)` with no gap and no
/// overlap. A non-empty vector has as many chunks as its length divided by
/// the chunk size, rounded up; that is never more than four.
pub proof fn lemma_chunks_tile(n: usize)
    ensures
        tiles(chunk_plan(n as nat), n as nat),
        n >= 1 ==> chunk_plan(n as nat).len() == ceil_div(n as nat, ceil_div(n as nat, 4)),
        n == 0 ==> chunk_plan(n as nat).len() == 0,
        chunk_plan(n as nat).len() <= 4,
{
    if n >= 1 {
        let size = quarter(n as nat);
        lemma_split_tiles(n, size as usize);
        lemma_ceil_div_counts(n as nat, size, 4);
    }
}

/// Every slot of a vector has its chunk, which lies inside the vector.
pub proof fn lemma_chunk_of_slot(n: usize, p: nat) -> (k: int)
    requires
        p < n,
    ensures
        0 <= k < chunk_plan(n as nat).len(),
        chunk_plan(n as nat)[k].contains(p),
        chunk_plan(n as nat)[k].end() <= n,
{
    let size = quarter(n as nat);
    lemma_split_position(n, size as usize, p);
    let k = (p / size) as int;
    lemma_ceil_div_counts(n as nat, size, k as nat);
    k
}

/// The chunk size for a vector of `n` slots. It is zero for the empty vector
/// only.
pub fn chunk_size(n: usize) -> (size: usize)
    ensures
        size == quarter(n as nat),
        size == 0 <==> n == 0,
{
    if n % 4 == 0 {
        n / 4
    } else {
        n / 4 + 1
    }
}

/// Cuts `[0, len)` into chunks of `size` indices, the last one shorter where
/// `size` does not divide `len`. The chunks tile the range.
pub fn split(len: usize, size: usize) -> (chunks: Vec<Chunk>)
    requires
        size >= 1,
    ensures
        chunks@ == split_plan(len as nat, size as nat),
        chunks@.len() == ceil_div(len as nat, size as nat),
        tiles(chunks@, len as nat),
{
    let mut chunks: Vec<Chunk> = Vec::new();
    let mut start: usize = 0;
    while start < len
        invariant
            size >= 1,
            start <= len,
            chunks.len() <= ceil_div(len as nat, size as nat),
            start == smaller(chunks.len() * size, len as int),
            forall|k: int|
                0 <= k < chunks.len() ==> chunks[k] == split_plan(len as nat, size as nat)[k],
        decreases len - start,
    {
        let ghost k = chunks.len() as nat;
        proof {
            lemma_ceil_div_counts(len as nat, size as nat, k);
            lemma_ceil_div_counts(len as nat, size as nat, k + 1);
            assert((k + 1) * size == k * size + size) by (nonlinear_arith);
        }
        let rest: usize = len - start;
        let taken: usize = if rest < size {
            rest
        } else {
            size
        };
        chunks.push(Chunk { start, len: taken });
        start = start + taken;
    }
    proof {
        let k = chunks.len() as nat;
        lemma_ceil_div_counts(len as nat, size as nat, k);
        assert(chunks@ =~= split_plan(len as nat, size as nat));
        lemma_split_tiles(len, size);
    }
    chunks
}

/// The chunks that a vector of `n` slots is cut into, one for each parallel
/// worker. They tile the vector, and there are at most four of them.
pub fn chunk_ranges(n: usize) -> (chunks: Vec<Chunk>)
    ensures
        chunks@ == chunk_plan(n as nat),
        tiles(chunks@, n as nat),
        n >= 1 ==> chunks@.len() == ceil_div(n as nat, ceil_div(n as nat, 4)),
        n == 0 ==> chunks@.len() == 0,
        chunks@.len() <= 4,
{
    proof {
        lemma_chunks_tile(n);
    }
    if n == 0 {
        Vec::new()
    } else {
        split(n, chunk_size(n))
    }
}

} // verus!
