use rayon::iter::{IndexedParallelIterator, ParallelIterator};
use rayon::slice::ParallelSliceMut;
use spectral_norm::chunks::{chunk_ranges, chunk_size, split, Chunk};

fn ceil_div(a: usize, b: usize) -> usize {
    a / b + if a % b == 0 { 0 } else { 1 }
}

fn assert_tiles(chunks: &[Chunk], len: usize) {
    let mut next = 0usize;
    for chunk in chunks {
        assert_eq!(chunk.start, next);
        assert!(chunk.len >= 1);
        next = chunk.start + chunk.len;
    }
    assert_eq!(next, len);
}

#[test]
fn chunk_size_is_a_quarter_rounded_up() {
    assert_eq!(chunk_size(0), 0);
    assert_eq!(chunk_size(1), 1);
    assert_eq!(chunk_size(2), 1);
    assert_eq!(chunk_size(4), 1);
    assert_eq!(chunk_size(5), 2);
    assert_eq!(chunk_size(8), 2);
    assert_eq!(chunk_size(100), 25);
    assert_eq!(chunk_size(101), 26);
    assert_eq!(chunk_size(1000), 250);
    assert_eq!(chunk_size(usize::MAX), usize::MAX / 4 + 1);
}

#[test]
fn split_ten_by_three() {
    assert_eq!(
        split(10, 3),
        vec![
            Chunk { start: 0, len: 3 },
            Chunk { start: 3, len: 3 },
            Chunk { start: 6, len: 3 },
            Chunk { start: 9, len: 1 },
        ]
    );
}

#[test]
fn split_with_an_exact_fit_has_no_short_chunk() {
    assert_eq!(split(6, 2), vec![Chunk { start: 0, len: 2 }, Chunk { start: 2, len: 2 }, Chunk { start: 4, len: 2 }]);
    assert_eq!(split(5, 5), vec![Chunk { start: 0, len: 5 }]);
}

#[test]
fn split_by_more_than_the_length_is_one_chunk() {
    assert_eq!(split(3, 8), vec![Chunk { start: 0, len: 3 }]);
}

#[test]
fn split_of_nothing_is_empty() {
    assert_eq!(split(0, 1), vec![]);
    assert_eq!(split(0, 7), vec![]);
}

#[test]
fn split_near_the_end_of_the_index_range() {
    let chunks = split(usize::MAX, usize::MAX - 1);
    assert_eq!(chunks, vec![Chunk { start: 0, len: usize::MAX - 1 }, Chunk { start: usize::MAX - 1, len: 1 }]);
    let halves = split(usize::MAX, usize::MAX / 2 + 1);
    assert_eq!(
        halves,
        vec![Chunk { start: 0, len: usize::MAX / 2 + 1 }, Chunk { start: usize::MAX / 2 + 1, len: usize::MAX / 2 }]
    );
}

#[test]
fn hundred_slots_make_four_chunks_of_twenty_five() {
    assert_eq!(
        chunk_ranges(100),
        vec![
            Chunk { start: 0, len: 25 },
            Chunk { start: 25, len: 25 },
            Chunk { start: 50, len: 25 },
            Chunk { start: 75, len: 25 },
        ]
    );
}

#[test]
fn tail_chunk_may_be_shorter() {
    assert_eq!(
        chunk_ranges(7),
        vec![
            Chunk { start: 0, len: 2 },
            Chunk { start: 2, len: 2 },
            Chunk { start: 4, len: 2 },
            Chunk { start: 6, len: 1 },
        ]
    );
    assert_eq!(
        chunk_ranges(9),
        vec![Chunk { start: 0, len: 3 }, Chunk { start: 3, len: 3 }, Chunk { start: 6, len: 3 }]
    );
}

#[test]
fn short_vectors_have_fewer_than_four_chunks() {
    assert_eq!(chunk_ranges(0), vec![]);
    assert_eq!(chunk_ranges(1), vec![Chunk { start: 0, len: 1 }]);
    assert_eq!(chunk_ranges(2), vec![Chunk { start: 0, len: 1 }, Chunk { start: 1, len: 1 }]);
    assert_eq!(chunk_ranges(6).len(), 3);
}

#[test]
fn chunks_tile_the_vector() {
    for n in 0..300usize {
        let chunks = chunk_ranges(n);
        assert_tiles(&chunks, n);
        assert!(chunks.len() <= 4);
        if n >= 1 {
            assert_eq!(chunks.len(), ceil_div(n, ceil_div(n, 4)));
        }
    }
}

#[test]
fn every_split_tiles_its_range() {
    for len in 0..60usize {
        for size in 1..20usize {
            let chunks = split(len, size);
            assert_tiles(&chunks, len);
            assert_eq!(chunks.len(), ceil_div(len, size));
            for (k, chunk) in chunks.iter().enumerate() {
                assert_eq!(chunk.start, k * size);
                assert!(chunk.len == size || k + 1 == chunks.len());
            }
        }
    }
}

#[test]
fn every_position_lies_in_exactly_one_chunk() {
    for n in 1..80usize {
        let chunks = chunk_ranges(n);
        let size = chunk_size(n);
        for p in 0..n {
            let holders: Vec<usize> = chunks
                .iter()
                .enumerate()
                .filter(|(_, c)| c.start <= p && p < c.start + c.len)
                .map(|(k, _)| k)
                .collect();
            assert_eq!(holders, vec![p / size]);
        }
    }
}

#[test]
fn parallel_chunks_are_the_planned_ones() {
    for n in 1..130usize {
        let mut slots = vec![0u8; n];
        let mut seen: Vec<(usize, usize)> = slots
            .par_chunks_mut(chunk_size(n))
            .enumerate()
            .map(|(index, chunk)| (index, chunk.len()))
            .collect();
        seen.sort();
        let planned = chunk_ranges(n);
        assert_eq!(seen.len(), planned.len());
        for (index, len) in seen {
            assert_eq!(planned[index], Chunk { start: index * chunk_size(n), len });
        }
    }
}

#[test]
fn sequential_chunks_are_the_split_ones() {
    for len in 0..50usize {
        for size in 1..9usize {
            let slots = vec![0u8; len];
            let seen: Vec<usize> = slots.chunks(size).map(|c| c.len()).collect();
            let planned: Vec<usize> = split(len, size).iter().map(|c| c.len).collect();
            assert_eq!(seen, planned);
        }
    }
}

#[test]
fn pairs_of_an_even_length_are_all_full() {
    for n in (0..40usize).step_by(2) {
        assert!(split(n, 2).iter().all(|c| c.len == 2));
        assert_eq!(split(n, 2).len(), n / 2);
    }
    assert_eq!(split(7, 2).last(), Some(&Chunk { start: 6, len: 1 }));
}
