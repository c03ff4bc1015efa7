//! Partition of a training batch among parallel workers.
//!
//! A batch of `n` samples is cut into contiguous chunks of
//! `ceil(n / workers)` samples, the last one possibly shorter; each worker
//! takes one chunk. Every sample falls in exactly one chunk, so the gradients
//! that the workers accumulate add up to those of one serial pass.

use vstd::arithmetic::div_mod::{lemma_div_pos_is_pos, lemma_fundamental_div_mod};
use vstd::prelude::*;

verus! {

/// Number of samples in every chunk but possibly the last.
pub open spec fn chunk_size_spec(batch_len: int, workers: int) -> int {
    (batch_len + workers - 1) / workers
}

/// Number of chunks.
pub open spec fn chunk_count_spec(batch_len: int, workers: int) -> int {
    if batch_len == 0 {
        0
    } else {
        let size = chunk_size_spec(batch_len, workers);
        (batch_len + size - 1) / size
    }
}

/// The half-open range of samples of chunk `i`.
pub open spec fn chunk_spec(batch_len: int, workers: int, i: int) -> (int, int) {
    let size = chunk_size_spec(batch_len, workers);
    let end = (i + 1) * size;
    (i * size, if end < batch_len { end } else { batch_len })
}

proof fn lemma_chunk_size(batch_len: int, workers: int)
    requires
        batch_len >= 1,
        workers >= 1,
    ensures
        1 <= chunk_size_spec(batch_len, workers) <= batch_len,
        chunk_size_spec(batch_len, workers) * workers >= batch_len,
{
    let size = chunk_size_spec(batch_len, workers);
    let a = batch_len + workers - 1;
    lemma_fundamental_div_mod(a, workers);
    assert(1 <= size <= batch_len && size * workers >= batch_len) by (nonlinear_arith)
        requires
            a == workers * size + a % workers,
            0 <= a % workers < workers,
            a == batch_len + workers - 1,
            batch_len >= 1,
            workers >= 1,
    {
        if size < 1 {
            assert(workers * size <= 0);
        }
        if size > batch_len {
            assert(workers * size >= workers * (batch_len + 1));
            assert(workers * (batch_len + 1) == workers * batch_len + workers);
            assert(workers * batch_len >= batch_len);
        }
    }
}

/// Sample `s` lies in chunk `s / size` and in no other.
pub proof fn lemma_sample_in_one_chunk(batch_len: int, workers: int, s: int, i: int)
    requires
        workers >= 1,
        0 <= s < batch_len,
        0 <= i,
    ensures
        0 <= s / chunk_size_spec(batch_len, workers) < chunk_count_spec(batch_len, workers),
        chunk_spec(batch_len, workers, s / chunk_size_spec(batch_len, workers)).0 <= s < chunk_spec(
            batch_len,
            workers,
            s / chunk_size_spec(batch_len, workers),
        ).1,
        chunk_spec(batch_len, workers, i).0 <= s < chunk_spec(batch_len, workers, i).1 ==> i == s
            / chunk_size_spec(batch_len, workers),
{
    lemma_chunk_size(batch_len, workers);
    let size = chunk_size_spec(batch_len, workers);
    let q = s / size;
    lemma_fundamental_div_mod(s, size);
    lemma_div_pos_is_pos(s, size);
    let b = batch_len + size - 1;
    lemma_fundamental_div_mod(b, size);
    let count = b / size;
    assert(q < count) by (nonlinear_arith)
        requires
            s == size * q + s % size,
            0 <= s % size < size,
            b == size * count + b % size,
            0 <= b % size < size,
            b == batch_len + size - 1,
            s < batch_len,
            size >= 1,
    {
        if q >= count {
            assert(size * q >= size * count);
        }
    }
    assert(q * size <= s < (q + 1) * size) by (nonlinear_arith)
        requires
            s == size * q + s % size,
            0 <= s % size < size,
    ;
    if chunk_spec(batch_len, workers, i).0 <= s < chunk_spec(batch_len, workers, i).1 {
        assert(i == q) by (nonlinear_arith)
            requires
                i * size <= s < (i + 1) * size,
                q * size <= s < (q + 1) * size,
                size >= 1,
        {
            if i < q {
                assert((i + 1) * size <= q * size);
            }
            if i > q {
                assert((q + 1) * size <= i * size);
            }
        }
    }
}

/// Splits a batch of `batch_len` samples among `workers` workers: the
/// half-open sample ranges of the chunks, in order. They are no more than
/// `workers`, none is empty, and they cover the batch end to end.
pub fn batch_chunks(batch_len: usize, workers: usize) -> (r: Vec<(usize, usize)>)
    requires
        workers >= 1,
    ensures
        r@.len() == chunk_count_spec(batch_len as int, workers as int),
        r@.len() <= workers,
        forall|i: int|
            0 <= i < r@.len() ==> (#[trigger] r@[i]).0 == chunk_spec(batch_len as int, workers as int, i).0
                && r@[i].1 == chunk_spec(batch_len as int, workers as int, i).1,
        forall|i: int| 0 <= i < r@.len() ==> (#[trigger] r@[i]).0 < r@[i].1,
        forall|i: int| 0 < i < r@.len() ==> (#[trigger] r@[i]).0 == r@[i - 1].1,
        batch_len > 0 ==> r@.len() > 0 && r@[0].0 == 0 && r@.last().1 == batch_len,
{
    let mut chunks: Vec<(usize, usize)> = Vec::new();
    if batch_len == 0 {
        return chunks;
    }
    proof {
        lemma_chunk_size(batch_len as int, workers as int);
    }
    let size = (batch_len - 1) / workers + 1;
    assert(size == chunk_size_spec(batch_len as int, workers as int)) by (nonlinear_arith)
        requires
            size == (batch_len - 1) / (workers as int) + 1,
            workers >= 1,
            batch_len >= 1,
    {
        vstd::arithmetic::div_mod::lemma_div_plus_one((batch_len - 1) as int, workers as int);
    }
    let ghost n = batch_len as int;
    let ghost w = workers as int;
    let mut start: usize = 0;
    assert(chunks@.len() * size == 0) by (nonlinear_arith)
        requires
            chunks@.len() == 0,
    ;
    while start < batch_len
        invariant
            batch_len >= 1,
            workers >= 1,
            n == batch_len,
            w == workers,
            size == chunk_size_spec(n, w),
            1 <= size <= batch_len,
            size * w >= n,
            start <= batch_len,
            start < batch_len ==> start == chunks@.len() * size,
            start == batch_len ==> chunks@.len() >= 1 && chunks@.len() * size >= n,
            chunks@.len() >= 1 ==> (chunks@.len() - 1) * size < n,
            chunks@.len() > 0 ==> chunks@.last().1 == start,
            forall|i: int|
                0 <= i < chunks@.len() ==> (#[trigger] chunks@[i]).0 == chunk_spec(n, w, i).0 && chunks@[i].1
                    == chunk_spec(n, w, i).1,
            forall|i: int| 0 <= i < chunks@.len() ==> (#[trigger] chunks@[i]).0 < chunks@[i].1,
            forall|i: int| 0 < i < chunks@.len() ==> (#[trigger] chunks@[i]).0 == chunks@[i - 1].1,
            chunks@.len() > 0 ==> chunks@[0].0 == 0,
        decreases batch_len - start,
    {
        let ghost i = chunks@.len() as int;
        let end = if batch_len - start > size {
            start + size
        } else {
            batch_len
        };
        assert((i + 1) * size == i * size + size) by (nonlinear_arith);
        assert(i == 0 ==> i * size == 0) by (nonlinear_arith);
        chunks.push((start, end));
        assert(chunks@[i] == (start, end));
        start = end;
    }
    proof {
        let count = chunks@.len() as int;
        let size = size as int;
        let b = n + size - 1;
        lemma_fundamental_div_mod(b, size);
        assert(count == b / size) by (nonlinear_arith)
            requires
                count >= 1,
                (count - 1) * size < n,
                count * size >= n,
                b == size * (b / size) + b % size,
                0 <= b % size < size,
                b == n + size - 1,
                size >= 1,
        {
            let q = b / size;
            if count < q {
                assert(count * size + size <= q * size);
            }
            if count > q {
                assert(q * size + size <= count * size);
            }
        }
        assert(count <= w) by (nonlinear_arith)
            requires
                (count - 1) * size < n,
                size * w >= n,
                size >= 1,
        {
            if count > w {
                assert((count - 1) * size >= w * size);
            }
        }
    }
    chunks
}

} // verus!
