use vstd::prelude::*;
use vstd::arithmetic::div_mod::lemma_fundamental_div_mod_converse;
use vstd::arithmetic::div_mod::lemma_fundamental_div_mod;
use vstd::arithmetic::mul::lemma_mul_inequality;
use crate::error::UploadError;

verus! {

broadcast use vstd::seq_lib::group_seq_properties;

/// The size of every part but the last: the smallest the backend accepts.
pub const CHUNK_SIZE: usize = 5_242_880;

/// Number of chunks a source of `total` bytes splits into: `ceil(total / size)`.
pub open spec fn spec_chunk_count(total: nat, size: nat) -> nat
    recommends
        size > 0,
{
    ((total + size - 1) as nat) / size
}

/// Offset of the first byte of the chunk at (0-based) position `i`.
pub open spec fn spec_chunk_start(size: nat, i: nat) -> nat {
    i * size
}

/// Offset one past the last byte of the chunk at (0-based) position `i`.
pub open spec fn spec_chunk_end(total: nat, size: nat, i: nat) -> nat {
    if (i + 1) * size <= total {
        (i + 1) * size
    } else {
        total
    }
}

/// A contiguous byte range of the source, with its 1-based sequence number.
#[derive(Clone, Copy, Debug, PartialEq, Eq, Structural)]
pub struct ChunkRange {
    pub part_number: usize,
    pub start: usize,
    pub end: usize,
}

impl ChunkRange {
    /// `self` is the chunk at 0-based position `i` of a `total`-byte source.
    pub open spec fn is_chunk(self, total: nat, size: nat, i: nat) -> bool {
        &&& self.part_number == i + 1
        &&& self.start == spec_chunk_start(size, i)
        &&& self.end == spec_chunk_end(total, size, i)
    }

    pub fn len(&self) -> (r: usize)
        requires
            self.start <= self.end,
        ensures
            r == self.end - self.start,
    {
        self.end - self.start
    }
}

/// Total size of the first `k` chunks.
pub open spec fn spec_sizes_sum(total: nat, size: nat, k: nat) -> int
    decreases k,
{
    if k == 0 {
        0
    } else {
        spec_sizes_sum(total, size, (k - 1) as nat) + spec_chunk_end(total, size, (k - 1) as nat)
            - spec_chunk_start(size, (k - 1) as nat)
    }
}

/// Ceiling division, spelled out against floor division and remainder.
proof fn lemma_ceil_div(total: nat, size: nat)
    requires
        size > 0,
    ensures
        total % size == 0 ==> spec_chunk_count(total, size) == total / size,
        total % size != 0 ==> spec_chunk_count(total, size) == total / size + 1,
        (total / size) * size + total % size == total,
        total % size < size,
{
    lemma_fundamental_div_mod(total as int, size as int);
    let q = total / size;
    let r = total % size;
    assert(q * size == size * q) by (nonlinear_arith);
    assert((q + 1) * size == q * size + size) by (nonlinear_arith);
    if r == 0 {
        lemma_fundamental_div_mod_converse(
            (total + size - 1) as int,
            size as int,
            q as int,
            (size - 1) as int,
        );
    } else {
        lemma_fundamental_div_mod_converse(
            (total + size - 1) as int,
            size as int,
            (q + 1) as int,
            (r - 1) as int,
        );
    }
}

/// Every chunk position below the count starts inside the source.
proof fn lemma_chunk_start_inside(total: nat, size: nat, i: nat)
    requires
        size > 0,
        i < spec_chunk_count(total, size),
    ensures
        i * size < total,
        total <= spec_chunk_count(total, size) * size,
        spec_chunk_count(total, size) >= 1 ==> (spec_chunk_count(total, size) - 1) * size < total,
{
    lemma_ceil_div(total, size);
    let q = total / size;
    let n = spec_chunk_count(total, size);
    if total % size == 0 {
        lemma_mul_inequality(i as int, q - 1, size as int);
        lemma_mul_inequality((n - 1) as int, q - 1, size as int);
        assert((q - 1) * size == q * size - size) by (nonlinear_arith);
    } else {
        lemma_mul_inequality(i as int, q as int, size as int);
        assert((q + 1) * size == q * size + size) by (nonlinear_arith);
    }
}

/// The chunks of a source of at least one chunk's size tile it: the first
/// starts at 0, each ends where the next starts, each but the last holds
/// exactly `size` bytes, the last holds between 1 and `size` bytes and ends at
/// the end of the source, and so the sizes add up to the source's size.
pub proof fn lemma_chunks_tile_source(total: nat, size: nat)
    requires
        size > 0,
        total >= size,
    ensures
        spec_chunk_count(total, size) >= 1,
        spec_chunk_start(size, 0) == 0,
        forall|i: nat|
            #![trigger spec_chunk_end(total, size, i)]
            i + 1 < spec_chunk_count(total, size) ==> spec_chunk_end(total, size, i)
                == spec_chunk_start(size, i + 1) && spec_chunk_end(total, size, i)
                - spec_chunk_start(size, i) == size,
        spec_chunk_end(total, size, (spec_chunk_count(total, size) - 1) as nat) == total,
        0 < total - spec_chunk_start(size, (spec_chunk_count(total, size) - 1) as nat) <= size,
        spec_sizes_sum(total, size, spec_chunk_count(total, size)) == total,
{
    let n = spec_chunk_count(total, size);
    lemma_ceil_div(total, size);
    assert(total / size >= 1) by {
        if total / size == 0 {
            assert(total == total % size);
        }
    }
    assert(n >= 1);
    assert forall|i: nat|
        #![trigger spec_chunk_end(total, size, i)]
        i + 1 < n implies spec_chunk_end(total, size, i) == spec_chunk_start(size, i + 1)
            && spec_chunk_end(total, size, i) - spec_chunk_start(size, i) == size by {
        lemma_chunk_start_inside(total, size, i + 1);
        assert((i + 1) * size == i * size + size) by (nonlinear_arith);
    }
    lemma_chunk_start_inside(total, size, (n - 1) as nat);
    assert(n * size == (n - 1) * size + size) by (nonlinear_arith);
    lemma_sizes_sum_upto(total, size, n);
}

/// The first `k` chunks cover the bytes before the end of the `k`-th.
proof fn lemma_sizes_sum_upto(total: nat, size: nat, k: nat)
    requires
        size > 0,
        1 <= k <= spec_chunk_count(total, size),
    ensures
        spec_sizes_sum(total, size, k) == spec_chunk_end(total, size, (k - 1) as nat),
    decreases k,
{
    lemma_chunk_start_inside(total, size, (k - 1) as nat);
    assert(0 * size == 0);
    assert(spec_sizes_sum(total, size, 0) == 0);
    if k > 1 {
        let j = (k - 2) as nat;
        lemma_sizes_sum_upto(total, size, (k - 1) as nat);
        assert(j + 1 == k - 1);
        assert(spec_chunk_end(total, size, j) == spec_chunk_start(size, (k - 1) as nat));
    }
}

/// Number of chunks of a `total`-byte source: `ceil(total / size)`; a source
/// smaller than one chunk is refused.
pub fn chunk_count(total: usize, size: usize) -> (r: Result<usize, UploadError>)
    requires
        size > 0,
    ensures
        total < size ==> r == Err::<usize, UploadError>(UploadError::ChunkTooSmall),
        total >= size ==> spec_chunk_count(total as nat, size as nat) <= total,
        total >= size ==> r == Ok::<usize, UploadError>(
            spec_chunk_count(total as nat, size as nat) as usize,
        ),
{
    if total < size {
        return Err(UploadError::ChunkTooSmall);
    }
    proof {
        lemma_ceil_div(total as nat, size as nat);
    }
    let whole = total / size;
    if total % size == 0 {
        assert(whole <= total) by (nonlinear_arith)
            requires
                whole * size + total % size == total,
                size >= 1,
        ;
        Ok(whole)
    } else {
        assert(whole < total) by (nonlinear_arith)
            requires
                whole * size + total % size == total,
                total % size < size,
                total >= size,
                size >= 2,
        ;
        Ok(whole + 1)
    }
}

/// The range of the chunk with 1-based sequence number `part_number`.
pub fn chunk_range(total: usize, size: usize, part_number: usize) -> (r: ChunkRange)
    requires
        size > 0,
        1 <= part_number <= spec_chunk_count(total as nat, size as nat),
    ensures
        r.is_chunk(total as nat, size as nat, (part_number - 1) as nat),
        r.start < r.end <= total,
{
    proof {
        lemma_chunk_start_inside(total as nat, size as nat, (part_number - 1) as nat);
    }
    let start = (part_number - 1) * size;
    let end = if total - start >= size {
        start + size
    } else {
        total
    };
    proof {
        assert(((part_number - 1) + 1) * size == (part_number - 1) * size + size) by (nonlinear_arith);
    }
    ChunkRange { part_number, start, end }
}

/// The ranges of all chunks of a `total`-byte source, in order; a source
/// smaller than one chunk is refused.
pub fn plan_chunks(total: usize, size: usize) -> (r: Result<Vec<ChunkRange>, UploadError>)
    requires
        size > 0,
    ensures
        total < size ==> r == Err::<Vec<ChunkRange>, UploadError>(UploadError::ChunkTooSmall),
        total >= size ==> r is Ok,
        r is Ok ==> r->Ok_0.len() == spec_chunk_count(total as nat, size as nat),
        r is Ok ==> forall|i: int|
            0 <= i < r->Ok_0.len() ==> (#[trigger] r->Ok_0[i]).is_chunk(
                total as nat,
                size as nat,
                i as nat,
            ),
{
    let n = match chunk_count(total, size) {
        Ok(n) => n,
        Err(e) => {
            return Err(e);
        },
    };
    let mut ranges: Vec<ChunkRange> = Vec::new();
    let mut k: usize = 0;
    while k < n
        invariant
            size > 0,
            n == spec_chunk_count(total as nat, size as nat),
            k <= n,
            ranges.len() == k,
            forall|i: int|
                0 <= i < k ==> (#[trigger] ranges[i]).is_chunk(total as nat, size as nat, i as nat),
        decreases n - k,
    {
        let c = chunk_range(total, size, k + 1);
        ranges.push(c);
        k = k + 1;
    }
    Ok(ranges)
}

/// A copy of the bytes of `data` in `[start, end)`.
pub fn chunk_bytes(data: &Vec<u8>, start: usize, end: usize) -> (r: Vec<u8>)
    requires
        start <= end <= data.len(),
    ensures
        r@ == data@.subrange(start as int, end as int),
{
    let mut out: Vec<u8> = Vec::with_capacity(end - start);
    let mut i: usize = start;
    while i < end
        invariant
            start <= i <= end <= data.len(),
            out@ == data@.subrange(start as int, i as int),
        decreases end - i,
    {
        out.push(data[i]);
        i = i + 1;
    }
    out
}

/// The bytes of each chunk, viewed as sequences.
pub open spec fn chunk_views(chunks: Seq<Vec<u8>>) -> Seq<Seq<u8>> {
    chunks.map_values(|c: Vec<u8>| c@)
}

/// Splits `data` into chunks of `size` bytes, the last possibly shorter, and
/// none empty; the chunks laid end to end give `data` back. A source smaller
/// than one chunk is refused.
pub fn chunkify(data: &Vec<u8>, size: usize) -> (r: Result<Vec<Vec<u8>>, UploadError>)
    requires
        size > 0,
    ensures
        data.len() < size ==> r == Err::<Vec<Vec<u8>>, UploadError>(UploadError::ChunkTooSmall),
        data.len() >= size ==> r is Ok,
        r is Ok ==> r->Ok_0.len() == spec_chunk_count(data.len() as nat, size as nat),
        r is Ok ==> forall|i: int|
            0 <= i < r->Ok_0.len() ==> (#[trigger] r->Ok_0[i])@ == data@.subrange(
                spec_chunk_start(size as nat, i as nat) as int,
                spec_chunk_end(data.len() as nat, size as nat, i as nat) as int,
            ),
        r is Ok ==> chunk_views(r->Ok_0@).flatten() == data@,
{
    let ranges = match plan_chunks(data.len(), size) {
        Ok(v) => v,
        Err(e) => {
            return Err(e);
        },
    };
    let ghost total = data.len() as nat;
    proof {
        lemma_chunks_tile_source(total, size as nat);
    }
    let mut chunks: Vec<Vec<u8>> = Vec::new();
    let mut k: usize = 0;
    while k < ranges.len()
        invariant
            size > 0,
            total == data.len(),
            total >= size,
            ranges.len() == spec_chunk_count(total, size as nat),
            forall|i: int|
                0 <= i < ranges.len() ==> (#[trigger] ranges[i]).is_chunk(total, size as nat, i as nat),
            forall|i: nat|
                #![trigger spec_chunk_end(total, size as nat, i)]
                i + 1 < spec_chunk_count(total, size as nat) ==> spec_chunk_end(total, size as nat, i)
                    == spec_chunk_start(size as nat, i + 1),
            spec_chunk_end(total, size as nat, (spec_chunk_count(total, size as nat) - 1) as nat)
                == total,
            k <= ranges.len(),
            chunks.len() == k,
            forall|i: int|
                0 <= i < k ==> (#[trigger] chunks[i])@ == data@.subrange(
                    spec_chunk_start(size as nat, i as nat) as int,
                    spec_chunk_end(total, size as nat, i as nat) as int,
                ),
            k == 0 ==> chunk_views(chunks@).flatten() == Seq::<u8>::empty(),
            k > 0 ==> chunk_views(chunks@).flatten() == data@.subrange(
                0,
                spec_chunk_end(total, size as nat, (k - 1) as nat) as int,
            ),
        decreases ranges.len() - k,
    {
        let r = ranges[k];
        proof {
            lemma_chunk_start_inside(total, size as nat, k as nat);
            assert((k + 1) * size == k * size + size) by (nonlinear_arith);
        }
        let c = chunk_bytes(data, r.start, r.end);
        let ghost before = chunks@;
        chunks.push(c);
        proof {
            assert(chunk_views(chunks@) == chunk_views(before).push(c@));
            chunk_views(before).lemma_flatten_push(c@);
            if k > 0 {
                assert(spec_chunk_end(total, size as nat, (k - 1) as nat) == spec_chunk_start(
                    size as nat,
                    k as nat,
                ));
            }
            assert(chunk_views(chunks@).flatten() =~= data@.subrange(0, r.end as int));
        }
        k = k + 1;
    }
    proof {
        assert(data@.subrange(0, total as int) =~= data@);
    }
    Ok(chunks)
}

} // verus!
