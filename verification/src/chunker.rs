//! Content-defined chunking (FastCDC with two-mask normalization).
//!
//! Boundaries are derived from the content itself through a rolling gear
//! hash, so an edit only invalidates the chunks it touches.
use crate::error::Error;
use crate::hashing::{sha256, sha256_digest};
use vstd::prelude::*;
use vstd::slice::slice_subrange;
use vstd::wrapping::u64_specs::{wrapping_add, wrapping_shl};

verus! {

/// One content-defined piece of a buffer.
#[derive(Debug, Clone, Copy, PartialEq, Eq)]
pub struct ChunkDescriptor {
    /// Offset of the chunk in the source buffer.
    pub offset: usize,
    /// Length of the chunk in bytes.
    pub length: usize,
    /// SHA-256 of the chunk bytes — the content address.
    pub hash: [u8; 32],
}

/// Whether `chunks` cover `0..len` contiguously, in order, with non-empty pieces.
pub open spec fn tiles(chunks: Seq<ChunkDescriptor>, len: int) -> bool {
    &&& (chunks.len() == 0 <==> len == 0)
    &&& chunks.len() > 0 ==> chunks[0].offset == 0
    &&& chunks.len() > 0 ==> chunks.last().offset + chunks.last().length == len
    &&& forall|i: int| 0 <= i < chunks.len() ==> #[trigger] chunks[i].length > 0
    &&& forall|i: int|
        0 <= i < chunks.len() - 1 ==> #[trigger] chunks[i + 1].offset == chunks[i].offset
            + chunks[i].length
}

/// Whether every chunk's hash is the SHA-256 of the bytes it covers.
pub open spec fn hashes_content(chunks: Seq<ChunkDescriptor>, data: Seq<u8>) -> bool {
    forall|i: int|
        0 <= i < chunks.len() ==> #[trigger] chunks[i].offset + chunks[i].length <= data.len()
            && chunks[i].hash@ == sha256(
            data.subrange(chunks[i].offset as int, chunks[i].offset + chunks[i].length),
        )
}

/// Splits a byte buffer into content-defined chunks.
///
/// Implementations must be deterministic: identical input always yields
/// identical boundaries.
pub trait Chunker {
    /// Returns the chunks of `data`, covering it entirely, in order.
    fn chunk(&self, data: &[u8]) -> (chunks: Vec<ChunkDescriptor>)
        ensures
            tiles(chunks@, data@.len() as int),
            hashes_content(chunks@, data@),
    ;
}

/// One xorshift64 step.
pub open spec fn xorshift(s: u64) -> u64 {
    let a = s ^ (s << 13u64);
    let b = a ^ (a >> 7u64);
    b ^ (b << 17u64)
}

/// The xorshift state after `k` steps from the fixed seed.
pub open spec fn gear_state(k: nat) -> u64
    decreases k,
{
    if k == 0 {
        0x9E37_79B9_7F4A_7C15u64
    } else {
        xorshift(gear_state((k - 1) as nat))
    }
}

/// Entry `b` of the 256-entry gear table.
pub open spec fn gear(b: u8) -> u64 {
    gear_state(b as nat + 1)
}

/// Floor of the base-2 logarithm (0 for 0 and 1).
pub open spec fn log2(n: nat) -> nat
    decreases n,
{
    if n < 2 {
        0
    } else {
        1 + log2(n / 2)
    }
}

/// `2^k`.
pub open spec fn pow2(k: nat) -> nat
    decreases k,
{
    if k == 0 {
        1
    } else {
        2 * pow2((k - 1) as nat)
    }
}

/// The cut mask for a size bound: `2^floor(log2(n)) - 1`.
pub open spec fn low_mask(n: nat) -> u64 {
    ((1u64 << (log2(n) as u64)) - 1) as u64
}

/// The rolling-hash scan for a cut at or after `i`, given fingerprint `fp`.
pub open spec fn scan(
    data: Seq<u8>,
    start: int,
    i: int,
    fp: u64,
    hard_max: int,
    avg: int,
    ms: u64,
    ml: u64,
) -> int
    decreases hard_max - i,
{
    if i >= hard_max || i < 0 || i >= data.len() {
        hard_max
    } else {
        let fp2 = wrapping_add(wrapping_shl(fp, 1), gear(data[i]));
        let mask = if i - start + 1 <= avg {
            ms
        } else {
            ml
        };
        if fp2 & mask == 0 {
            i + 1
        } else {
            scan(data, start, i + 1, fp2, hard_max, avg, ms, ml)
        }
    }
}

/// The end of the chunk that starts at `start`.
pub open spec fn boundary(data: Seq<u8>, start: int, min: int, avg: int, max: int) -> int {
    let end = data.len() as int;
    if end - start <= min {
        end
    } else {
        let hard_max = if end < start + max {
            end
        } else {
            start + max
        };
        scan(data, start, start + min, 0, hard_max, avg, low_mask(avg as nat), low_mask(max as nat))
    }
}

/// The `(offset, length)` pairs of the chunks of `data` from `start` on.
pub open spec fn bounds_from(data: Seq<u8>, start: int, min: int, avg: int, max: int) -> Seq<
    (int, int),
>
    decreases data.len() - start,
{
    if start < 0 || start >= data.len() {
        Seq::empty()
    } else {
        let e = boundary(data, start, min, avg, max);
        if e <= start || e > data.len() {
            Seq::empty()
        } else {
            seq![(start, e - start)] + bounds_from(data, e, min, avg, max)
        }
    }
}

/// Whether `chunks` are exactly the pieces `bounds` of `data`, with their hashes.
pub open spec fn describes(chunks: Seq<ChunkDescriptor>, bounds: Seq<(int, int)>, data: Seq<u8>) -> bool {
    &&& chunks.len() == bounds.len()
    &&& forall|i: int|
        0 <= i < chunks.len() ==> {
            &&& #[trigger] chunks[i].offset == bounds[i].0
            &&& chunks[i].length == bounds[i].1
            &&& chunks[i].hash@ == sha256(data.subrange(bounds[i].0, bounds[i].0 + bounds[i].1))
        }
}

proof fn lemma_scan_range(
    data: Seq<u8>,
    start: int,
    i: int,
    fp: u64,
    hard_max: int,
    avg: int,
    ms: u64,
    ml: u64,
)
    requires
        0 <= i,
        hard_max <= data.len(),
    ensures
        i < hard_max ==> i < scan(data, start, i, fp, hard_max, avg, ms, ml) <= hard_max,
        i >= hard_max ==> scan(data, start, i, fp, hard_max, avg, ms, ml) == hard_max,
    decreases hard_max - i,
{
    if i < hard_max {
        let fp2 = wrapping_add(wrapping_shl(fp, 1), gear(data[i]));
        lemma_scan_range(data, start, i + 1, fp2, hard_max, avg, ms, ml);
    }
}

proof fn lemma_boundary_range(data: Seq<u8>, start: int, min: int, avg: int, max: int)
    requires
        0 <= start < data.len(),
        0 < min <= avg <= max,
    ensures
        start < boundary(data, start, min, avg, max) <= data.len(),
        boundary(data, start, min, avg, max) - start <= max,
        boundary(data, start, min, avg, max) < data.len() ==> boundary(data, start, min, avg, max)
            - start >= min,
{
    let end = data.len() as int;
    if end - start > min {
        let hard_max = if end < start + max {
            end
        } else {
            start + max
        };
        lemma_scan_range(
            data,
            start,
            start + min,
            0,
            hard_max,
            avg,
            low_mask(avg as nat),
            low_mask(max as nat),
        );
    }
}

/// Every piece in `bounds_from(start)` lies in `start..len`, the pieces are
/// contiguous and non-empty, and together they reach the end of the buffer.
/// The pieces from `start` tile the rest of `data` in order: each starts
/// where the one before ends, the last ends at the end of `data`, and every
/// piece is non-empty and at most `max` long (at least `min`, but for the
/// last).
pub proof fn lemma_bounds_tile(data: Seq<u8>, start: int, min: int, avg: int, max: int)
    requires
        0 <= start <= data.len(),
        0 < min <= avg <= max,
    ensures
        ({
            let b = bounds_from(data, start, min, avg, max);
            &&& (b.len() == 0 <==> start == data.len())
            &&& b.len() > 0 ==> b[0].0 == start
            &&& b.len() > 0 ==> b.last().0 + b.last().1 == data.len()
            &&& forall|i: int| 0 <= i < b.len() ==> 0 < #[trigger] b[i].1 <= max
            &&& forall|i: int| 0 <= i < b.len() ==> start <= #[trigger] b[i].0
            &&& forall|i: int| 0 <= i < b.len() - 1 ==> #[trigger] b[i].1 >= min
            &&& forall|i: int| 0 <= i < b.len() - 1 ==> #[trigger] b[i + 1].0 == b[i].0 + b[i].1
        }),
    decreases data.len() - start,
{
    if start < data.len() {
        let e = boundary(data, start, min, avg, max);
        lemma_boundary_range(data, start, min, avg, max);
        lemma_bounds_tile(data, e, min, avg, max);
        let rest = bounds_from(data, e, min, avg, max);
        let b = bounds_from(data, start, min, avg, max);
        assert(b == seq![(start, e - start)] + rest);
        assert forall|i: int| 0 <= i < b.len() - 1 implies #[trigger] b[i + 1].0 == b[i].0 + b[i].1 by {
            if i > 0 {
                assert(b[i] == rest[i - 1]);
                assert(b[i + 1] == rest[i]);
                let j = i - 1;
                assert(rest[j + 1].0 == rest[j].0 + rest[j].1);
            } else {
                assert(b[1] == rest[0]);
                assert(rest[0].0 == e);
                assert(b[0] == (start, e - start));
            }
        }
        assert forall|i: int| 0 <= i < b.len() - 1 implies #[trigger] b[i].1 >= min by {
            if i > 0 {
                assert(b[i] == rest[i - 1]);
            } else {
                assert(rest.len() > 0);
            }
        }
        assert forall|i: int| 0 <= i < b.len() implies 0 < #[trigger] b[i].1 <= max && start
            <= b[i].0 by {
            if i > 0 {
                assert(b[i] == rest[i - 1]);
            }
        }
    }
}

proof fn lemma_scan_agree(
    d1: Seq<u8>,
    d2: Seq<u8>,
    p: int,
    start: int,
    i: int,
    fp: u64,
    hm1: int,
    hm2: int,
    avg: int,
    ms: u64,
    ml: u64,
)
    requires
        0 <= i,
        hm1 <= d1.len(),
        hm2 <= d2.len(),
        p <= d1.len(),
        p <= d2.len(),
        forall|k: int| 0 <= k < p ==> d1[k] == d2[k],
        scan(d1, start, i, fp, hm1, avg, ms, ml) <= p,
        scan(d1, start, i, fp, hm1, avg, ms, ml) <= hm2,
        scan(d1, start, i, fp, hm1, avg, ms, ml) == hm1 ==> hm2 == hm1,
    ensures
        scan(d2, start, i, fp, hm2, avg, ms, ml) == scan(d1, start, i, fp, hm1, avg, ms, ml),
    decreases hm1 - i,
{
    let r1 = scan(d1, start, i, fp, hm1, avg, ms, ml);
    lemma_scan_range(d1, start, i, fp, hm1, avg, ms, ml);
    if i < hm1 {
        assert(d1[i] == d2[i]);
        let fp2 = wrapping_add(wrapping_shl(fp, 1), gear(d1[i]));
        let mask = if i - start + 1 <= avg {
            ms
        } else {
            ml
        };
        if fp2 & mask != 0 {
            lemma_scan_range(d1, start, i + 1, fp2, hm1, avg, ms, ml);
            lemma_scan_agree(d1, d2, p, start, i + 1, fp2, hm1, hm2, avg, ms, ml);
        }
    }
}

proof fn lemma_boundary_agree(d1: Seq<u8>, d2: Seq<u8>, p: int, start: int, min: int, avg: int, max: int)
    requires
        0 <= start < d1.len(),
        0 < min <= avg <= max,
        p < d1.len(),
        p < d2.len(),
        forall|k: int| 0 <= k < p ==> d1[k] == d2[k],
        boundary(d1, start, min, avg, max) <= p,
    ensures
        boundary(d2, start, min, avg, max) == boundary(d1, start, min, avg, max),
{
    let len1 = d1.len() as int;
    let len2 = d2.len() as int;
    let ms = low_mask(avg as nat);
    let ml = low_mask(max as nat);
    lemma_boundary_range(d1, start, min, avg, max);
    assert(len1 - start > min);
    let hm1 = if len1 < start + max {
        len1
    } else {
        start + max
    };
    let hm2 = if len2 < start + max {
        len2
    } else {
        start + max
    };
    lemma_scan_range(d1, start, start + min, 0, hm1, avg, ms, ml);
    let r1 = scan(d1, start, start + min, 0, hm1, avg, ms, ml);
    assert(r1 >= start + min);
    assert(len2 - start > min);
    lemma_scan_agree(d1, d2, p, start, start + min, 0, hm1, hm2, avg, ms, ml);
}

proof fn lemma_bounds_agree(
    d1: Seq<u8>,
    d2: Seq<u8>,
    p: int,
    start: int,
    k: int,
    min: int,
    avg: int,
    max: int,
)
    requires
        0 <= start <= d1.len(),
        0 < min <= avg <= max,
        p < d1.len(),
        p < d2.len(),
        forall|j: int| 0 <= j < p ==> d1[j] == d2[j],
        0 <= k < bounds_from(d1, start, min, avg, max).len(),
        bounds_from(d1, start, min, avg, max)[k].0 + bounds_from(d1, start, min, avg, max)[k].1
            <= p,
    ensures
        k < bounds_from(d2, start, min, avg, max).len(),
        bounds_from(d2, start, min, avg, max)[k] == bounds_from(d1, start, min, avg, max)[k],
    decreases d1.len() - start,
{
    let b1 = bounds_from(d1, start, min, avg, max);
    lemma_bounds_tile(d1, start, min, avg, max);
    assert(start < d1.len());
    let e = boundary(d1, start, min, avg, max);
    lemma_boundary_range(d1, start, min, avg, max);
    let rest1 = bounds_from(d1, e, min, avg, max);
    assert(b1 == seq![(start, e - start)] + rest1);
    lemma_bounds_tile(d1, e, min, avg, max);
    if k > 0 {
        assert(b1[k] == rest1[k - 1]);
        assert(rest1[k - 1].0 >= e);
    }
    assert(e <= p);
    lemma_boundary_agree(d1, d2, p, start, min, avg, max);
    assert(start < d2.len());
    lemma_boundary_range(d2, start, min, avg, max);
    let b2 = bounds_from(d2, start, min, avg, max);
    let rest2 = bounds_from(d2, e, min, avg, max);
    assert(b2 == seq![(start, e - start)] + rest2);
    if k > 0 {
        lemma_bounds_agree(d1, d2, p, e, k - 1, min, avg, max);
        assert(b2[k] == rest2[k - 1]);
    }
}

proof fn lemma_log2_bound(n: nat, j: nat)
    requires
        n < pow2(j),
        j >= 1,
    ensures
        log2(n) < j,
    decreases j,
{
    if n >= 2 {
        assert(n / 2 < pow2((j - 1) as nat));
        if j - 1 >= 1 {
            lemma_log2_bound(n / 2, (j - 1) as nat);
        } else {
            assert(pow2(0) == 1);
        }
    }
}

proof fn lemma_pow2_64()
    ensures
        pow2(64) == 0x1_0000_0000_0000_0000,
{
    reveal_with_fuel(pow2, 65);
}

/// `FastCDC` with the two-mask normalization: `min = avg/4`, `max = avg*4`.
#[derive(Debug)]
pub struct FastCDC {
    min: usize,
    avg: usize,
    max: usize,
}

impl FastCDC {
    /// Default average chunk size (8 KiB).
    pub const DEFAULT_AVG_SIZE: usize = 8192;

    #[verifier::type_invariant]
    spec fn inv(self) -> bool {
        0 < self.min <= self.avg <= self.max
    }

    /// The minimum chunk size.
    pub closed spec fn spec_min(self) -> usize {
        self.min
    }

    /// The average (target) chunk size.
    pub closed spec fn spec_avg(self) -> usize {
        self.avg
    }

    /// The maximum chunk size.
    pub closed spec fn spec_max(self) -> usize {
        self.max
    }

    /// The `(offset, length)` pairs this chunker cuts `data` into.
    pub open spec fn spec_bounds(self, data: Seq<u8>) -> Seq<(int, int)> {
        bounds_from(
            data,
            0,
            self.spec_min() as int,
            self.spec_avg() as int,
            self.spec_max() as int,
        )
    }

    /// The minimum chunk size.
    pub fn min_size(&self) -> (n: usize)
        ensures
            n == self.spec_min(),
    {
        self.min
    }

    /// The average chunk size.
    pub fn avg_size(&self) -> (n: usize)
        ensures
            n == self.spec_avg(),
    {
        self.avg
    }

    /// The maximum chunk size.
    pub fn max_size(&self) -> (n: usize)
        ensures
            n == self.spec_max(),
    {
        self.max
    }

    /// Chunker with the classic `FastCDC` bounds around `avg_size`.
    pub fn new(avg_size: usize) -> (r: Result<Self, Error>)
        ensures
            avg_size < 4 ==> r == Err::<Self, Error>(Error::InvalidAverageChunkSize),
            avg_size >= 4 ==> (r matches Ok(c) && c.spec_min() == avg_size / 4 && c.spec_avg()
                == avg_size && c.spec_max() == (if avg_size * 4 > usize::MAX {
                usize::MAX as int
            } else {
                avg_size * 4
            })),
    {
        if avg_size < 4 {
            return Err(Error::InvalidAverageChunkSize);
        }
        let max = match avg_size.checked_mul(4) {
            Some(m) => m,
            None => usize::MAX,
        };
        Self::with_bounds(avg_size / 4, avg_size, max)
    }

    /// Chunker with explicit bounds; requires `0 < min <= avg <= max`.
    pub fn with_bounds(min_size: usize, avg_size: usize, max_size: usize) -> (r: Result<Self, Error>)
        ensures
            (min_size == 0 || min_size > avg_size || avg_size > max_size) ==> r == Err::<
                Self,
                Error,
            >(Error::InvalidChunkBounds),
            !(min_size == 0 || min_size > avg_size || avg_size > max_size) ==> (r matches Ok(c)
                && c.spec_min() == min_size && c.spec_avg() == avg_size && c.spec_max()
                == max_size),
    {
        if min_size == 0 || min_size > avg_size || avg_size > max_size {
            return Err(Error::InvalidChunkBounds);
        }
        Ok(Self { min: min_size, avg: avg_size, max: max_size })
    }

    /// The default chunker: 2 KiB / 8 KiB / 32 KiB.
    pub fn default() -> (c: Self)
        ensures
            c.spec_min() == 2048 && c.spec_avg() == 8192 && c.spec_max() == 32768,
    {
        FastCDC { min: 2048, avg: 8192, max: 32768 }
    }

    /// First cut position for the chunk starting at `start`.
    fn next_boundary(&self, data: &[u8], start: usize, gear_tab: &Vec<u64>, ms: u64, ml: u64) -> (e: usize)
        requires
            start < data@.len(),
            gear_tab@.len() == 256,
            forall|b: int| 0 <= b < 256 ==> #[trigger] gear_tab@[b] == gear(b as u8),
            ms == low_mask(self.spec_avg() as nat),
            ml == low_mask(self.spec_max() as nat),
        ensures
            e == boundary(
                data@,
                start as int,
                self.spec_min() as int,
                self.spec_avg() as int,
                self.spec_max() as int,
            ),
    {
        proof {
            use_type_invariant(self);
        }
        let end = data.len();
        if end - start <= self.min {
            return end;
        }
        let lim = match start.checked_add(self.max) {
            Some(l) => l,
            None => usize::MAX,
        };
        let hard_max = if end < lim {
            end
        } else {
            lim
        };
        let ghost hm: int = if end < start + self.max {
            end as int
        } else {
            start + self.max
        };
        assert(hard_max == hm);
        let mut fp: u64 = 0;
        let mut i: usize = start + self.min;
        while i < hard_max
            invariant
                end == data@.len(),
                start + self.min <= i <= hard_max,
                hard_max <= end,
                hard_max == hm,
                hm == (if end < start + self.max {
                    end as int
                } else {
                    start + self.max
                }),
                end - start > self.min,
                ms == low_mask(self.avg as nat),
                ml == low_mask(self.max as nat),
                gear_tab@.len() == 256,
                forall|b: int| 0 <= b < 256 ==> #[trigger] gear_tab@[b] == gear(b as u8),
                scan(data@, start as int, i as int, fp, hm, self.avg as int, ms, ml) == scan(
                    data@,
                    start as int,
                    start + self.min,
                    0,
                    hm,
                    self.avg as int,
                    ms,
                    ml,
                ),
            decreases hard_max - i,
        {
            let b = data[i];
            let g = gear_tab[b as usize];
            assert(g == gear(data@[i as int]));
            let fp2 = fp.wrapping_shl(1).wrapping_add(g);
            let size = i - start + 1;
            let mask = if size <= self.avg {
                ms
            } else {
                ml
            };
            assert(scan(data@, start as int, i as int, fp, hm, self.avg as int, ms, ml) == (if fp2
                & mask == 0 {
                i + 1
            } else {
                scan(data@, start as int, i + 1, fp2, hm, self.avg as int, ms, ml)
            }));
            if fp2 & mask == 0 {
                assert(end - start > self.min);
                assert(scan(data@, start as int, start + self.min, 0, hm, self.avg as int, ms, ml) == i + 1);
                assert(boundary(data@, start as int, self.min as int, self.avg as int, self.max as int) == scan(data@, start as int, start + self.min, 0, hm, self.avg as int, ms, ml));
                return i + 1;
            }
            fp = fp2;
            i = i + 1;
        }
        hard_max
    }

    /// The chunks of `data` (FastCDC boundaries, SHA-256 content addresses).
    pub fn chunk(&self, data: &[u8]) -> (chunks: Vec<ChunkDescriptor>)
        ensures
            describes(chunks@, self.spec_bounds(data@), data@),
            tiles(chunks@, data@.len() as int),
            hashes_content(chunks@, data@),
            forall|i: int|
                0 <= i < chunks@.len() ==> #[trigger] chunks@[i].length <= self.spec_max(),
            forall|i: int|
                0 <= i < chunks@.len() - 1 ==> #[trigger] chunks@[i].length >= self.spec_min(),
    {
        proof {
            use_type_invariant(self);
        }
        let gear_tab = gear_table();
        let ms = mask_for(self.avg);
        let ml = mask_for(self.max);
        let ghost min = self.min as int;
        let ghost avg = self.avg as int;
        let ghost max = self.max as int;
        let n = data.len();
        let mut chunks: Vec<ChunkDescriptor> = Vec::new();
        let mut start: usize = 0;
        proof {
            lemma_bounds_tile(data@, 0, min, avg, max);
        }
        while start < n
            invariant
                n == data@.len(),
                start <= n,
                0 < min <= avg <= max,
                min == self.spec_min(),
                avg == self.spec_avg(),
                max == self.spec_max(),
                gear_tab@.len() == 256,
                forall|b: int| 0 <= b < 256 ==> #[trigger] gear_tab@[b] == gear(b as u8),
                ms == low_mask(self.spec_avg() as nat),
                ml == low_mask(self.spec_max() as nat),
                bounds_from(data@, 0, min, avg, max) == {
                    let done = Seq::new(
                        chunks@.len(),
                        |i: int| (chunks@[i].offset as int, chunks@[i].length as int),
                    );
                    done + bounds_from(data@, start as int, min, avg, max)
                },
                forall|i: int|
                    0 <= i < chunks@.len() ==> #[trigger] chunks@[i].hash@ == sha256(
                        data@.subrange(
                            chunks@[i].offset as int,
                            chunks@[i].offset + chunks@[i].length,
                        ),
                    ),
            decreases n - start,
        {
            let end = self.next_boundary(data, start, &gear_tab, ms, ml);
            proof {
                lemma_boundary_range(data@, start as int, min, avg, max);
            }
            let slice = slice_subrange(data, start, end);
            let hash = sha256_digest(slice);
            let ghost old_chunks = chunks@;
            chunks.push(ChunkDescriptor { offset: start, length: end - start, hash });
            proof {
                let old_done = Seq::new(
                    old_chunks.len(),
                    |i: int| (old_chunks[i].offset as int, old_chunks[i].length as int),
                );
                let new_done = Seq::new(
                    chunks@.len(),
                    |i: int| (chunks@[i].offset as int, chunks@[i].length as int),
                );
                assert(bounds_from(data@, start as int, min, avg, max) == seq![
                    (start as int, end - start),
                ] + bounds_from(data@, end as int, min, avg, max));
                assert(new_done =~= old_done.push((start as int, end - start)));
                assert(old_done + bounds_from(data@, start as int, min, avg, max) =~= new_done
                    + bounds_from(data@, end as int, min, avg, max));
            }
            start = end;
        }
        proof {
            let done = Seq::new(
                chunks@.len(),
                |i: int| (chunks@[i].offset as int, chunks@[i].length as int),
            );
            assert(bounds_from(data@, n as int, min, avg, max) =~= Seq::<(int, int)>::empty());
            assert(done + Seq::<(int, int)>::empty() =~= done);
            let b = bounds_from(data@, 0, min, avg, max);
            assert(b == done);
            assert forall|i: int| 0 <= i < chunks@.len() implies #[trigger] chunks@[i].offset
                == b[i].0 && chunks@[i].length == b[i].1 by {
                assert(done[i] == b[i]);
            }
            assert forall|i: int| 0 <= i < chunks@.len() - 1 implies #[trigger] chunks@[i
                + 1].offset == chunks@[i].offset + chunks@[i].length by {
                assert(b[i + 1].0 == b[i].0 + b[i].1);
            }
            assert forall|i: int| 0 <= i < chunks@.len() implies #[trigger] chunks@[i].offset
                + chunks@[i].length <= data@.len() && chunks@[i].hash@ == sha256(
                data@.subrange(
                    chunks@[i].offset as int,
                    chunks@[i].offset + chunks@[i].length,
                ),
            ) by {
                if i < chunks@.len() - 1 {
                    assert(b[i + 1].0 == b[i].0 + b[i].1);
                    assert(b[i + 1].0 >= 0);
                    lemma_offsets_below_len(b, data@.len() as int, i);
                } else {
                    assert(b.last().0 + b.last().1 == data@.len());
                }
            }
            assert forall|i: int| 0 <= i < chunks@.len() implies #[trigger] chunks@[i].length > 0
                && chunks@[i].length <= max by {
                assert(0 < b[i].1 <= max);
            }
            assert forall|i: int| 0 <= i < chunks@.len() - 1 implies #[trigger] chunks@[i].length
                >= min by {
                assert(b[i].1 >= min);
            }
            if chunks@.len() > 0 {
                assert(chunks@.last().offset == b.last().0);
                assert(chunks@[0].offset == b[0].0);
            }
        }
        chunks
    }
}

proof fn lemma_offsets_below_len(b: Seq<(int, int)>, len: int, i: int)
    requires
        0 <= i < b.len() - 1,
        b.last().0 + b.last().1 == len,
        forall|j: int| 0 <= j < b.len() ==> 0 < #[trigger] b[j].1,
        forall|j: int| 0 <= j < b.len() - 1 ==> #[trigger] b[j + 1].0 == b[j].0 + b[j].1,
    ensures
        b[i].0 + b[i].1 <= len,
    decreases b.len() - i,
{
    assert(b[i + 1].0 == b[i].0 + b[i].1);
    if i < b.len() - 2 {
        lemma_offsets_below_len(b, len, i + 1);
        assert(0 < b[i + 1].1);
    } else {
        assert(0 < b[b.len() - 1].1);
    }
}

impl Chunker for FastCDC {
    fn chunk(&self, data: &[u8]) -> (chunks: Vec<ChunkDescriptor>) {
        FastCDC::chunk(self, data)
    }
}

/// Edits are local: every chunk of `d1` that ends at or before position `p`
/// is also, at the same index, a chunk of any `d2` that agrees with `d1` on
/// the first `p` bytes (both buffers extending past `p`).
pub proof fn lemma_edit_is_local(c: FastCDC, d1: Seq<u8>, d2: Seq<u8>, p: int, k: int)
    requires
        0 < c.spec_min() <= c.spec_avg() <= c.spec_max(),
        p < d1.len(),
        p < d2.len(),
        forall|j: int| 0 <= j < p ==> d1[j] == d2[j],
        0 <= k < c.spec_bounds(d1).len(),
        c.spec_bounds(d1)[k].0 + c.spec_bounds(d1)[k].1 <= p,
    ensures
        k < c.spec_bounds(d2).len(),
        c.spec_bounds(d2)[k] == c.spec_bounds(d1)[k],
{
    lemma_bounds_agree(d1, d2, p, 0, k, c.spec_min() as int, c.spec_avg() as int, c.spec_max() as int);
}

/// Inserting a byte at the start of a chunk leaves every chunk wholly
/// before it unchanged, at the same index.
pub proof fn lemma_insert_keeps_earlier_chunks(c: FastCDC, data: Seq<u8>, k: int, b: u8, i: int)
    requires
        0 < c.spec_min() <= c.spec_avg() <= c.spec_max(),
        0 <= k < c.spec_bounds(data).len(),
        0 <= i < c.spec_bounds(data).len(),
        c.spec_bounds(data)[i].0 + c.spec_bounds(data)[i].1 <= c.spec_bounds(data)[k].0,
    ensures
        ({
            let edited = data.insert(c.spec_bounds(data)[k].0, b);
            &&& i < c.spec_bounds(edited).len()
            &&& c.spec_bounds(edited)[i] == c.spec_bounds(data)[i]
        }),
{
    let bs = c.spec_bounds(data);
    let e = bs[k].0;
    lemma_bounds_tile(data, 0, c.spec_min() as int, c.spec_avg() as int, c.spec_max() as int);
    if k < bs.len() - 1 {
        assert(bs[k + 1].0 == bs[k].0 + bs[k].1);
        lemma_offsets_below_len(bs, data.len() as int, k);
    }
    assert(e < data.len());
    let edited = data.insert(e, b);
    assert forall|j: int| 0 <= j < e implies data[j] == edited[j] by {}
    lemma_edit_is_local(c, data, edited, e, i);
}

/// What `chunk` returns for a buffer with one byte inserted at the start of
/// chunk `k`: every chunk wholly before the insertion is the same chunk, at
/// the same index, with the same offset, length and hash. `before` and
/// `after` are the results of `chunk` on the two buffers (as its `ensures`
/// describes them).
pub proof fn lemma_insert_keeps_earlier_descriptors(
    c: FastCDC,
    data: Seq<u8>,
    before: Seq<ChunkDescriptor>,
    after: Seq<ChunkDescriptor>,
    k: int,
    b: u8,
    i: int,
)
    requires
        0 < c.spec_min() <= c.spec_avg() <= c.spec_max(),
        describes(before, c.spec_bounds(data), data),
        0 <= k < before.len(),
        describes(after, c.spec_bounds(data.insert(before[k].offset as int, b)), data.insert(before[k].offset as int, b)),
        0 <= i < before.len(),
        before[i].offset + before[i].length <= before[k].offset,
    ensures
        i < after.len(),
        after[i] == before[i],
{
    let bs = c.spec_bounds(data);
    let e = before[k].offset as int;
    assert(before[k].offset == bs[k].0);
    assert(before[i].offset == bs[i].0);
    lemma_insert_keeps_earlier_chunks(c, data, k, b, i);
    lemma_bounds_tile(data, 0, c.spec_min() as int, c.spec_avg() as int, c.spec_max() as int);
    if k < bs.len() - 1 {
        assert(bs[k + 1].0 == bs[k].0 + bs[k].1);
        lemma_offsets_below_len(bs, data.len() as int, k);
    }
    assert(e < data.len());
    let edited = data.insert(e, b);
    let (o, l) = bs[i];
    assert(o + l <= e);
    assert(0 <= o);
    assert(after[i].offset == c.spec_bounds(edited)[i].0);
    assert(edited.subrange(o, o + l) =~= data.subrange(o, o + l));
    assert(after[i].hash@ =~= before[i].hash@);
    vstd::array::axiom_array_ext_equal(after[i].hash, before[i].hash);
}

/// The 256-entry gear table.
fn gear_table() -> (t: Vec<u64>)
    ensures
        t@.len() == 256,
        forall|b: int| 0 <= b < 256 ==> #[trigger] t@[b] == gear(b as u8),
{
    let mut t: Vec<u64> = Vec::new();
    let mut state: u64 = 0x9E37_79B9_7F4A_7C15u64;
    let mut k: usize = 0;
    while k < 256
        invariant
            k <= 256,
            t@.len() == k,
            state == gear_state(k as nat),
            forall|b: int| 0 <= b < k ==> #[trigger] t@[b] == gear_state(b as nat + 1),
        decreases 256 - k,
    {
        state = state ^ (state << 13u64);
        state = state ^ (state >> 7u64);
        state = state ^ (state << 17u64);
        t.push(state);
        k = k + 1;
    }
    t
}

/// `2^floor(log2(n)) - 1`.
fn mask_for(n: usize) -> (m: u64)
    ensures
        m == low_mask(n as nat),
{
    proof {
        lemma_pow2_64();
        if n > 0 {
            lemma_log2_bound(n as nat, 64);
        }
    }
    let mut v: usize = n;
    let mut k: u64 = 0;
    while v >= 2
        invariant
            log2(n as nat) == k + log2(v as nat),
            log2(n as nat) < 64,
        decreases v,
    {
        v = v / 2;
        k = k + 1;
    }
    assert(log2(v as nat) == 0);
    assert(k < 64);
    assert((1u64 << k) >= 1u64) by (bit_vector)
        requires
            k < 64,
    ;
    (1u64 << k) - 1
}

} // verus!
