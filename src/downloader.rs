//! Splitting a resource into ranges, and recovering their progress from the
//! length of a partial file.

use vstd::prelude::*;

use crate::chunk::{total_downloaded, total_len, Chunk, ChunkConfig};

verus! {

/// Number of ranges a resource of `total` bytes is split into: one when it
/// is smaller than the minimum chunk size, when at most one range is asked
/// for, or when it has fewer bytes than ranges; else the configured count.
pub open spec fn split_count(c: ChunkConfig, total: u64) -> nat {
    if total < c.min_chunk_size || c.chunk_count <= 1 || total < c.chunk_count {
        1
    } else {
        c.chunk_count as nat
    }
}

/// Length of every range but the last, which also takes the remainder.
pub open spec fn split_len(c: ChunkConfig, total: u64) -> nat {
    total as nat / split_count(c, total)
}

/// The `i`-th range of the split, with nothing downloaded.
pub open spec fn planned_chunk(c: ChunkConfig, total: u64, i: int) -> Chunk {
    let n = split_count(c, total);
    let q = split_len(c, total);
    Chunk {
        index: i as u8,
        start: (i * q) as u64,
        end: if i == n - 1 {
            (total - 1) as u64
        } else {
            ((i + 1) * q - 1) as u64
        },
        downloaded: 0,
    }
}

/// The ranges of a resource of `total` bytes, in order.
pub open spec fn planned_chunks(c: ChunkConfig, total: u64) -> Seq<Chunk> {
    Seq::new(split_count(c, total), |i: int| planned_chunk(c, total, i))
}

/// Facts of one planned range: where it starts and ends, and that it fits.
pub proof fn lemma_planned_chunk(c: ChunkConfig, total: u64, i: int)
    requires
        total >= 1,
        0 <= i < split_count(c, total),
    ensures
        split_count(c, total) <= 255,
        split_len(c, total) >= 1,
        split_count(c, total) * split_len(c, total) <= total,
        i * split_len(c, total) + split_len(c, total) <= total,
        planned_chunk(c, total, i).start == i * split_len(c, total),
        planned_chunk(c, total, i).end == if i == split_count(c, total) - 1 {
            total - 1
        } else {
            (i + 1) * split_len(c, total) - 1
        },
        planned_chunk(c, total, i).index == i,
        planned_chunk(c, total, i).downloaded == 0,
        planned_chunk(c, total, i).wf(),
{
    let n = split_count(c, total);
    let q = split_len(c, total);
    let t = total as nat;
    assert(n >= 1);
    assert(t >= n);
    assert(n * q <= t && q >= 1) by (nonlinear_arith)
        requires
            n >= 1,
            t >= n,
            q == t / n,
    {}
    assert(i * q + q <= t) by (nonlinear_arith)
        requires
            0 <= i < n,
            n * q <= t,
            q >= 1,
    {}
    assert(0 <= i * q && (i + 1) * q == i * q + q) by (nonlinear_arith)
        requires
            0 <= i,
            q >= 1,
    {}
}

/// Length of the partial file, or 0 when there is none.
pub open spec fn existing_len(existing: Option<u64>) -> nat {
    match existing {
        Some(e) => e as nat,
        None => 0,
    }
}

/// Bytes of range `ch` that a partial file of `existing` bytes holds, when
/// the file was written from offset 0 on: none before the range starts, all
/// of them once the file reaches past its end.
pub open spec fn resumed_progress(ch: Chunk, existing: nat) -> u64 {
    if existing <= ch.start {
        0
    } else if existing - ch.start >= ch.len_spec() {
        ch.len_spec() as u64
    } else {
        (existing - ch.start) as u64
    }
}

/// The planned ranges, each with the progress that a partial file of
/// length `existing` (none: `None`) accounts for.
pub open spec fn resumed_chunks(c: ChunkConfig, total: u64, existing: Option<u64>) -> Seq<Chunk> {
    planned_chunks(c, total).map_values(
        |ch: Chunk| Chunk { downloaded: resumed_progress(ch, existing_len(existing)), ..ch },
    )
}

/// The ranges of a resource cover it without gap or overlap: the first
/// starts at byte 0, the last ends at its last byte, and each starts right
/// after the one before; they are numbered in order, and there are either one
/// or `chunk_count` of them.
pub proof fn lemma_partition_covers(c: ChunkConfig, total: u64)
    requires
        total >= 1,
    ensures
        ({
            let s = planned_chunks(c, total);
            &&& s.len() == 1 || s.len() == c.chunk_count
            &&& s[0].start == 0
            &&& s.last().end == total - 1
            &&& forall|i: int| 0 <= i < s.len() ==> #[trigger] s[i].index == i && s[i].wf()
            &&& forall|i: int|
                0 <= i < s.len() - 1 ==> #[trigger] s[i].end + 1 == s[i + 1].start
        }),
{
    let s = planned_chunks(c, total);
    lemma_planned_chunk(c, total, 0);
    lemma_planned_chunk(c, total, s.len() - 1);
    assert forall|i: int| 0 <= i < s.len() implies #[trigger] s[i].index == i && s[i].wf() by {
        lemma_planned_chunk(c, total, i);
    }
    assert forall|i: int| 0 <= i < s.len() - 1 implies #[trigger] s[i].end + 1 == s[i
        + 1].start by {
        lemma_planned_chunk(c, total, i);
        lemma_planned_chunk(c, total, i + 1);
    }
}

proof fn lemma_prefix_len(c: ChunkConfig, total: u64, k: int)
    requires
        total >= 1,
        1 <= k <= split_count(c, total),
    ensures
        total_len(planned_chunks(c, total).take(k)) == planned_chunk(c, total, k - 1).end
            + 1,
    decreases k,
{
    let s = planned_chunks(c, total);
    lemma_planned_chunk(c, total, k - 1);
    assert(s.take(k).drop_last() =~= s.take(k - 1));
    assert(s.take(k).last() == planned_chunk(c, total, k - 1));
    let last = planned_chunk(c, total, k - 1);
    assert(total_len(s.take(k)) == total_len(s.take(k - 1)) + last.len_spec());
    if k > 1 {
        lemma_prefix_len(c, total, k - 1);
        lemma_planned_chunk(c, total, k - 2);
    } else {
        assert(s.take(0) =~= Seq::<Chunk>::empty());
    }
}

/// The lengths of the ranges of a resource add up to its size.
pub proof fn lemma_partition_size_sum(c: ChunkConfig, total: u64)
    requires
        total >= 1,
    ensures
        total_len(planned_chunks(c, total)) == total,
{
    let s = planned_chunks(c, total);
    lemma_prefix_len(c, total, s.len() as int);
    lemma_planned_chunk(c, total, s.len() - 1);
    assert(s.take(s.len() as int) =~= s);
}

/// A resource smaller than the minimum chunk size is one range, over all of
/// its bytes.
pub proof fn lemma_small_file_single_range(c: ChunkConfig, total: u64)
    requires
        1 <= total < c.min_chunk_size,
    ensures
        planned_chunks(c, total) == seq![
            Chunk { index: 0, start: 0, end: (total - 1) as u64, downloaded: 0 },
        ],
{
    let whole = Chunk { index: 0, start: 0, end: (total - 1) as u64, downloaded: 0 };
    lemma_planned_chunk(c, total, 0);
    assert(planned_chunks(c, total) =~= seq![whole]);
}

proof fn lemma_prefix_downloaded(c: ChunkConfig, total: u64, existing: Option<u64>, k: int)
    requires
        total >= 1,
        1 <= k <= split_count(c, total),
    ensures
        total_downloaded(resumed_chunks(c, total, existing).take(k)) == if existing_len(existing)
            <= planned_chunk(c, total, k - 1).end + 1 {
            existing_len(existing) as int
        } else {
            planned_chunk(c, total, k - 1).end + 1
        },
    decreases k,
{
    let s = resumed_chunks(c, total, existing);
    let e = existing_len(existing) as int;
    let ch = planned_chunk(c, total, k - 1);
    lemma_planned_chunk(c, total, k - 1);
    assert(s.take(k).drop_last() =~= s.take(k - 1));
    assert(s.take(k).last() == s[k - 1]);
    assert(s[k - 1].downloaded == resumed_progress(ch, e as nat));
    assert(total_downloaded(s.take(k)) == total_downloaded(s.take(k - 1)) + s[k - 1].downloaded);
    // bytes of the file before this range
    let before: int = if e <= ch.start {
        e
    } else {
        ch.start as int
    };
    if k > 1 {
        lemma_prefix_downloaded(c, total, existing, k - 1);
        lemma_planned_chunk(c, total, k - 2);
        assert(ch.start == planned_chunk(c, total, k - 2).end + 1);
        assert(total_downloaded(s.take(k - 1)) == before);
    } else {
        assert(s.take(0) =~= Seq::<Chunk>::empty());
        assert((k - 1) * split_len(c, total) == 0) by (nonlinear_arith)
            requires
                k == 1,
        ;
        assert(total_downloaded(s.take(k - 1)) == before);
    }
}

/// After a scan, the progress of all ranges adds up to the length of the
/// partial file, or to the size of the resource if the file is longer.
pub proof fn lemma_resume_progress_sum(c: ChunkConfig, total: u64, existing: Option<u64>)
    requires
        total >= 1,
    ensures
        total_downloaded(resumed_chunks(c, total, existing)) == if existing_len(existing) <= total {
            existing_len(existing) as int
        } else {
            total as int
        },
{
    let s = resumed_chunks(c, total, existing);
    lemma_prefix_downloaded(c, total, existing, s.len() as int);
    lemma_planned_chunk(c, total, s.len() - 1);
    assert(s.take(s.len() as int) =~= s);
}

/// Ranges before `k` are complete and ranges after `k` have no progress.
pub open spec fn parts_at(s: Seq<Chunk>, k: int) -> bool {
    &&& 0 <= k <= s.len()
    &&& forall|j: int| 0 <= j < k ==> #[trigger] s[j].downloaded == s[j].len_spec()
    &&& forall|j: int| k < j < s.len() ==> #[trigger] s[j].downloaded == 0
}

/// After a scan, some index `k` parts the ranges: those before it are
/// complete, those after it have no progress, and range `k` itself, if
/// there is one, may be partly done.
pub proof fn lemma_resume_prefix_shape(c: ChunkConfig, total: u64, existing: Option<u64>)
    requires
        total >= 1,
    ensures
        exists|k: int| #[trigger] parts_at(resumed_chunks(c, total, existing), k),
{
    let s = resumed_chunks(c, total, existing);
    let e: int = existing_len(existing) as int;
    let n = s.len() as int;
    let q: int = split_len(c, total) as int;
    lemma_planned_chunk(c, total, 0);
    // the range that holds byte `e`, or `n` when the file covers them all
    let k: int = if e >= total {
        n
    } else if e / q >= n - 1 {
        n - 1
    } else {
        e / q
    };
    assert(k * q <= e) by (nonlinear_arith)
        requires
            k == n || k == n - 1 || k == e / q,
            k <= e / q || e >= total,
            e >= total ==> k * q <= total,
            q >= 1,
    {
        if e < total {
            assert(k * q <= (e / q) * q);
        }
    }
    assert forall|j: int| 0 <= j < k implies #[trigger] s[j].downloaded == s[j].len_spec() by {
        lemma_planned_chunk(c, total, j);
        assert((j + 1) * q <= k * q) by (nonlinear_arith)
            requires
                j + 1 <= k,
                q >= 1,
        ;
    }
    assert forall|j: int| k < j < n implies #[trigger] s[j].downloaded == 0 by {
        lemma_planned_chunk(c, total, j);
        assert(e < j * q) by (nonlinear_arith)
            requires
                k == e / q,
                k + 1 <= j,
                q >= 1,
                e >= 0,
        ;
    }
    assert(parts_at(s, k));
}

/// Every range of a scan is well formed.
pub proof fn lemma_resumed_chunks_wf(c: ChunkConfig, total: u64, existing: Option<u64>)
    requires
        total >= 1,
    ensures
        forall|j: int|
            0 <= j < resumed_chunks(c, total, existing).len() ==> (#[trigger] resumed_chunks(
                c,
                total,
                existing,
            )[j]).wf(),
{
    assert forall|j: int| 0 <= j < resumed_chunks(c, total, existing).len() implies (
    #[trigger] resumed_chunks(c, total, existing)[j]).wf() by {
        lemma_planned_chunk(c, total, j);
    }
}

/// Engine settings of a multi-range download: how to split, how to retry.
pub struct ChunkedDownloader {
    pub config: ChunkConfig,
}

impl Default for ChunkedDownloader {
    /// Same as `new`.
    fn default() -> (r: Self)
        ensures
            r.config.chunk_count == 8,
            r.config.min_chunk_size == 1_048_576,
            r.config.max_retries == 3,
            r.config.retry_delay_ms == 1000,
            r.config.exponential_backoff,
    {
        ChunkedDownloader::new()
    }
}

impl ChunkedDownloader {
    /// Creates a downloader with the default configuration.
    pub fn new() -> (r: Self)
        ensures
            r.config.chunk_count == 8,
            r.config.min_chunk_size == 1_048_576,
            r.config.max_retries == 3,
            r.config.retry_delay_ms == 1000,
            r.config.exponential_backoff,
    {
        ChunkedDownloader { config: ChunkConfig::default() }
    }

    /// Creates a downloader with the given configuration.
    pub fn with_config(config: ChunkConfig) -> (r: Self)
        ensures
            r.config == config,
    {
        ChunkedDownloader { config }
    }

    /// Splits a resource of `file_size` bytes into contiguous ranges that
    /// cover it, the last one taking the remainder.
    pub fn calculate_chunks(&self, file_size: u64) -> (r: Vec<Chunk>)
        requires
            file_size >= 1,
        ensures
            r@ == planned_chunks(self.config, file_size),
    {
        let c = &self.config;
        let n: u8 = if file_size < c.min_chunk_size || c.chunk_count <= 1
            || file_size < c.chunk_count as u64 {
            1
        } else {
            c.chunk_count
        };
        assert(n == split_count(*c, file_size));
        let q: u64 = file_size / n as u64;
        let mut chunks: Vec<Chunk> = Vec::new();
        let mut start: u64 = 0;
        let mut i: u8 = 0;
        while i < n
            invariant
                file_size >= 1,
                n == split_count(*c, file_size),
                q == split_len(*c, file_size),
                i <= n,
                i < n ==> start == i * q,
                chunks@ == planned_chunks(*c, file_size).take(i as int),
            decreases n - i,
        {
            proof {
                lemma_planned_chunk(*c, file_size, i as int);
            }
            let end: u64 = if i == n - 1 {
                file_size - 1
            } else {
                start + q - 1
            };
            chunks.push(Chunk { index: i, start, end, downloaded: 0 });
            start = end + 1;
            i = i + 1;
            proof {
                if i < n {
                    assert(start == i * q) by (nonlinear_arith)
                        requires
                            start == (i - 1) * q + q - 1 + 1,
                    {}
                }
                assert(chunks@ =~= planned_chunks(*c, file_size).take(i as int));
            }
        }
        chunks
    }

    /// Splits a resource of `file_size` bytes as `calculate_chunks` does and
    /// credits each range with the bytes that a partial destination file of
    /// `existing_len` bytes already holds (`None`: no file). A file at least as
    /// long as the resource completes every range; a shorter one fills the
    /// ranges in order, the last one it reaches partly.
    pub fn detect_resume(&self, existing_len: Option<u64>, file_size: u64) -> (r: Vec<Chunk>)
        requires
            file_size >= 1,
        ensures
            r@ == resumed_chunks(self.config, file_size, existing_len),
    {
        let mut chunks = self.calculate_chunks(file_size);
        let ghost planned = chunks@;
        let existing = match existing_len {
            None => {
                assert(chunks@ =~= resumed_chunks(self.config, file_size, existing_len));
                return chunks;
            },
            Some(e) => e,
        };
        let n = chunks.len();
        let mut remaining: u64 = existing;
        let mut i: usize = 0;
        while i < n
            invariant
                file_size >= 1,
                planned == planned_chunks(self.config, file_size),
                n == planned.len(),
                chunks@.len() == n,
                i <= n,
                i < n ==> remaining == if existing <= planned[i as int].start {
                    0
                } else {
                    existing - planned[i as int].start
                },
                forall|j: int|
                    0 <= j < i ==> chunks@[j] == (Chunk {
                        downloaded: resumed_progress(planned[j], existing as nat),
                        ..planned[j]
                    }),
                forall|j: int| i <= j < n ==> chunks@[j] == planned[j],
            decreases n - i,
        {
            proof {
                lemma_planned_chunk(self.config, file_size, i as int);
                if i + 1 < n {
                    lemma_planned_chunk(self.config, file_size, i + 1);
                }
            }
            let chunk_size = chunks[i].size();
            let mut ch = chunks[i];
            if remaining >= chunk_size {
                ch.downloaded = chunk_size;
                remaining = remaining - chunk_size;
            } else {
                ch.downloaded = remaining;
                remaining = 0;
            }
            chunks.set(i, ch);
            i = i + 1;
        }
        assert(chunks@ =~= resumed_chunks(self.config, file_size, existing_len));
        chunks
    }
}

} // verus!
