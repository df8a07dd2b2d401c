//! Byte ranges of a download and their progress.

use vstd::prelude::*;

verus! {

/// Configuration of a multi-range download.
#[derive(Debug, Clone, Copy)]
pub struct ChunkConfig {
    /// Number of ranges the resource is split into.
    pub chunk_count: u8,
    /// Resources smaller than this many bytes are fetched as one range.
    pub min_chunk_size: u64,
    /// Number of re-attempts allowed per range after its first attempt.
    pub max_retries: u32,
    /// Delay before the first retry, in milliseconds.
    pub retry_delay_ms: u64,
    /// Whether the delay doubles with each further retry.
    pub exponential_backoff: bool,
}

impl Default for ChunkConfig {
    /// Eight ranges, one MiB minimum, three retries starting at one second,
    /// doubling.
    fn default() -> (r: Self)
        ensures
            r.chunk_count == 8,
            r.min_chunk_size == 1_048_576,
            r.max_retries == 3,
            r.retry_delay_ms == 1000,
            r.exponential_backoff,
    {
        ChunkConfig {
            chunk_count: 8,
            min_chunk_size: 1_048_576,
            max_retries: 3,
            retry_delay_ms: 1000,
            exponential_backoff: true,
        }
    }
}

/// One inclusive byte range `[start, end]` of a resource, with the number of
/// its bytes already written to the destination file.
#[derive(Debug, Clone, Copy, PartialEq, Eq, Structural)]
pub struct Chunk {
    /// Position of the range in its set, from 0.
    pub index: u8,
    /// First byte of the range.
    pub start: u64,
    /// Last byte of the range.
    pub end: u64,
    /// Bytes of the range already written, counted from `start`.
    pub downloaded: u64,
}

/// Sum of the lengths of the ranges in `s`.
pub open spec fn total_len(s: Seq<Chunk>) -> int
    decreases s.len(),
{
    if s.len() == 0 {
        0
    } else {
        total_len(s.drop_last()) + s.last().len_spec()
    }
}

/// Sum of the progress of the ranges in `s`.
pub open spec fn total_downloaded(s: Seq<Chunk>) -> int
    decreases s.len(),
{
    if s.len() == 0 {
        0
    } else {
        total_downloaded(s.drop_last()) + s.last().downloaded
    }
}

impl Chunk {
    /// Number of bytes in the range.
    pub open spec fn len_spec(self) -> int {
        self.end - self.start + 1
    }

    /// The range is non-empty, its end leaves room for the offset after it,
    /// and its progress does not exceed its length.
    pub open spec fn wf(self) -> bool {
        &&& self.start <= self.end
        &&& self.end < u64::MAX
        &&& self.downloaded <= self.len_spec()
    }

    /// Absolute offset of the next byte to fetch.
    pub open spec fn resume_spec(self) -> int {
        self.start + self.downloaded
    }

    /// Returns the size of this chunk in bytes.
    pub fn size(&self) -> (r: u64)
        requires
            self.start <= self.end < u64::MAX,
        ensures
            r == self.len_spec(),
    {
        self.end - self.start + 1
    }

    /// Returns the number of bytes remaining to download.
    pub fn remaining(&self) -> (r: u64)
        requires
            self.wf(),
        ensures
            r == self.len_spec() - self.downloaded,
    {
        self.size() - self.downloaded
    }

    /// Returns true if every byte of the range has been written.
    pub fn is_complete(&self) -> (r: bool)
        requires
            self.wf(),
        ensures
            r == (self.downloaded == self.len_spec()),
    {
        self.downloaded >= self.size()
    }

    /// Returns the next byte position to download from.
    pub fn resume_position(&self) -> (r: u64)
        requires
            self.wf(),
        ensures
            r == self.resume_spec(),
    {
        self.start + self.downloaded
    }
}

} // verus!
