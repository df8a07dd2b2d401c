//! What a download does once the resource has been probed, and how the byte
//! counts of its parts are added up.

use vstd::prelude::*;

use crate::chunk::Chunk;
use crate::downloader::{lemma_resumed_chunks_wf, resumed_chunks, ChunkedDownloader};
use crate::error::DownloadError;
use crate::probe::ProbeResult;

verus! {

/// Whether a range still lacks bytes.
pub open spec fn is_pending(ch: Chunk) -> bool {
    ch.downloaded < ch.len_spec()
}

/// How a probed resource is to be fetched.
#[derive(Debug)]
pub enum DownloadPlan {
    /// One plain request for the whole resource, written from the start of
    /// a new file.
    Single,
    /// The destination file already holds every range: nothing to fetch.
    Complete,
    /// Fetch these ranges, each on its own, into the destination file;
    /// create it and set its length to the resource size first when
    /// `create_file` holds, else open it as it is.
    Ranged { chunks: Vec<Chunk>, create_file: bool },
}

impl ChunkedDownloader {
    /// Decides how to fetch a resource that the probe described as `probe`,
    /// into a destination whose current length is `existing_len` (`None`: no
    /// file). A server without byte ranges, or an empty resource, gets one
    /// plain request. Otherwise the ranges come from `detect_resume`; when
    /// none is pending there is nothing to do, else the pending ones are
    /// fetched in order, into a new pre-sized file when there was none.
    pub fn plan_download(&self, probe: ProbeResult, existing_len: Option<u64>) -> (r: DownloadPlan)
        ensures
            match r {
                DownloadPlan::Single => !probe.ranges_supported || probe.total_size == 0,
                DownloadPlan::Complete => {
                    &&& probe.ranges_supported
                    &&& probe.total_size > 0
                    &&& resumed_chunks(self.config, probe.total_size, existing_len).filter(
                        |ch: Chunk| is_pending(ch),
                    ).len() == 0
                },
                DownloadPlan::Ranged { chunks, create_file } => {
                    &&& probe.ranges_supported
                    &&& probe.total_size > 0
                    &&& chunks@ == resumed_chunks(
                        self.config,
                        probe.total_size,
                        existing_len,
                    ).filter(|ch: Chunk| is_pending(ch))
                    &&& chunks@.len() > 0
                    &&& create_file == existing_len.is_none()
                },
            },
    {
        if !probe.ranges_supported || probe.total_size == 0 {
            return DownloadPlan::Single;
        }
        let all = self.detect_resume(existing_len, probe.total_size);
        proof {
            lemma_resumed_chunks_wf(self.config, probe.total_size, existing_len);
        }
        let ghost pending = |ch: Chunk| is_pending(ch);
        let mut chunks: Vec<Chunk> = Vec::new();
        let mut i: usize = 0;
        while i < all.len()
            invariant
                i <= all@.len(),
                all@ == resumed_chunks(self.config, probe.total_size, existing_len),
                probe.total_size > 0,
                pending == (|ch: Chunk| is_pending(ch)),
                chunks@ == all@.take(i as int).filter(pending),
                forall|j: int| 0 <= j < all@.len() ==> (#[trigger] all@[j]).wf(),
            decreases all.len() - i,
        {
            let ghost prefix = all@.take(i + 1);
            proof {
                assert(prefix =~= all@.take(i as int).push(all@[i as int]));
                all@.take(i as int).lemma_filter_push(all@[i as int], pending);
                assert(prefix.filter(pending) == if pending(all@[i as int]) {
                    all@.take(i as int).filter(pending).push(all@[i as int])
                } else {
                    all@.take(i as int).filter(pending)
                });
            }
            if !all[i].is_complete() {
                chunks.push(all[i]);
            }
            i = i + 1;
        }
        assert(all@.take(all@.len() as int) =~= all@);
        if chunks.len() == 0 {
            DownloadPlan::Complete
        } else {
            DownloadPlan::Ranged { chunks, create_file: existing_len.is_none() }
        }
    }
}

/// Adds `n` bytes to a running count; a count past `u64::MAX` is an
/// internal error.
pub fn add_bytes(total: u64, n: u64) -> (r: Result<u64, DownloadError>)
    ensures
        total + n <= u64::MAX ==> r == Ok::<u64, DownloadError>((total + n) as u64),
        total + n > u64::MAX ==> r matches Err(DownloadError::Internal(_)),
{
    match total.checked_add(n) {
        Some(sum) => Ok(sum),
        None => Err(DownloadError::Internal(String::from_str("byte count overflow"))),
    }
}

} // verus!
