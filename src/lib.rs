//! Resumable, multi-connection download engine.
//!
//! The crate holds the decisions of the engine: how a resource is split into
//! byte ranges, how progress is recovered from a partial file, what each
//! ranged request asks for and accepts, how failures are retried, and how the
//! results of the range tasks are combined. Network and file I/O stay with the
//! caller, which hands plain values in and acts on the values handed back.

pub mod chunk;
pub mod downloader;
pub mod error;
pub mod fetch;
pub mod plan;
pub mod probe;
pub mod retry;
pub mod text;

pub use chunk::{Chunk, ChunkConfig};
pub use downloader::ChunkedDownloader;
pub use error::DownloadError;
pub use plan::{add_bytes, DownloadPlan};
pub use probe::{accepts_byte_ranges, check_status, probe_result, ProbeResult};
pub use retry::{backoff_delay, RetryState, RetryStep};
