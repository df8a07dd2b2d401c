//! Reading the answer to the metadata request that precedes a download.

use vstd::prelude::*;
use vstd::string::StrSliceExecFns;

use crate::error::DownloadError;

verus! {

/// What the metadata request tells of a resource.
#[derive(Debug, Clone, Copy, PartialEq, Eq, Structural)]
pub struct ProbeResult {
    /// Size of the resource in bytes.
    pub total_size: u64,
    /// Whether the server takes byte-range requests.
    pub ranges_supported: bool,
}

/// Whether `status` is a success code (2xx).
pub open spec fn is_success(status: u16) -> bool {
    200 <= status <= 299
}

/// Whether an `Accept-Ranges` header value (`None`: header absent or not
/// text) announces byte ranges.
pub open spec fn announces_byte_ranges(value: Option<Seq<char>>) -> bool {
    value == Some("bytes"@)
}

/// Passes a success status and turns any other into `HttpError`.
pub fn check_status(status: u16) -> (r: Result<(), DownloadError>)
    ensures
        is_success(status) ==> r is Ok,
        !is_success(status) ==> r == Err::<(), DownloadError>(DownloadError::HttpError(status)),
{
    if 200 <= status && status <= 299 {
        Ok(())
    } else {
        Err(DownloadError::HttpError(status))
    }
}

/// Whether an `Accept-Ranges` header value announces byte ranges: only the
/// exact value `bytes` does.
pub fn accepts_byte_ranges(value: Option<&str>) -> (r: bool)
    ensures
        r == announces_byte_ranges(
            match value {
                Some(v) => Some(v@),
                None => None,
            },
        ),
{
    let v = match value {
        Some(v) => v,
        None => return false,
    };
    let unit = "bytes";
    proof {
        reveal_strlit("bytes");
    }
    let n = v.unicode_len();
    if n != unit.unicode_len() {
        assert(v@.len() != "bytes"@.len());
        return false;
    }
    let mut i: usize = 0;
    while i < n
        invariant
            n == v@.len(),
            n == unit@.len(),
            i <= n,
            unit@ == "bytes"@,
            value == Some(v),
            forall|j: int| 0 <= j < i ==> v@[j] == unit@[j],
        decreases n - i,
    {
        if v.get_char(i) != unit.get_char(i) {
            assert(v@[i as int] != "bytes"@[i as int]);
            return false;
        }
        i = i + 1;
    }
    assert(v@ =~= "bytes"@);
    true
}

/// What the answer to the metadata request, with status `status`, a
/// `Content-Length` of `content_length` and an `Accept-Ranges` value of
/// `accept_ranges`, means to a download.
pub open spec fn probe_outcome(
    status: u16,
    content_length: Option<u64>,
    accept_ranges: Option<Seq<char>>,
) -> Result<ProbeResult, DownloadError> {
    if !is_success(status) {
        Err(DownloadError::HttpError(status))
    } else {
        match content_length {
            None => Err(DownloadError::MissingContentLength),
            Some(len) => Ok(
                ProbeResult {
                    total_size: len,
                    ranges_supported: announces_byte_ranges(accept_ranges),
                },
            ),
        }
    }
}

/// Reads the answer to the metadata request: a status that is not a
/// success fails, a missing length fails, and ranges are supported only
/// when `Accept-Ranges` is `bytes`.
pub fn probe_result(status: u16, content_length: Option<u64>, accept_ranges: Option<&str>) -> (r:
    Result<ProbeResult, DownloadError>)
    ensures
        r == probe_outcome(
            status,
            content_length,
            match accept_ranges {
                Some(v) => Some(v@),
                None => None,
            },
        ),
{
    check_status(status)?;
    match content_length {
        None => Err(DownloadError::MissingContentLength),
        Some(len) => Ok(
            ProbeResult { total_size: len, ranges_supported: accepts_byte_ranges(accept_ranges) },
        ),
    }
}

} // verus!
