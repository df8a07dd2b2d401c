//! One ranged request: what it asks for, which answers it accepts, and how
//! the bytes it receives advance the range.

use vstd::prelude::*;
use vstd::string::StringExecFns;

use crate::chunk::Chunk;
use crate::error::DownloadError;
use crate::text::{decimal, push_decimal};

verus! {

/// Value of a `Range` header asking for bytes `a` to `b`, both inclusive.
pub open spec fn range_header_text(a: nat, b: nat) -> Seq<char> {
    "bytes="@ + decimal(a) + "-"@ + decimal(b)
}

/// The answer to a ranged request with status `status`: `206` always
/// carries the range; a full `200` is taken only when the request starts at
/// the beginning of its range; any other status fails.
pub open spec fn range_status_outcome(ch: Chunk, status: u16) -> Result<(), DownloadError> {
    if status == 206 {
        Ok(())
    } else if status == 200 {
        if ch.downloaded == 0 {
            Ok(())
        } else {
            Err(DownloadError::UnexpectedFullResponse)
        }
    } else {
        Err(DownloadError::HttpError(status))
    }
}

impl Chunk {
    /// The range with `n` more bytes written.
    pub open spec fn advanced(self, n: nat) -> Chunk {
        Chunk { downloaded: (self.downloaded + n) as u64, ..self }
    }

    /// The `Range` header that fetches the rest of this range, from its
    /// resume position to its end; `None` when the range is complete and
    /// nothing is to be requested.
    pub fn range_header(&self) -> (r: Option<String>)
        requires
            self.wf(),
        ensures
            match r {
                Some(h) => self.downloaded < self.len_spec() && h@ == range_header_text(
                    self.resume_spec() as nat,
                    self.end as nat,
                ),
                None => self.downloaded == self.len_spec(),
            },
    {
        if self.is_complete() {
            return None;
        }
        let mut h = String::from_str("bytes=");
        push_decimal(&mut h, self.resume_position());
        h.append("-");
        push_decimal(&mut h, self.end);
        Some(h)
    }

    /// Decides whether the answer to this range's request, with status
    /// `status`, is to be streamed into the file.
    pub fn check_range_status(&self, status: u16) -> (r: Result<(), DownloadError>)
        ensures
            r == range_status_outcome(*self, status),
    {
        if status == 206 {
            Ok(())
        } else if status == 200 {
            if self.downloaded == 0 {
                Ok(())
            } else {
                Err(DownloadError::UnexpectedFullResponse)
            }
        } else {
            Err(DownloadError::HttpError(status))
        }
    }

    /// How many leading bytes of a received block of `block_len` bytes
    /// belong to this range: all of them, or as many as it still lacks.
    /// Bytes past the range's end would overwrite the next range.
    pub fn writable_len(&self, block_len: usize) -> (r: usize)
        requires
            self.wf(),
        ensures
            r == if block_len <= self.len_spec() - self.downloaded {
                block_len as int
            } else {
                self.len_spec() - self.downloaded
            },
    {
        let rest = self.remaining();
        if block_len as u64 <= rest {
            block_len
        } else {
            rest as usize
        }
    }

    /// Records that `n` more bytes of the range were written at its resume
    /// position.
    pub fn record_written(&mut self, n: u64)
        requires
            old(self).wf(),
            n <= old(self).len_spec() - old(self).downloaded,
        ensures
            *final(self) == old(self).advanced(n as nat),
            final(self).wf(),
    {
        self.downloaded = self.downloaded + n;
    }
}

/// `file` with the bytes of `data` written from offset `at` on.
pub open spec fn write_at(file: Seq<u8>, at: int, data: Seq<u8>) -> Seq<u8> {
    Seq::new(
        file.len(),
        |i: int|
            if at <= i < at + data.len() {
                data[i - at]
            } else {
                file[i]
            },
    )
}

/// What a server holding `body` sends for a request of bytes `a` to `b`.
pub open spec fn served(body: Seq<u8>, a: int, b: int) -> Seq<u8> {
    body.subrange(a, b + 1)
}

/// Asking for the rest of a range, writing `n` of the bytes received, and
/// asking again from the new resume position to the same end leaves the
/// pre-sized file as one request for the rest of the range would.
pub proof fn lemma_resumed_request_same_file(ch: Chunk, n: nat, body: Seq<u8>, file: Seq<u8>)
    requires
        ch.wf(),
        n <= ch.len_spec() - ch.downloaded,
        ch.end < body.len(),
        file.len() == body.len(),
    ensures
        ch.advanced(n).resume_spec() == ch.resume_spec() + n,
        ch.advanced(n).end == ch.end,
        write_at(
            write_at(
                file,
                ch.resume_spec(),
                served(body, ch.resume_spec(), ch.resume_spec() + n - 1),
            ),
            ch.advanced(n).resume_spec(),
            served(body, ch.advanced(n).resume_spec(), ch.advanced(n).end as int),
        ) == write_at(file, ch.resume_spec(), served(body, ch.resume_spec(), ch.end as int)),
{
    let a = ch.resume_spec();
    let lhs = write_at(
        write_at(file, a, served(body, a, a + n - 1)),
        a + n,
        served(body, a + n, ch.end as int),
    );
    let rhs = write_at(file, a, served(body, a, ch.end as int));
    assert(lhs =~= rhs);
}

} // verus!
