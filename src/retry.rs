//! Bounded retry of a range fetch, with constant or doubling backoff.

use vstd::prelude::*;
use vstd::arithmetic::power2::{lemma2_to64, lemma_pow2_strictly_increases, lemma_pow2_unfold, pow2};

use crate::chunk::ChunkConfig;
use crate::error::DownloadError;

verus! {

/// Most doublings of the initial delay: retries after the one that reaches
/// it wait as long as that one.
pub const MAX_BACKOFF_EXPONENT: u32 = 20;

/// Delay in milliseconds before retry number `attempt` (from 1): the initial
/// delay, doubled `attempt - 1` times in exponential mode (at most
/// `MAX_BACKOFF_EXPONENT` times), saturating at `u64::MAX`.
pub open spec fn backoff_spec(c: ChunkConfig, attempt: nat) -> nat {
    if c.exponential_backoff {
        let e: nat = if attempt - 1 > MAX_BACKOFF_EXPONENT {
            MAX_BACKOFF_EXPONENT as nat
        } else {
            (attempt - 1) as nat
        };
        if c.retry_delay_ms * pow2(e) > u64::MAX {
            u64::MAX as nat
        } else {
            (c.retry_delay_ms * pow2(e)) as nat
        }
    } else {
        c.retry_delay_ms as nat
    }
}

/// Delay in milliseconds to wait before retry number `attempt`.
pub fn backoff_delay(config: &ChunkConfig, attempt: u32) -> (r: u64)
    requires
        attempt >= 1,
    ensures
        r == backoff_spec(*config, attempt as nat),
{
    if !config.exponential_backoff {
        return config.retry_delay_ms;
    }
    let e: u32 = if attempt - 1 > MAX_BACKOFF_EXPONENT {
        MAX_BACKOFF_EXPONENT
    } else {
        attempt - 1
    };
    let mut factor: u64 = 1;
    let mut j: u32 = 0;
    proof {
        lemma2_to64();
    }
    while j < e
        invariant
            e <= MAX_BACKOFF_EXPONENT,
            j <= e,
            factor == pow2(j as nat),
        decreases e - j,
    {
        proof {
            lemma_pow2_unfold((j + 1) as nat);
            lemma_pow2_strictly_increases((j + 1) as nat, 21);
            lemma2_to64();
        }
        factor = factor * 2;
        j = j + 1;
    }
    match config.retry_delay_ms.checked_mul(factor) {
        Some(d) => d,
        None => u64::MAX,
    }
}

/// With doubling backoff and an initial delay `d` small enough that no
/// doubling overflows, retry number `k` waits `d * 2^(k-1)` for `k` in
/// `[1, 20]`.
pub proof fn lemma_exponential_delay(c: ChunkConfig, k: nat)
    requires
        c.exponential_backoff,
        1 <= k <= 20,
        c.retry_delay_ms * pow2(19) <= u64::MAX,
    ensures
        backoff_spec(c, k) == c.retry_delay_ms * pow2((k - 1) as nat),
{
    let e = (k - 1) as nat;
    if e < 19 {
        lemma_pow2_strictly_increases(e, 19);
    }
    let d = c.retry_delay_ms as nat;
    assert(d * pow2(e) <= d * pow2(19)) by (nonlinear_arith)
        requires
            pow2(e) <= pow2(19),
    {}
}

/// What to do after an attempt of a range fetch.
#[derive(Debug)]
pub enum RetryStep {
    /// The attempt succeeded, having written this many bytes.
    Done(u64),
    /// The attempt failed; wait this many milliseconds and try again.
    Wait(u64),
    /// The attempt failed and no retry is left; this is the error.
    GiveUp(DownloadError),
}

/// Retry progress of one range: how many retries have been started.
pub struct RetryState {
    pub attempt: u32,
}

impl RetryState {
    /// State before the first attempt.
    pub fn new() -> (r: Self)
        ensures
            r.attempt == 0,
    {
        RetryState { attempt: 0 }
    }

    /// Decides what follows an attempt that ended with `outcome`. A success
    /// ends the retries. A failure gives up once `max_retries` retries have
    /// been made; before that it counts one more retry and waits the backoff
    /// delay for it.
    pub fn on_outcome(&mut self, config: &ChunkConfig, outcome: Result<u64, DownloadError>) -> (r:
        RetryStep)
        ensures
            match outcome {
                Ok(n) => r == RetryStep::Done(n) && final(self).attempt == old(self).attempt,
                Err(e) => if old(self).attempt >= config.max_retries {
                    r == RetryStep::GiveUp(e) && final(self).attempt == old(self).attempt
                } else {
                    &&& final(self).attempt == old(self).attempt + 1
                    &&& r == RetryStep::Wait(
                        backoff_spec(*config, final(self).attempt as nat) as u64,
                    )
                },
            },
    {
        match outcome {
            Ok(n) => RetryStep::Done(n),
            Err(e) => {
                if self.attempt >= config.max_retries {
                    RetryStep::GiveUp(e)
                } else {
                    self.attempt = self.attempt + 1;
                    RetryStep::Wait(backoff_delay(config, self.attempt))
                }
            },
        }
    }
}

} // verus!
