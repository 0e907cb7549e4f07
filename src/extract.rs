use vstd::prelude::*;

verus! {

/// Price of the offline source before its variation, in hundredths.
pub const OFFLINE_BASE_CENTS: u64 = 5_000_000;

/// Delay before the first retry after a rate limit, in milliseconds.
pub const RATE_LIMIT_BASE_DELAY_MS: u64 = 1000;

/// Step of the linear retry delay after other failures, in milliseconds.
pub const RETRY_STEP_MS: u64 = 500;

/// Why one fetch of the price endpoint failed.
#[derive(Debug, Clone, Copy, PartialEq, Eq, Structural)]
pub enum FetchFailure {
    /// HTTP 429 or 403.
    RateLimited,
    /// Any other unsuccessful HTTP status.
    HttpStatus,
    /// The body was not the expected JSON.
    Decode,
    /// The request did not complete.
    Request,
}

/// What to do after a failed attempt.
#[derive(Debug, Clone, Copy, PartialEq, Eq, Structural)]
pub enum RetryAction {
    Retry { delay_ms: u64 },
    GiveUp,
}

/// Classifies an unsuccessful HTTP status.
pub fn status_failure(status: u16) -> (r: FetchFailure)
    ensures
        r == (if status == 429 || status == 403 {
            FetchFailure::RateLimited
        } else {
            FetchFailure::HttpStatus
        }),
{
    if status == 429 || status == 403 {
        FetchFailure::RateLimited
    } else {
        FetchFailure::HttpStatus
    }
}

/// `RATE_LIMIT_BASE_DELAY_MS * 2^(attempt - 1)`.
pub open spec fn exponential_delay(attempt: nat) -> nat
    decreases attempt,
{
    if attempt <= 1 {
        RATE_LIMIT_BASE_DELAY_MS as nat
    } else {
        2 * exponential_delay((attempt - 1) as nat)
    }
}

/// `x`, capped at `u64::MAX`.
pub open spec fn capped(x: nat) -> nat {
    if x <= u64::MAX {
        x
    } else {
        u64::MAX as nat
    }
}

/// The retry policy of the price fetch, for attempts numbered from 1: after
/// a rate limit wait exponentially longer, after another failure linearly
/// longer, and give up once `max_retries` attempts were made. Delays are
/// capped at `u64::MAX` milliseconds.
pub fn retry_action(attempt: u32, max_retries: u32, failure: FetchFailure) -> (r: RetryAction)
    requires
        attempt >= 1,
    ensures
        attempt >= max_retries ==> r == RetryAction::GiveUp,
        attempt < max_retries && failure == FetchFailure::RateLimited ==> r == (RetryAction::Retry {
            delay_ms: capped(exponential_delay(attempt as nat)) as u64,
        }),
        attempt < max_retries && failure != FetchFailure::RateLimited ==> r == (RetryAction::Retry {
            delay_ms: (RETRY_STEP_MS * attempt) as u64,
        }),
{
    if attempt >= max_retries {
        return RetryAction::GiveUp;
    }
    match failure {
        FetchFailure::RateLimited => {
            let mut delay: u64 = RATE_LIMIT_BASE_DELAY_MS;
            let mut i: u32 = 1;
            while i < attempt
                invariant
                    1 <= i <= attempt,
                    delay as nat == capped(exponential_delay(i as nat)),
                decreases attempt - i,
            {
                delay = if delay > u64::MAX / 2 {
                    u64::MAX
                } else {
                    delay * 2
                };
                i = i + 1;
            }
            RetryAction::Retry { delay_ms: delay }
        },
        _ => {
            assert(RETRY_STEP_MS * attempt <= 500 * u32::MAX);
            RetryAction::Retry { delay_ms: RETRY_STEP_MS * attempt as u64 }
        },
    }
}

/// The last three decimal digits of a timestamp, with its sign (Rust's `%`).
pub open spec fn millis_part(timestamp: int) -> int {
    if timestamp >= 0 {
        timestamp % 1000
    } else {
        -((-timestamp) % 1000)
    }
}

/// The synthetic price of the offline source at `timestamp`: 50,000.00 plus
/// a tenth of the timestamp's last three digits, in hundredths.
pub fn offline_price_cents(timestamp: i64) -> (r: u64)
    ensures
        r == OFFLINE_BASE_CENTS + 10 * millis_part(timestamp as int),
{
    let t = timestamp as i128;
    let part: i128 = if t >= 0 {
        t % 1000
    } else {
        -((-t) % 1000)
    };
    (OFFLINE_BASE_CENTS as i128 + 10 * part) as u64
}

} // verus!
