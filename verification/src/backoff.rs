//! Waiting between retries: doubling up to a minute, with jitter.

use vstd::arithmetic::power2::pow2;
use vstd::prelude::*;

use crate::outside::random;

verus! {

/// First wait after a failure, in milliseconds.
pub const BACKOFF_START: u64 = 1_000;

/// Longest wait, in milliseconds.
pub const BACKOFF_MAX: u64 = 60_000;

/// The wait after another failure: doubled, up to the longest.
pub open spec fn doubled(ms: u64) -> u64 {
    if ms * 2 > BACKOFF_MAX {
        BACKOFF_MAX
    } else {
        (ms * 2) as u64
    }
}

/// The wait after another failure.
pub fn next_backoff(ms: u64) -> (r: u64)
    ensures
        r == doubled(ms),
{
    if ms > BACKOFF_MAX / 2 {
        BACKOFF_MAX
    } else {
        ms * 2
    }
}

/// The wait reached after `n` failures in a row.
pub open spec fn wait_after(n: nat) -> u64
    decreases n,
{
    if n == 0 {
        BACKOFF_START
    } else {
        doubled(wait_after((n - 1) as nat))
    }
}

/// Waits double from one second up to one minute.
pub proof fn law_backoff_is_capped_doubling(n: nat)
    ensures
        wait_after(n) == if 1_000 * pow2(n) >= 60_000 {
            60_000
        } else {
            1_000 * pow2(n)
        },
        BACKOFF_START <= wait_after(n) <= BACKOFF_MAX,
    decreases n,
{
    if n == 0 {
        vstd::arithmetic::power2::lemma2_to64();
    } else {
        law_backoff_is_capped_doubling((n - 1) as nat);
        vstd::arithmetic::power2::lemma_pow2_unfold(n);
    }
}

/// A wait of `ms` milliseconds with a given random part, in microseconds: as
/// many half milliseconds as `ms` and the random part make together.
pub open spec fn jittered(ms: u64, jitter: u64) -> int {
    (ms + jitter) * 500
}

/// The wait with the random part, in microseconds.
pub fn with_jitter(ms: u64, jitter: u64) -> (r: u128)
    ensures
        r == jittered(ms, jitter),
{
    (ms as u128 + jitter as u128) * 500
}

/// A wait of `ms` milliseconds with jitter, in microseconds, so that runners
/// do not retry in step: at least half the wait, and less than the whole.
pub fn jittered_backoff(ms: u64) -> (r: u128)
    ensures
        ms == 0 ==> r == 0,
        ms > 0 ==> ms * 1000 <= 2 * r && r < ms * 1000,
        ms > 0 ==> exists|jitter: u64| jitter < ms && r == #[trigger] jittered(ms, jitter),
{
    if ms == 0 {
        return 0;
    }
    let jitter: u64 = random::below(ms);
    let r: u128 = with_jitter(ms, jitter);
    assert(r == jittered(ms, jitter));
    r
}

/// The next wait is twice as long, and a minute from half a minute on.
pub proof fn law_next_wait_doubles(ms: u64, r: u64)
    requires
        call_ensures(next_backoff, (ms,), r),
    ensures
        ms <= 30_000 ==> r == 2 * ms,
        ms > 30_000 ==> r == 60_000,
        doubled(ms) == r,
{
}

/// The random part is added to the wait, and half of the sum is waited: from
/// half of the wait up to the whole.
pub proof fn law_jitter_is_half_the_sum(ms: u64, jitter: u64, r: u128)
    requires
        call_ensures(with_jitter, (ms, jitter), r),
    ensures
        2 * r == 1000 * (ms + jitter),
        jitter <= ms ==> ms * 500 <= r <= ms * 1000,
{
}

} // verus!
