//! The retry delay schedule for failed outbox tasks.
//!
//! The delay is exponential with base 5 seconds, doubling per attempt, with
//! the exponent capped at 10 and the whole delay capped by a ceiling. It is
//! purely a function of the attempt count, so it is deterministic.

use vstd::prelude::*;

verus! {

/// Largest delay the exponent cap alone allows: 5 * 2^10.
pub const MAX_UNCAPPED_DELAY_SECS: i64 = 5120;

/// Default overall ceiling on the delay, in seconds.
pub const DEFAULT_BACKOFF_CAP_SECS: i64 = 3600;

/// 2^n for small n.
pub open spec fn pow2(n: int) -> int
    decreases n,
{
    if n <= 0 {
        1
    } else {
        2 * pow2(n - 1)
    }
}

/// The delay before the cap is applied: 5 * 2^min(attempt, 10).
pub open spec fn spec_uncapped_delay(attempt: int) -> int {
    5 * pow2(if attempt < 10 { attempt } else { 10 })
}

/// The effective ceiling: a non-positive cap means "no extra cap".
pub open spec fn spec_effective_cap(cap_secs: int) -> int {
    if cap_secs <= 0 || cap_secs > MAX_UNCAPPED_DELAY_SECS {
        MAX_UNCAPPED_DELAY_SECS as int
    } else {
        cap_secs
    }
}

/// The delay, in seconds, applied after a failure on the given attempt.
pub open spec fn spec_backoff_delay(attempt: int, cap_secs: int) -> int {
    if spec_uncapped_delay(attempt) < spec_effective_cap(cap_secs) {
        spec_uncapped_delay(attempt)
    } else {
        spec_effective_cap(cap_secs)
    }
}

proof fn lemma_pow2_pos(n: int)
    ensures
        pow2(n) >= 1,
    decreases n,
{
    if n > 0 {
        lemma_pow2_pos(n - 1);
    }
}

proof fn lemma_pow2_mono(n: int, m: int)
    requires
        n <= m,
    ensures
        pow2(n) <= pow2(m),
    decreases m - n,
{
    if n < m {
        lemma_pow2_mono(n, m - 1);
        lemma_pow2_pos(m - 1);
    }
}

proof fn lemma_pow2_bounds(n: int)
    requires
        n <= 10,
    ensures
        1 <= pow2(n) <= 1024,
{
    lemma_pow2_pos(n);
    lemma_pow2_mono(n, 10);
    assert(pow2(10) == 1024) by {
        reveal_with_fuel(pow2, 12);
    }
}

/// The uncapped delay lies between 5 and 5120 seconds.
pub proof fn lemma_uncapped_delay_bounds(attempt: int)
    ensures
        5 <= spec_uncapped_delay(attempt) <= 5120,
{
    lemma_pow2_bounds(if attempt < 10 { attempt } else { 10 });
}

/// Computes `spec_backoff_delay(attempt, cap_secs)` for a non-negative
/// attempt count. A non-positive `cap_secs` disables the extra ceiling,
/// leaving only the exponent cap, as the store's default-cap variant does.
pub fn backoff_delay_secs(attempt: i32, cap_secs: i64) -> (secs: i64)
    requires
        attempt >= 0,
    ensures
        secs == spec_backoff_delay(attempt as int, cap_secs as int),
        1 <= secs <= 5120,
{
    let e: i32 = if attempt < 10 {
        attempt
    } else {
        10
    };
    let mut d: i64 = 5;
    let mut k: i32 = 0;
    while k < e
        invariant
            0 <= k <= e <= 10,
            d == 5 * pow2(k as int),
            5 <= d <= 5120,
        decreases e - k,
    {
        proof {
            lemma_pow2_bounds(k + 1);
        }
        d = d * 2;
        k = k + 1;
    }
    assert(d == spec_uncapped_delay(attempt as int));
    let cap: i64 = if cap_secs <= 0 || cap_secs > MAX_UNCAPPED_DELAY_SECS {
        MAX_UNCAPPED_DELAY_SECS
    } else {
        cap_secs
    };
    if d < cap {
        d
    } else {
        cap
    }
}

/// Backoff monotonicity: with a fixed ceiling, each consecutive failure of a
/// task waits strictly longer than the one before, until the delay reaches
/// the ceiling, after which it stays at the ceiling.
pub proof fn lemma_backoff_monotone(attempt: int, cap_secs: int)
    requires
        attempt >= 0,
    ensures
        spec_backoff_delay(attempt, cap_secs) <= spec_backoff_delay(attempt + 1, cap_secs),
        spec_backoff_delay(attempt, cap_secs) < spec_effective_cap(cap_secs) ==> spec_backoff_delay(
            attempt,
            cap_secs,
        ) < spec_backoff_delay(attempt + 1, cap_secs),
        spec_backoff_delay(attempt, cap_secs) == spec_effective_cap(cap_secs)
            ==> spec_backoff_delay(attempt + 1, cap_secs) == spec_effective_cap(cap_secs),
{
    lemma_pow2_bounds(if attempt < 10 { attempt } else { 10 });
    lemma_pow2_bounds(if attempt + 1 < 10 { attempt + 1 } else { 10 });
    let u0 = spec_uncapped_delay(attempt);
    let u1 = spec_uncapped_delay(attempt + 1);
    let c = spec_effective_cap(cap_secs);
    if attempt < 10 {
        assert(pow2(attempt + 1) == 2 * pow2(attempt));
        assert(u1 == 2 * u0);
        assert(u0 < u1);
    } else {
        assert(u1 == u0);
        assert(u0 == 5 * pow2(10));
        assert(u0 == 5120) by {
            reveal_with_fuel(pow2, 12);
        }
        assert(c <= 5120);
        assert(spec_backoff_delay(attempt, cap_secs) == c);
    }
}

/// A task's next due time moves forward: the rescheduled time is strictly
/// after the failure time, by exactly the computed delay.
pub proof fn lemma_due_at_advances(now: int, attempt: int, cap_secs: int)
    requires
        attempt >= 0,
    ensures
        now + spec_backoff_delay(attempt, cap_secs) > now,
{
    lemma_uncapped_delay_bounds(attempt);
}

} // verus!
