//! How long to wait between requests: random pauses drawn with the `rand`
//! crate, and the growing backoff after failed attempts.

use vstd::arithmetic::power2::{lemma2_to64, lemma_pow2_strictly_increases, pow2};
use vstd::prelude::*;

verus! {

/// `rand::random_range` over `lo..=hi`, with the thread-local generator.
#[verifier::external_body]
pub(crate) fn random_between(lo: u64, hi: u64) -> (r: u64)
    requires
        lo <= hi,
    ensures
        lo <= r <= hi,
{
    rand::random_range(lo..=hi)
}

/// A random number of milliseconds in `min..=max`.
pub fn random_delay_ms(min: u64, max: u64) -> (r: u64)
    requires
        min <= max,
    ensures
        min <= r <= max,
{
    random_between(min, max)
}

/// The bounds of the long cooldown before every fiftieth chapter.
pub const LONG_COOLDOWN_MIN_MS: u64 = 100000;
pub const LONG_COOLDOWN_MAX_MS: u64 = 250000;

/// The bounds of the pause after each saved chapter.
pub const PAUSE_MIN_MS: u64 = 2500;
pub const PAUSE_MAX_MS: u64 = 7000;

/// The bounds of the wait before each chapter visit of the browser scraper.
pub const VISIT_DELAY_MIN_MS: u64 = 2000;
pub const VISIT_DELAY_MAX_MS: u64 = 4999;

/// The longest backoff after a failed attempt, in seconds.
pub const MAX_BACKOFF_SECS: u64 = 300;

/// The most failed attempts of one chapter whose backoff can be computed.
pub const MAX_RETRIES: u32 = 59;

/// The backoff after the `retries`-th failed attempt of a chapter:
/// `30 * 2^retries` seconds, at most 300 seconds, in milliseconds.
pub open spec fn retry_backoff_ms(retries: nat) -> int {
    let secs: int = 30 * (pow2(retries) as int);
    (if secs < MAX_BACKOFF_SECS {
        secs
    } else {
        MAX_BACKOFF_SECS as int
    }) * 1000
}

/// The backoff after the `retries`-th failed attempt of a chapter.
pub fn retry_cooldown_ms(retries: u32) -> (r: u64)
    requires
        retries <= MAX_RETRIES,
    ensures
        r == retry_backoff_ms(retries as nat),
{
    let mut p: u64 = 1;
    let mut k: u32 = 0;
    proof {
        lemma2_to64();
    }
    while k < retries
        invariant
            k <= retries <= MAX_RETRIES,
            p == pow2(k as nat),
        decreases retries - k,
    {
        proof {
            lemma2_to64();
            vstd::arithmetic::power2::lemma2_to64_rest();
            vstd::arithmetic::power2::lemma_pow2_adds(k as nat, 1);
            if k + 1 < 59 {
                lemma_pow2_strictly_increases((k + 1) as nat, 59);
            }
        }
        p = p * 2;
        k += 1;
    }
    proof {
        if retries < 59 {
            lemma_pow2_strictly_increases(retries as nat, 59);
        }
        assert(pow2(59) == 0x800_0000_0000_0000) by {
            vstd::arithmetic::power2::lemma2_to64_rest();
        }
    }
    let secs = 30 * p;
    let capped = if secs < MAX_BACKOFF_SECS {
        secs
    } else {
        MAX_BACKOFF_SECS
    };
    capped * 1000
}


/// The backoff never exceeds five minutes, is at least a minute after any
/// failure, grows with the number of failures, and is five minutes from the
/// fourth failure on.
pub proof fn lemma_backoff_bounds(a: nat, b: nat)
    requires
        a <= b,
    ensures
        retry_backoff_ms(a) <= MAX_BACKOFF_SECS * 1000,
        a >= 1 ==> retry_backoff_ms(a) >= 60000,
        retry_backoff_ms(a) <= retry_backoff_ms(b),
        a >= 4 ==> retry_backoff_ms(a) == MAX_BACKOFF_SECS * 1000,
{
    lemma2_to64();
    if a < b {
        lemma_pow2_strictly_increases(a, b);
    }
    if a >= 1 {
        if a > 1 {
            lemma_pow2_strictly_increases(1, a);
        }
    }
    if a >= 4 {
        if a > 4 {
            lemma_pow2_strictly_increases(4, a);
        }
    }
}

} // verus!
