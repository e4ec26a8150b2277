//! Byte-based token estimates: one token per four bytes, rounded up.
use vstd::prelude::*;

verus! {

/// Number of bytes that count as one token in the byte-based estimate.
pub const APPROX_BYTES_PER_TOKEN: usize = 4;

/// Byte-based token estimate for a text of `n` bytes: `n / 4` rounded up,
/// where the rounding addition saturates at `usize::MAX`.
pub open spec fn approx_tokens_for_bytes(n: nat) -> nat {
    let padded = if n + 3 <= usize::MAX { n + 3 } else { usize::MAX as nat };
    padded / 4
}

/// Below the saturation point the estimate is the byte count divided by four,
/// rounded up: four tokens per estimate cover the bytes, with fewer than four
/// to spare.
pub proof fn token_estimate_rounds_up(n: nat)
    requires
        n + 3 <= usize::MAX,
    ensures
        4 * approx_tokens_for_bytes(n) >= n,
        4 * approx_tokens_for_bytes(n) < n + 4,
        approx_tokens_for_bytes(n) <= approx_tokens_for_bytes(n + 1),
{
}

/// Approximates the number of tokens of a text from its UTF-8 byte length.
pub fn approx_token_count(text: &str) -> (tokens: usize)
    ensures
        tokens == approx_tokens_for_bytes(text.len() as nat),
{
    let len = text.len();
    let padded = len.saturating_add(APPROX_BYTES_PER_TOKEN - 1);
    assert(padded == if len + 3 <= usize::MAX { len + 3 } else { usize::MAX as int });
    padded / APPROX_BYTES_PER_TOKEN
}

/// Byte-based token estimate computed in `u64`, as for a serialized JSON value
/// of `n` bytes: `n / 4` rounded up, the addition saturating at `u64::MAX`.
pub open spec fn approx_tokens_for_byte_count(n: nat) -> nat {
    let padded = if n + 3 <= u64::MAX { n + 3 } else { u64::MAX as nat };
    padded / 4
}

/// Approximates a token count from a byte count.
pub fn approx_tokens_from_byte_count(bytes: usize) -> (tokens: u64)
    ensures
        tokens == approx_tokens_for_byte_count(bytes as nat),
{
    let b = bytes as u64;
    let padded = b.saturating_add(3);
    assert(padded == if b + 3 <= u64::MAX { b + 3 } else { u64::MAX as int });
    padded / 4
}

} // verus!
