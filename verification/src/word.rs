//! Arithmetic on 32-bit words that the machine's instructions need.

use vstd::prelude::*;

verus! {

/// The position of the highest bit that is set: the logarithm to base 2, rounded down.
pub open spec fn log_2_floor(n: nat) -> nat
    decreases n,
{
    if n <= 1 {
        0
    } else {
        1 + log_2_floor(n / 2)
    }
}

/// The number of bits that are set.
pub open spec fn bit_count(n: nat) -> nat
    decreases n,
{
    if n == 0 {
        0
    } else {
        n % 2 + bit_count(n / 2)
    }
}

/// A logarithm is smaller than its argument, and there are no more bits set in a number than
/// the number counts.
pub proof fn lemma_word_bounds(n: nat)
    ensures
        n >= 1 ==> log_2_floor(n) < n,
        bit_count(n) <= n,
    decreases n,
{
    if n >= 1 {
        lemma_word_bounds(n / 2);
    }
}

/// The logarithm to base 2 of a word other than zero, rounded down.
pub fn word_log_2_floor(word: u32) -> (r: u32)
    requires
        word > 0,
    ensures
        r == log_2_floor(word as nat),
{
    let mut rest: u32 = word;
    let mut count: u32 = 0;
    proof {
        lemma_word_bounds(word as nat);
    }
    while rest > 1
        invariant
            rest >= 1,
            count + log_2_floor(rest as nat) == log_2_floor(word as nat),
            log_2_floor(word as nat) < word,
        decreases rest,
    {
        rest = rest / 2;
        count = count + 1;
    }
    count
}

/// The number of bits that are set in a word.
pub fn word_bit_count(word: u32) -> (r: u32)
    ensures
        r == bit_count(word as nat),
{
    let mut rest: u32 = word;
    let mut count: u32 = 0;
    proof {
        lemma_word_bounds(word as nat);
    }
    while rest > 0
        invariant
            count + bit_count(rest as nat) == bit_count(word as nat),
            bit_count(word as nat) <= word,
        decreases rest,
    {
        count = count + rest % 2;
        rest = rest / 2;
    }
    count
}

} // verus!
