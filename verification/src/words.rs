//! The two 32-bit words of a 64-bit counter value, and their composition.

use vstd::prelude::*;

verus! {

/// The high 32-bit word of a 64-bit counter value.
pub open spec fn high_word(c: u64) -> u32 {
    (c >> 32) as u32
}

/// The low 32-bit word of a 64-bit counter value.
pub open spec fn low_word(c: u64) -> u32 {
    (c & 0xffff_ffff) as u32
}

/// The 64-bit value whose high word is `hi` and whose low word is `lo`.
pub open spec fn word_pair(hi: u32, lo: u32) -> u64 {
    ((hi as u64) << 32) | (lo as u64)
}

/// Composes a 64-bit counter value from its two 32-bit register words.
pub fn compose(hi: u32, lo: u32) -> (c: u64)
    ensures
        c == word_pair(hi, lo),
        high_word(c) == hi,
        low_word(c) == lo,
{
    let c = ((hi as u64) << 32) | (lo as u64);
    proof {
        lemma_words_of_pair(hi, lo);
    }
    c
}

/// Splitting a value into its words and composing them again gives the
/// value back.
pub proof fn lemma_split(c: u64)
    ensures
        word_pair(high_word(c), low_word(c)) == c,
{
    assert(((((c >> 32) as u32) as u64) << 32) | (((c & 0xffff_ffff) as u32) as u64) == c)
        by (bit_vector);
}

/// The words of a composed pair are the words it was composed from.
pub proof fn lemma_words_of_pair(hi: u32, lo: u32)
    ensures
        high_word(word_pair(hi, lo)) == hi,
        low_word(word_pair(hi, lo)) == lo,
{
    assert(((((hi as u64) << 32) | (lo as u64)) >> 32) as u32 == hi) by (bit_vector);
    assert(((((hi as u64) << 32) | (lo as u64)) & 0xffff_ffff) as u32 == lo) by (bit_vector);
}

/// The high word never decreases as the value grows.
pub proof fn lemma_high_word_monotone(a: u64, b: u64)
    requires
        a <= b,
    ensures
        high_word(a) <= high_word(b),
{
    assert(a <= b ==> (a >> 32) as u32 <= (b >> 32) as u32) by (bit_vector);
}

/// A value between two values that share a high word shares it too.
pub proof fn lemma_same_high_between(a: u64, b: u64, c: u64)
    requires
        a <= b <= c,
        high_word(a) == high_word(c),
    ensures
        high_word(b) == high_word(a),
{
    lemma_high_word_monotone(a, b);
    lemma_high_word_monotone(b, c);
}

/// A value between one value and the last value sharing that value's
/// high word shares the high word too.
pub proof fn lemma_below_pair_top(a: u64, b: u64)
    requires
        a <= b <= word_pair(high_word(a), 0xffff_ffffu32),
    ensures
        high_word(b) == high_word(a),
{
    lemma_words_of_pair(high_word(a), 0xffff_ffffu32);
    lemma_same_high_between(a, b, word_pair(high_word(a), 0xffff_ffffu32));
}

/// Pairing a value's own high word with the low word of another value
/// under the same high word recovers that other value.
pub proof fn lemma_pair_same_high(a: u64, b: u64)
    requires
        high_word(a) == high_word(b),
    ensures
        word_pair(high_word(a), low_word(b)) == b,
{
    lemma_split(b);
}

} // verus!
