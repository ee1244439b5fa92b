//! The rolling hash that turns a byte sequence into a 32-bit value.

use vstd::prelude::*;
use vstd::wrapping::u32_specs::{wrapping_mul, wrapping_sub};

verus! {

/// The accumulator before any byte has been read.
pub const SEED: u32 = 656_379_989;

/// The multiplier of the closing step.
pub const FINISH: u32 = 205_676_507;

/// `x` with its 32 bits rotated left by five places.
pub open spec fn rotate_left_5(x: u32) -> u32 {
    (x << 5u32) | (x >> 27u32)
}

/// The two's-complement negation of `x`.
pub open spec fn negate(x: u32) -> u32 {
    wrapping_sub(0u32, x)
}

/// One step of the hash: the accumulator after `byte` has been read, where
/// `previous` is the byte read just before it (0 for the first byte).
pub open spec fn absorb(acc: u32, byte: u8, previous: u8) -> u32 {
    let multiplied = wrapping_mul(acc, byte as u32);
    let mixed = multiplied ^ negate(rotate_left_5(byte as u32));
    wrapping_sub(mixed, previous as u32)
}

/// The last byte of `bytes`, or 0 where there is none.
pub open spec fn previous_byte(bytes: Seq<u8>) -> u8 {
    if bytes.len() == 0 {
        0u8
    } else {
        bytes.last()
    }
}

/// The accumulator after all of `bytes` have been read in order.
pub open spec fn accumulate(bytes: Seq<u8>) -> u32
    decreases bytes.len(),
{
    if bytes.len() == 0 {
        SEED
    } else {
        absorb(accumulate(bytes.drop_last()), bytes.last(), previous_byte(bytes.drop_last()))
    }
}

/// The hash of a byte sequence.
pub open spec fn hash_spec(bytes: Seq<u8>) -> u32 {
    wrapping_mul(accumulate(bytes), FINISH)
}

/// The hash is a function of the bytes: equal byte sequences hash alike,
/// whenever and wherever they are hashed.
pub proof fn hash_is_stable(first: Seq<u8>, second: Seq<u8>)
    requires
        first == second,
    ensures
        hash_spec(first) == hash_spec(second),
{
}

/// The empty input hashes to the product of the two constants, cut to 32
/// bits.
pub proof fn hash_of_nothing()
    ensures
        hash_spec(Seq::<u8>::empty()) == wrapping_mul(SEED, FINISH),
        hash_spec(Seq::<u8>::empty()) == 1_618_609_079u32,
{
    assert(accumulate(Seq::<u8>::empty()) == SEED);
    assert((656_379_989nat * 205_676_507nat) % 0x1_0000_0000nat == 1_618_609_079nat) by (nonlinear_arith);
}

/// Hashes `text`. The result depends on the bytes alone, so equal inputs
/// always hash alike; the empty input hashes to `SEED * FINISH` modulo 2^32.
pub fn hash(text: &[u8]) -> (digest: u32)
    ensures
        digest == hash_spec(text@),
{
    let mut acc: u32 = SEED;
    let mut last_byte: u8 = 0;
    let mut i: usize = 0;
    while i < text.len()
        invariant
            i <= text.len(),
            acc == accumulate(text@.take(i as int)),
            last_byte == previous_byte(text@.take(i as int)),
        decreases text.len() - i,
    {
        let byte: u8 = text[i];
        let word: u32 = byte as u32;
        proof {
            let before = text@.take(i as int);
            let after = text@.take(i + 1);
            assert(after.drop_last() == before);
            assert(after.last() == byte);
        }
        acc = acc.wrapping_mul(word);
        acc = acc ^ 0u32.wrapping_sub((word << 5u32) | (word >> 27u32));
        acc = acc.wrapping_sub(last_byte as u32);
        last_byte = byte;
        i = i + 1;
    }
    assert(text@.take(i as int) == text@);
    acc.wrapping_mul(FINISH)
}

} // verus!
