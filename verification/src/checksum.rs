//! The 16-bit ones'-complement Internet checksum helper offered to
//! protocol implementations for error detection.

use vstd::prelude::*;

verus! {

/// The big-endian 16-bit word at even position `2 * i` of `data`; a
/// trailing lone byte is padded with a zero low byte.
pub open spec fn word_at(data: Seq<u8>, i: int) -> int {
    if 2 * i + 1 < data.len() {
        256 * (data[2 * i] as int) + (data[2 * i + 1] as int)
    } else {
        256 * (data[2 * i] as int)
    }
}

/// The 32-bit running sum of the first `n` big-endian words, wrapping as
/// a 32-bit accumulator does.
pub open spec fn word_sum(data: Seq<u8>, n: int) -> int
    decreases n,
{
    if n <= 0 {
        0
    } else {
        (word_sum(data, n - 1) + word_at(data, n - 1)) % 0x1_0000_0000
    }
}

/// How many 16-bit words `data` holds, the padded trailing byte included.
pub open spec fn word_count(data: Seq<u8>) -> int {
    (data.len() + 1) as int / 2
}

/// Fold a sum down to 16 bits by repeatedly adding the carry back in.
pub open spec fn fold_carries(sum: int) -> int
    decreases sum,
{
    if sum < 0 {
        0  // unreachable for the sums this library folds
    } else if sum < 0x10000 {
        sum
    } else {
        fold_carries(sum % 0x10000 + sum / 0x10000)
    }
}

/// The Internet checksum: the ones' complement of the folded word sum.
pub open spec fn checksum_spec(data: Seq<u8>) -> int {
    0xFFFF - fold_carries(word_sum(data, word_count(data)))
}

/// Folding always lands in 16 bits.
pub proof fn lemma_fold_carries_bound(sum: int)
    ensures
        0 <= fold_carries(sum) < 0x10000,
    decreases sum,
{
    if sum >= 0x10000 {
        assert(sum % 0x10000 + sum / 0x10000 < sum);
        lemma_fold_carries_bound(sum % 0x10000 + sum / 0x10000);
    }
}

/// The checksum is always a 16-bit value.
pub proof fn lemma_checksum_spec_bound(data: Seq<u8>)
    ensures
        0 <= checksum_spec(data) <= 0xFFFF,
{
    lemma_fold_carries_bound(word_sum(data, word_count(data)));
}

/// Each word is at most 0xFFFF.
proof fn lemma_word_at_bound(data: Seq<u8>, i: int)
    requires
        0 <= i,
        2 * i < data.len(),
    ensures
        0 <= word_at(data, i) <= 0xFFFF,
{
}

/// Simple 16-bit Internet checksum (ones' complement) utility, summing
/// the data as big-endian 16-bit words into a wrapping 32-bit accumulator
/// and folding the carries at the end.
pub fn internet_checksum(data: &[u8]) -> (r: u16)
    ensures
        r == checksum_spec(data@),
{
    let len = data.len();
    let mut sum: u32 = 0;
    let mut i: usize = 0;
    while i + 1 < len
        invariant
            len == data@.len(),
            i % 2 == 0,
            0 <= i <= len + 1,
            2 * (i as int / 2) == i,
            sum == word_sum(data@, i as int / 2),
        decreases len - i,
    {
        let word: u32 = 256 * (data[i] as u32) + (data[i + 1] as u32);
        proof {
            lemma_word_at_bound(data@, i as int / 2);
            assert(word == word_at(data@, i as int / 2));
        }
        let wide: u64 = sum as u64 + word as u64;
        sum = (wide % 0x1_0000_0000) as u32;
        i = i + 2;
    }
    if i < len {
        proof {
            lemma_word_at_bound(data@, i as int / 2);
            assert(word_at(data@, i as int / 2) == 256 * (data@[i as int] as int));
        }
        let wide: u64 = sum as u64 + 256 * (data[i] as u64);
        sum = (wide % 0x1_0000_0000) as u32;
        proof {
            assert(sum == word_sum(data@, i as int / 2 + 1));
            assert(word_count(data@) == i as int / 2 + 1);
        }
    } else {
        proof {
            assert(word_count(data@) == i as int / 2);
        }
    }
    proof {
        assert(sum == word_sum(data@, word_count(data@)));
    }
    while sum >= 0x10000
        invariant
            fold_carries(sum as int) == fold_carries(word_sum(data@, word_count(data@))),
        decreases sum,
    {
        proof {
            assert(sum % 0x10000 + sum / 0x10000 < sum as int);
        }
        sum = sum % 0x10000 + sum / 0x10000;
    }
    let r: u16 = (0xFFFFu32 - sum) as u16;
    proof {
        assert(fold_carries(sum as int) == sum as int);
        assert(r == checksum_spec(data@));
    }
    r
}

} // verus!
