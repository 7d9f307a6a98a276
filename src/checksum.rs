//! The 16-bit ones'-complement checksum of IPv4 and TCP headers.
use vstd::prelude::*;

verus! {

/// The `k`-th big-endian 16-bit word of `b`; an odd last byte is padded with zero.
pub open spec fn word16(b: Seq<u8>, k: int) -> int {
    b[2 * k] as int * 256 + if 2 * k + 1 < b.len() {
        b[2 * k + 1] as int
    } else {
        0
    }
}

/// The plain sum of the first `n` words of `b`.
pub open spec fn sum_words(b: Seq<u8>, n: nat) -> int
    decreases n,
{
    if n == 0 {
        0
    } else {
        sum_words(b, (n - 1) as nat) + word16(b, n - 1)
    }
}

/// Number of 16-bit words covering `b`.
pub open spec fn word_count(b: Seq<u8>) -> nat {
    ((b.len() + 1) / 2) as nat
}

/// Folding a sum with end-around carry: zero stays zero, any other sum
/// becomes the value in `1..=0xffff` congruent to it modulo `0xffff`.
pub open spec fn ones_fold(s: int) -> int {
    if s == 0 {
        0
    } else {
        (s - 1) % 0xffff + 1
    }
}

/// The ones'-complement checksum of `b` (RFC 1071).
pub open spec fn internet_checksum(b: Seq<u8>) -> u16 {
    (0xffff - ones_fold(sum_words(b, word_count(b)))) as u16
}

/// `b`, with its checksum field in place, sums to all ones.
pub open spec fn checksum_valid(b: Seq<u8>) -> bool {
    ones_fold(sum_words(b, word_count(b))) == 0xffff
}

/// Relies on etherparse's `checksum::Sum16BitWords`: `add_slice` adds the
/// slice as 16-bit words (an odd last byte padded with zero) with end-around
/// carry, and `ones_complement` folds the sum and complements it; `to_be`
/// turns the native-endian result into the big-endian value.
#[verifier::external_body]
pub(crate) fn ones_complement_checksum(b: &[u8]) -> (r: u16)
    ensures
        r == internet_checksum(b@),
{
    etherparse::checksum::Sum16BitWords::new().add_slice(b).ones_complement().to_be()
}

proof fn lemma_sum_words_nonneg(b: Seq<u8>, n: nat)
    requires
        2 * n <= b.len() + 1,
    ensures
        sum_words(b, n) >= 0,
    decreases n,
{
    if n > 0 {
        lemma_sum_words_nonneg(b, (n - 1) as nat);
    }
}

/// Two sequences that differ only in word `k` have sums that differ by the
/// difference of that word.
pub proof fn lemma_sum_words_one_word(b1: Seq<u8>, b2: Seq<u8>, k: int, n: nat)
    requires
        b1.len() == b2.len(),
        0 <= k < n,
        2 * n <= b1.len() + 1,
        forall|i: int| 0 <= i < b1.len() && i != 2 * k && i != 2 * k + 1 ==> b1[i] == b2[i],
    ensures
        sum_words(b2, n) == sum_words(b1, n) + word16(b2, k) - word16(b1, k),
    decreases n,
{
    if n - 1 == k {
        lemma_sum_words_same(b1, b2, k, (n - 1) as nat);
    } else {
        lemma_sum_words_one_word(b1, b2, k, (n - 1) as nat);
        assert(word16(b1, n - 1) == word16(b2, n - 1));
    }
}

proof fn lemma_sum_words_same(b1: Seq<u8>, b2: Seq<u8>, k: int, n: nat)
    requires
        b1.len() == b2.len(),
        n <= k,
        2 * n <= b1.len() + 1,
        forall|i: int| 0 <= i < b1.len() && i != 2 * k && i != 2 * k + 1 ==> b1[i] == b2[i],
    ensures
        sum_words(b2, n) == sum_words(b1, n),
    decreases n,
{
    if n > 0 {
        lemma_sum_words_same(b1, b2, k, (n - 1) as nat);
        assert(word16(b1, n - 1) == word16(b2, n - 1));
    }
}

/// Adding the complement of a folded sum gives a sum that folds to all ones.
pub proof fn lemma_fold_complement(s: int)
    requires
        s >= 0,
    ensures
        ones_fold(s + (0xffff - ones_fold(s))) == 0xffff,
{
    if s > 0 {
        let q = (s - 1) / 0xffff;
        let r = (s - 1) % 0xffff;
        assert(s - 1 == q * 0xffff + r && 0 <= r < 0xffff) by (nonlinear_arith)
            requires
                s >= 1,
                q == (s - 1) / 0xffff,
                r == (s - 1) % 0xffff,
        ;
        let t = s + (0xffff - (r + 1)) - 1;
        assert(t == q * 0xffff + 0xfffe);
        assert(t % 0xffff == 0xfffe) by (nonlinear_arith)
            requires
                t == q * 0xffff + 0xfffe,
                q >= 0,
        ;
    }
}

/// A sequence whose 16-bit word `k` (an aligned, in-range word) holds the
/// checksum of the same sequence with that word zeroed sums to all ones.
pub proof fn lemma_checksum_fills_word(zeroed: Seq<u8>, filled: Seq<u8>, k: int)
    requires
        zeroed.len() == filled.len(),
        0 <= k && 2 * k + 1 < zeroed.len(),
        zeroed[2 * k] == 0 && zeroed[2 * k + 1] == 0,
        filled[2 * k] as int * 256 + filled[2 * k + 1] as int == internet_checksum(zeroed) as int,
        forall|i: int|
            0 <= i < zeroed.len() && i != 2 * k && i != 2 * k + 1 ==> zeroed[i] == filled[i],
    ensures
        checksum_valid(filled),
{
    let n = word_count(zeroed);
    lemma_sum_words_one_word(zeroed, filled, k, n);
    lemma_sum_words_nonneg(zeroed, n);
    let s = sum_words(zeroed, n);
    assert(0 <= ones_fold(s) <= 0xffff) by (nonlinear_arith)
        requires
            s >= 0,
            ones_fold(s) == if s == 0 { 0 } else { (s - 1) % 0xffff + 1 },
    ;
    lemma_fold_complement(s);
}

} // verus!
