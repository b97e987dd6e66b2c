//! Leading-zero-bit counting over byte digests, and the SHA-256 digest of a
//! serialized record.

use vstd::prelude::*;
use sha2::Digest;

verus! {

/// Number of leading zero bits of a single byte.
pub open spec fn byte_leading_zeros(b: u8) -> nat {
    if b >= 0x80 {
        0
    } else if b >= 0x40 {
        1
    } else if b >= 0x20 {
        2
    } else if b >= 0x10 {
        3
    } else if b >= 0x08 {
        4
    } else if b >= 0x04 {
        5
    } else if b >= 0x02 {
        6
    } else if b >= 0x01 {
        7
    } else {
        8
    }
}

/// Length of the leading run of zero bits of a byte sequence: every leading
/// zero byte contributes 8 bits, and the first non-zero byte contributes its
/// own leading zeros and ends the count.
pub open spec fn leading_zero_bits(s: Seq<u8>) -> nat
    decreases s.len(),
{
    if s.len() == 0 {
        0
    } else if s[0] == 0 {
        (8 + leading_zero_bits(s.drop_first())) as nat
    } else {
        byte_leading_zeros(s[0])
    }
}

/// The count never exceeds eight bits per byte.
pub proof fn lemma_leading_zero_bits_le(s: Seq<u8>)
    ensures
        leading_zero_bits(s) <= 8 * s.len(),
    decreases s.len(),
{
    if s.len() > 0 && s[0] == 0 {
        lemma_leading_zero_bits_le(s.drop_first());
    }
}

/// An all-zero digest of length L has exactly 8*L leading zero bits.
pub proof fn lemma_leading_zero_bits_all_zero(s: Seq<u8>)
    requires
        forall|i: int| 0 <= i < s.len() ==> s[i] == 0,
    ensures
        leading_zero_bits(s) == 8 * s.len(),
    decreases s.len(),
{
    if s.len() > 0 {
        lemma_leading_zero_bits_all_zero(s.drop_first());
    }
}

/// A digest whose first byte has its top bit set has no leading zero bits.
pub proof fn lemma_leading_zero_bits_top_bit(s: Seq<u8>)
    requires
        s.len() > 0,
        s[0] >= 0x80,
    ensures
        leading_zero_bits(s) == 0,
{
}

/// Splitting off a leading run of zero bytes: the count is 8 bits per zero
/// byte plus the count of the remainder.
proof fn lemma_leading_zero_bits_skip(s: Seq<u8>, i: int)
    requires
        0 <= i <= s.len(),
        forall|j: int| 0 <= j < i ==> s[j] == 0,
    ensures
        leading_zero_bits(s) == 8 * i + leading_zero_bits(s.skip(i)),
    decreases i,
{
    if i == 0 {
        assert(s.skip(0) =~= s);
    } else {
        assert(s[0] == 0);
        lemma_leading_zero_bits_skip(s.drop_first(), i - 1);
        assert(s.drop_first().skip(i - 1) =~= s.skip(i));
    }
}

/// Leading zero bits of one byte.
fn byte_lz(b: u8) -> (r: u32)
    ensures
        r as nat == byte_leading_zeros(b),
{
    if b >= 0x80 {
        0
    } else if b >= 0x40 {
        1
    } else if b >= 0x20 {
        2
    } else if b >= 0x10 {
        3
    } else if b >= 0x08 {
        4
    } else if b >= 0x04 {
        5
    } else if b >= 0x02 {
        6
    } else if b >= 0x01 {
        7
    } else {
        8
    }
}

/// Counts the leading contiguous run of zero bits from the start of the
/// digest; bytes after the first non-zero byte are not inspected.
pub fn count_leading_zeroes(hash: &[u8]) -> (count: u32)
    requires
        8 * hash@.len() <= u32::MAX,
    ensures
        count as nat == leading_zero_bits(hash@),
        count <= 8 * hash@.len(),
{
    proof {
        lemma_leading_zero_bits_le(hash@);
    }
    let mut count: u32 = 0;
    let mut i: usize = 0;
    loop
        invariant
            0 <= i <= hash@.len(),
            8 * hash@.len() <= u32::MAX,
            forall|j: int| 0 <= j < i ==> hash@[j] == 0,
            count as nat == 8 * i,
        decreases hash@.len() - i,
    {
        if i == hash.len() {
            proof {
                lemma_leading_zero_bits_skip(hash@, i as int);
                assert(hash@.skip(i as int) =~= Seq::<u8>::empty());
            }
            return count;
        }
        let zeros = byte_lz(hash[i]);
        if zeros < 8 {
            proof {
                lemma_leading_zero_bits_skip(hash@, i as int);
                assert(hash@.skip(i as int)[0] == hash@[i as int]);
            }
            return count + zeros;
        }
        count = count + 8;
        i = i + 1;
    }
}

/// The SHA-256 digest of a character sequence hashed in its UTF-8 encoding.
/// The digest is a pure function of the characters alone.
pub uninterp spec fn sha256_of(text: Seq<char>) -> Seq<u8>;

/// Relies on sha2::Sha256::digest: returns the 32-byte SHA-256 digest of the
/// input bytes, a deterministic function of the input alone; the input here is
/// the UTF-8 encoding of the given characters.
#[verifier::external_body]
pub(crate) fn sha256_digest(text: &Vec<char>) -> (r: Vec<u8>)
    ensures
        r@ == sha256_of(text@),
        r@.len() == 32,
{
    let s: String = text.iter().collect();
    sha2::Sha256::digest(s.as_bytes()).to_vec()
}

} // verus!
