//! The proof-of-work search engine: canonicalize once, locate the fixed
//! placeholder window, then splice candidate values in by position and stop
//! at the first digest that meets the target difficulty.

use vstd::prelude::*;
use vstd::string::StringExecFns;
use crate::canon::{
    canon_of, canonicalize, extend_chars, find_substring, is_first_occurrence, nonce_marker,
    nonce_pattern, nonce_placeholder, pattern_value_offset, push_str_chars,
    lemma_pattern_in_canon,
};
use crate::digest::{count_leading_zeroes, leading_zero_bits, sha256_digest, sha256_of};
use crate::event::{EventView, PowError, PowRequest, PowResponse};
use crate::hexfmt::{hex16_of, hex_chars, hex_string};

verus! {

/// The record as it stands when it is canonicalized: the client's tags with
/// the nonce tag appended last, all other fields untouched.
pub open spec fn prepared(v: EventView) -> EventView {
    EventView { tags: v.tags.push(seq![nonce_marker(), nonce_placeholder()]), ..v }
}

/// The serialized text with candidate `n` spliced into the placeholder
/// window at `off`.
pub open spec fn attempt_text(canon: Seq<char>, off: int, n: u64) -> Seq<char> {
    canon.subrange(0, off) + hex16_of(n) + canon.subrange(off + 16, canon.len() as int)
}

/// The difficulty achieved by candidate `n`: leading zero bits of the
/// digest of the spliced serialization.
pub open spec fn attempt_difficulty(canon: Seq<char>, off: int, n: u64) -> nat {
    leading_zero_bits(sha256_of(attempt_text(canon, off, n)))
}

/// The prepared record with the winning candidate written back into the
/// nonce tag's value field.
pub open spec fn with_nonce_value(v: EventView, n: u64) -> EventView {
    EventView {
        tags: v.tags.update(v.tags.len() - 1, seq![nonce_marker(), hex16_of(n)]),
        ..v
    }
}

/// At most one position is the first occurrence of a pattern.
pub proof fn lemma_first_occurrence_unique(text: Seq<char>, pat: Seq<char>, i: int, j: int)
    requires
        is_first_occurrence(text, pat, i),
        is_first_occurrence(text, pat, j),
    ensures
        i == j,
{
}

/// Copies the window `[from, to)` of `v` into a fresh vector.
fn subvec(v: &Vec<char>, from: usize, to: usize) -> (r: Vec<char>)
    requires
        from <= to <= v@.len(),
    ensures
        r@ == v@.subrange(from as int, to as int),
{
    let mut r: Vec<char> = Vec::new();
    let mut i: usize = from;
    while i < to
        invariant
            from <= i <= to <= v@.len(),
            r@ == v@.subrange(from as int, i as int),
        decreases to - i,
    {
        r.push(v[i]);
        proof {
            assert(v@.subrange(from as int, i as int).push(v@[i as int]) =~= v@.subrange(
                from as int,
                i + 1,
            ));
        }
        i = i + 1;
    }
    r
}

/// Enumerates candidates `0, 1, 2, ...` strictly below `bound`, splices each
/// one's fixed-width hexadecimal form between `prefix` and `suffix`, and
/// returns the first candidate whose digest meets the target, with the
/// difficulty it achieved; fails with `SearchExhausted` when no candidate
/// below `bound` meets the target.
pub fn search_nonce(prefix: &Vec<char>, suffix: &Vec<char>, target: u32, bound: u64) -> (r: Result<
    (u64, u32),
    PowError,
>)
    ensures
        match r {
            Ok(p) => {
                &&& p.0 < bound
                &&& p.1 as nat == leading_zero_bits(
                    sha256_of(prefix@ + hex16_of(p.0) + suffix@),
                )
                &&& p.1 >= target
                &&& forall|m: u64|
                    m < p.0 ==> leading_zero_bits(sha256_of(prefix@ + hex16_of(m) + suffix@))
                        < target
            },
            Err(e) => {
                &&& e == PowError::SearchExhausted
                &&& forall|m: u64|
                    m < bound ==> leading_zero_bits(sha256_of(prefix@ + hex16_of(m) + suffix@))
                        < target
            },
        },
        target == 0 && bound > 0 ==> (r matches Ok(p) && p.0 == 0),
{
    let mut n: u64 = 0;
    loop
        invariant
            n <= bound,
            forall|m: u64|
                m < n ==> leading_zero_bits(sha256_of(prefix@ + hex16_of(m) + suffix@)) < target,
        decreases bound - n,
    {
        if n == bound {
            proof {
                if target == 0 && bound > 0 {
                    assert(leading_zero_bits(sha256_of(prefix@ + hex16_of(0u64) + suffix@))
                        < 0);
                }
            }
            return Err(PowError::SearchExhausted);
        }
        let hex = hex_chars(n, 16);
        let mut attempt: Vec<char> = Vec::new();
        extend_chars(&mut attempt, prefix);
        extend_chars(&mut attempt, &hex);
        extend_chars(&mut attempt, suffix);
        proof {
            assert(attempt@ =~= prefix@ + hex16_of(n) + suffix@);
        }
        let digest = sha256_digest(&attempt);
        let pow = count_leading_zeroes(digest.as_slice());
        if pow >= target {
            proof {
                if target == 0 && n > 0 {
                    assert(leading_zero_bits(sha256_of(prefix@ + hex16_of(0u64) + suffix@))
                        < 0);
                }
            }
            return Ok((n, pow));
        }
        n = n + 1;
    }
}

/// Performs one whole proof-of-work request: appends the nonce tag, produces
/// the canonical serialization, locates the placeholder window by searching
/// for the marker/placeholder pattern, searches for a winning candidate, and
/// writes the winning value back into the record's nonce tag.
pub fn perform_pow(request: PowRequest) -> (r: Result<PowResponse, PowError>)
    ensures
        exists|i: int|
            is_first_occurrence(canon_of(prepared(request.event@)), nonce_pattern(), i),
        ({
            let canon = canon_of(prepared(request.event@));
            let off = (choose|i: int| is_first_occurrence(canon, nonce_pattern(), i))
                + pattern_value_offset();
            &&& (r matches Err(e) ==> e == PowError::SearchExhausted && forall|m: u64|
                m < u64::MAX ==> attempt_difficulty(canon, off, m) < request.target_pow)
            &&& (r matches Ok(resp) ==> exists|n: u64|
                {
                    &&& n < u64::MAX
                    &&& resp.pow as nat == attempt_difficulty(canon, off, n)
                    &&& resp.pow >= request.target_pow
                    &&& (forall|m: u64|
                        m < n ==> attempt_difficulty(canon, off, m) < request.target_pow)
                    &&& resp.event@ == with_nonce_value(prepared(request.event@), n)
                })
            &&& (request.target_pow == 0 ==> r is Ok)
        }),
{
    let ghost orig = request.event@;
    let mut event = request.event;
    let target = request.target_pow;

    let mut tag: Vec<String> = Vec::new();
    tag.push(String::from_str("nonce"));
    tag.push(String::from_str("0000000000000000"));
    proof {
        assert(tag.deep_view() =~= seq![nonce_marker(), nonce_placeholder()]);
    }
    let ghost tag_view = tag.deep_view();
    event.tags.push(tag);
    proof {
        assert(event.tags.deep_view() =~= orig.tags.push(tag_view));
        assert(event@ == prepared(orig));
    }

    let serialized = canonicalize(&event);
    let mut pattern: Vec<char> = Vec::new();
    push_str_chars(&mut pattern, "\"nonce\",\"0000000000000000\"");
    proof {
        assert(pattern@ == nonce_pattern());
        lemma_pattern_in_canon(event@);
    }
    let pos = match find_substring(&serialized, &pattern) {
        Some(pos) => pos,
        None => {
            proof {
                assert(false);
            }
            return Err(PowError::FieldNotFound);
        },
    };
    proof {
        lemma_first_occurrence_unique(
            serialized@,
            nonce_pattern(),
            pos as int,
            choose|i: int| is_first_occurrence(canon_of(prepared(orig)), nonce_pattern(), i),
        );
        reveal_strlit("\"nonce\",\"0000000000000000\"");
    }
    let ser_len = serialized.len();
    proof {
        assert(pos + 26 <= ser_len);
    }
    let value_pos = pos + 9;
    let prefix = subvec(&serialized, 0, value_pos);
    let suffix = subvec(&serialized, value_pos + 16, ser_len);

    match search_nonce(&prefix, &suffix, target, u64::MAX) {
        Err(e) => {
            proof {
                assert(forall|m: u64|
                    m < u64::MAX ==> attempt_text(canon_of(prepared(orig)), pos + 9, m)
                        =~= prefix@ + hex16_of(m) + suffix@);
            }
            Err(e)
        },
        Ok((n, pow)) => {
            proof {
                assert(attempt_text(canon_of(prepared(orig)), pos + 9, n) =~= prefix@ + hex16_of(
                    n,
                ) + suffix@);
                assert(forall|m: u64|
                    m < n ==> attempt_text(canon_of(prepared(orig)), pos + 9, m) =~= prefix@
                        + hex16_of(m) + suffix@);
            }
            let _ = event.tags.pop();
            let mut winner: Vec<String> = Vec::new();
            winner.push(String::from_str("nonce"));
            winner.push(hex_string(n, 16));
            proof {
                assert(winner.deep_view() =~= seq![nonce_marker(), hex16_of(n)]);
            }
            let ghost winner_view = winner.deep_view();
            event.tags.push(winner);
            proof {
                assert(event.tags.deep_view() =~= prepared(orig).tags.update(
                    prepared(orig).tags.len() - 1,
                    winner_view,
                ));
                assert(event@ == with_nonce_value(prepared(orig), n));
                let canon = canon_of(prepared(orig));
                let off = (choose|i: int| is_first_occurrence(canon, nonce_pattern(), i))
                    + pattern_value_offset();
                assert(off == pos + 9);
                assert(pow as nat == attempt_difficulty(canon, off, n));
                assert(forall|m: u64| m < n ==> attempt_difficulty(canon, off, m) < target);
            }
            Ok(PowResponse { event, pow })
        },
    }
}

} // verus!
