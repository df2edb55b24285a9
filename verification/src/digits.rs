//! Parsing a run of decimal digit units into an unsigned 64-bit post number.

use vstd::prelude::*;

verus! {

pub open spec fn is_digit_unit(c: u16) -> bool {
    48 <= c && c <= 57
}

pub open spec fn all_digit_units(s: Seq<u16>) -> bool {
    forall|i: int| 0 <= i < s.len() ==> is_digit_unit(#[trigger] s[i])
}

/// The value of a digit run read most-significant first.
pub open spec fn digits_val(s: Seq<u16>) -> int
    decreases s.len(),
{
    if s.len() == 0 {
        0
    } else {
        digits_val(s.drop_last()) * 10 + (s.last() - 48)
    }
}

/// The number a run of units denotes: every unit must be a decimal digit,
/// the run must be non-empty, and the value must fit in 64 bits.
pub open spec fn spec_parse_u64(s: Seq<u16>) -> Option<u64> {
    if s.len() == 0 || !all_digit_units(s) || digits_val(s) > u64::MAX {
        None
    } else {
        Some(digits_val(s) as u64)
    }
}

pub proof fn lemma_digits_val_nonneg(s: Seq<u16>)
    requires
        all_digit_units(s),
    ensures
        digits_val(s) >= 0,
    decreases s.len(),
{
    if s.len() > 0 {
        assert(forall|j: int| 0 <= j < s.drop_last().len() ==> s.drop_last()[j] == s[j]);
        lemma_digits_val_nonneg(s.drop_last());
    }
}

/// A digit run is worth at least as much as any of its prefixes.
pub proof fn lemma_digits_prefix_le(s: Seq<u16>, k: int)
    requires
        all_digit_units(s),
        0 <= k <= s.len(),
    ensures
        digits_val(s.subrange(0, k)) <= digits_val(s),
    decreases s.len() - k,
{
    if k < s.len() {
        assert(s.subrange(0, k + 1).drop_last() =~= s.subrange(0, k));
        assert(s.subrange(0, k + 1).last() == s[k]);
        assert(forall|j: int| 0 <= j < k ==> s.subrange(0, k)[j] == s[j]);
        lemma_digits_val_nonneg(s.subrange(0, k));
        lemma_digits_prefix_le(s, k + 1);
    } else {
        assert(s.subrange(0, k) =~= s);
    }
}

/// Reads a `u64` from a run of decimal digit units, exactly when the run is a
/// non-empty all-digit run whose value fits.
#[verifier::loop_isolation(false)]
pub fn parse_u64_digits(s: &Vec<u16>) -> (r: Option<u64>)
    ensures
        r == spec_parse_u64(s@),
{
    if s.len() == 0 {
        return None;
    }
    let mut acc: u64 = 0;
    let mut i: usize = 0;
    while i < s.len()
        invariant
            0 <= i <= s@.len(),
            all_digit_units(s@.subrange(0, i as int)),
            acc == digits_val(s@.subrange(0, i as int)),
        decreases s@.len() - i,
    {
        let c = s[i];
        if c < 48 || c > 57 {
            proof {
                assert(!is_digit_unit(s@[i as int]));
            }
            return None;
        }
        let d = (c - 48) as u64;
        proof {
            assert(s@.subrange(0, i + 1).drop_last() =~= s@.subrange(0, i as int));
            assert(s@.subrange(0, i + 1).last() == s@[i as int]);
            assert(forall|j: int| 0 <= j < i + 1 ==> s@.subrange(0, i + 1)[j] == s@[j]);
        }
        let shifted = match acc.checked_mul(10) {
            Some(m) => m,
            None => {
                proof {
                    if all_digit_units(s@) {
                        lemma_digits_prefix_le(s@, i + 1);
                    }
                }
                return None;
            }
        };
        acc = match shifted.checked_add(d) {
            Some(a) => a,
            None => {
                proof {
                    if all_digit_units(s@) {
                        lemma_digits_prefix_le(s@, i + 1);
                    }
                }
                return None;
            }
        };
        i += 1;
    }
    proof {
        assert(s@.subrange(0, i as int) =~= s@);
    }
    Some(acc)
}

} // verus!
