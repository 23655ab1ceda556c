//! A deterministic scanner for the digit-literal part of the numeric
//! grammar: maximal digit runs with an optional magnitude suffix, under a
//! fixed word-boundary policy.
//!
//! The policy, chosen once and documented here: a candidate starts only where
//! the preceding byte is absent or not a word byte (ASCII letter, digit or
//! underscore), and ends only where the following byte is absent or not a
//! word byte. A magnitude suffix letter counts only when the byte after it
//! also meets the end policy, so trailing letters ("100kilo") disqualify the
//! suffix and the run itself. Candidates are found left to right; runs are
//! maximal, so candidates never overlap and no tie-break is needed.

use vstd::prelude::*;
use crate::values::{NumberValue, pow10};
use crate::numbers::{
    apply_suffix,
    digits_int,
    in_i64,
    is_digit,
    parse_integer_digits,
    spec_magnitude_exp,
};

verus! {

/// A word byte under the scanner's boundary policy.
pub open spec fn is_word_byte(b: u8) -> bool {
    (48 <= b <= 57) || (65 <= b <= 90) || (97 <= b <= 122) || b == 95
}

/// Whether a byte is a word byte, executably.
pub fn word_byte(b: u8) -> (r: bool)
    ensures
        r == is_word_byte(b),
{
    (48 <= b && b <= 57) || (65 <= b && b <= 90) || (97 <= b && b <= 122) || b == 95
}

/// A magnitude suffix letter (k, m or g).
pub open spec fn is_suffix_byte(b: u8) -> bool {
    spec_magnitude_exp(b) is Some
}

/// The first position at or after `k` that is not a digit.
pub open spec fn run_end(s: Seq<u8>, k: int) -> int
    decreases s.len() - k when 0 <= k <= s.len()
{
    if k >= s.len() || !is_digit(s[k]) {
        k
    } else {
        run_end(s, k + 1)
    }
}

/// What the maximal digit run `[i, j)` yields under the boundary policy:
/// nothing when a word byte precedes it; nothing when it is longer than the
/// representable 18 digits (that candidate overflows and is dropped); the
/// suffixed product when a magnitude letter with a closing boundary follows
/// and the product is representable; the plain integer when the run itself
/// closes at a boundary; nothing otherwise.
pub open spec fn run_yield(s: Seq<u8>, i: int, j: int) -> Option<i64> {
    if i > 0 && is_word_byte(s[i - 1]) {
        None
    } else if j - i > 18 {
        None
    } else if j < s.len() && is_suffix_byte(s[j]) && (j + 1 == s.len() || !is_word_byte(
        s[j + 1],
    )) {
        let e = match spec_magnitude_exp(s[j]) {
            Option::Some(e) => e,
            Option::None => 0u32,
        };
        let v = digits_int(s.subrange(i, j)) * pow10(e as nat);
        if in_i64(v) {
            Some(v as i64)
        } else {
            None
        }
    } else if j == s.len() || !is_word_byte(s[j]) {
        Some(digits_int(s.subrange(i, j)) as i64)
    } else {
        None
    }
}

/// Every value the scanner extracts from position `k` on, in text order: the
/// yield of each maximal digit run starting at or after `k`.
pub open spec fn scan_spec(s: Seq<u8>, k: int) -> Seq<i64>
    decreases s.len() - k when 0 <= k <= s.len()
{
    if k >= s.len() {
        Seq::empty()
    } else if is_digit(s[k]) && (k == 0 || !is_digit(s[k - 1])) {
        match run_yield(s, k, run_end(s, k)) {
            Option::Some(v) => seq![v] + scan_spec(s, k + 1),
            Option::None => scan_spec(s, k + 1),
        }
    } else {
        scan_spec(s, k + 1)
    }
}

/// A candidate at position `i`: a maximal digit run starts there and, with
/// its optional suffix and the boundary policy, yields the value `v`.
pub open spec fn yields_at(s: Seq<u8>, i: int, v: i64) -> bool {
    &&& 0 <= i < s.len()
    &&& is_digit(s[i])
    &&& i == 0 || !is_digit(s[i - 1])
    &&& run_yield(s, i, run_end(s, i)) == Some(v)
}

proof fn lemma_run_end_is(s: Seq<u8>, i: int, j: int)
    requires
        0 <= i <= j <= s.len(),
        forall|k: int| i <= k < j ==> is_digit(#[trigger] s[k]),
        j == s.len() || !is_digit(s[j]),
    ensures
        run_end(s, i) == j,
    decreases j - i,
{
    if i < j {
        lemma_run_end_is(s, i + 1, j);
    }
}

/// Scans the text for integer candidates of the numeric grammar: each
/// maximal digit run, with its optional magnitude suffix, under the
/// scanner's word-boundary policy. Returns exactly the values described by
/// [`scan_spec`], in text order.
pub fn scan_integers(s: &[u8]) -> (r: Vec<i64>)
    ensures
        r@ == scan_spec(s@, 0),
{
    let n = s.len();
    let mut res: Vec<i64> = Vec::new();
    let mut i: usize = 0;
    while i < n
        invariant
            0 <= i <= n == s@.len(),
            scan_spec(s@, 0) == res@ + scan_spec(s@, i as int),
        decreases n - i,
    {
        let ghost res0 = res@;
        let b = s[i];
        if 48 <= b && b <= 57 && (i == 0 || !(48 <= s[i - 1] && s[i - 1] <= 57)) {
            let mut j: usize = i + 1;
            while j < n && 48 <= s[j] && s[j] <= 57
                invariant
                    i < j <= n == s@.len(),
                    forall|k: int| i <= k < j ==> is_digit(#[trigger] s@[k]),
                decreases n - j,
            {
                j = j + 1;
            }
            proof {
                lemma_run_end_is(s@, i as int, j as int);
            }
            let start_ok = i == 0 || !word_byte(s[i - 1]);
            if start_ok && j - i <= 18 {
                let mut dv: Vec<u8> = Vec::new();
                let mut k: usize = i;
                while k < j
                    invariant
                        i <= k <= j <= n == s@.len(),
                        dv@ == s@.subrange(i as int, k as int),
                        forall|t: int| i <= t < j ==> is_digit(#[trigger] s@[t]),
                    decreases j - k,
                {
                    proof {
                        assert(s@.subrange(i as int, k as int + 1) =~= s@.subrange(
                            i as int,
                            k as int,
                        ).push(s@[k as int]));
                    }
                    dv.push(s[k]);
                    k = k + 1;
                }
                let parsed = parse_integer_digits(dv.as_slice());
                match parsed {
                    Ok(iv) => {
                        if j < n && (s[j] == 107 || s[j] == 109 || s[j] == 103) && (j + 1 == n
                            || !word_byte(s[j + 1])) {
                            match apply_suffix(&NumberValue::Integer(iv), s[j]) {
                                Ok(out) => match out {
                                    NumberValue::Integer(oiv) => {
                                        res.push(oiv.value);
                                    },
                                    NumberValue::Decimal(_) => {},
                                },
                                Err(_) => {},
                            }
                        } else if j == n || !word_byte(s[j]) {
                            res.push(iv.value);
                        }
                    },
                    Err(_) => {
                        proof {
                            assert(false);
                        }
                    },
                }
            }
        }
        i = i + 1;
    }
    proof {
        assert(res@ + scan_spec(s@, n as int) =~= res@);
    }
    res
}

} // verus!
