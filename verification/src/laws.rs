//! Laws of the composers, stated over their specification models and proved
//! for every input, not only for the cases a test can reach.

use vstd::prelude::*;
use crate::values::{IntegerValue, NumberValue, RuleError, pow10};
use crate::numbers::{
    in_i64,
    is_digit,
    spec_apply_suffix,
    spec_compose_hundreds,
    spec_compose_teen,
    spec_compose_tens_units,
    spec_magnitude_exp,
    spec_negate,
};
use crate::es::es_hundreds;
use crate::scan::{is_suffix_byte, is_word_byte, run_end, run_yield, scan_spec, yields_at};

verus! {

/// Every teen composition the grammar admits (base in [0, 10], units in
/// [6, 9]) composes to the arithmetic sum of its parsed parts.
pub proof fn law_teen_composition_is_sum(base: IntegerValue, units: IntegerValue)
    requires
        0 <= base.value <= 10,
        6 <= units.value <= 9,
    ensures
        spec_compose_teen(base, units) matches Ok(v) && v.value == base.value + units.value,
{
}

/// Every compound-ten composition the grammar admits (tens in {20, ..., 90},
/// units in [1, 9]) composes to the arithmetic sum of its parsed parts, a
/// value in [21, 99].
pub proof fn law_tens_units_composition_is_sum(tens: IntegerValue, units: IntegerValue)
    requires
        20 <= tens.value <= 90,
        tens.value % 10 == 0,
        1 <= units.value <= 9,
    ensures
        spec_compose_tens_units(tens, units) matches Ok(v) && v.value == tens.value + units.value
            && 21 <= v.value <= 99,
{
}

/// For every value in [200, 999] both grammars can express, the
/// hundreds-composition path (a multiplier child, the fixed 100, a remainder
/// child) and the literal-token hundreds path agree: the composed value is
/// the literal token's value plus the remainder.
pub proof fn law_hundreds_paths_agree(
    w: Seq<char>,
    multiplier: IntegerValue,
    hundred: IntegerValue,
    rest: IntegerValue,
)
    requires
        2 <= multiplier.value <= 9,
        hundred.value == 100,
        0 <= rest.value <= 99,
        es_hundreds(w) == Some((100 * multiplier.value) as i64),
    ensures
        spec_compose_hundreds(multiplier, hundred, rest) matches Ok(v) && es_hundreds(w) matches
            Some(h) && v.value == h + rest.value,
{
}

/// The magnitude suffix is multiplicative: on an unsuffixed integer it
/// multiplies the value by the suffix's power of ten whenever the product is
/// representable.
pub proof fn law_suffix_is_multiplicative(i: IntegerValue, suffix: u8, e: u32)
    requires
        !i.suffixed,
        spec_magnitude_exp(suffix) == Some(e),
        in_i64(i.value * pow10(e as nat)),
    ensures
        spec_apply_suffix(NumberValue::Integer(i), suffix) matches Ok(v) && v.spec_dec().mantissa
            == i.value * pow10(e as nat) && v.spec_dec().scale == 0,
{
}

/// The magnitude suffix is idempotence-guarded: whatever a successful suffix
/// application returned, offering that result to the suffix rule again fails
/// to match instead of multiplying twice.
pub proof fn law_suffix_applies_once(n: NumberValue, suffix: u8, again: u8, v: NumberValue)
    requires
        spec_apply_suffix(n, suffix) == Ok::<NumberValue, RuleError>(v),
    ensures
        spec_apply_suffix(v, again) == Err::<NumberValue, RuleError>(RuleError::InvalidComposition),
{
    assert(v.spec_suffixed());
}

/// In running text the suffix also needs a closing word boundary: a maximal
/// digit run whose suffix letter is followed by another word byte yields no
/// candidate at all, so trailing letters disqualify the match.
pub proof fn law_suffix_needs_boundary(s: Seq<u8>, i: int, j: int)
    requires
        0 <= i < j < s.len(),
        is_suffix_byte(s[j]),
        j + 1 < s.len(),
        is_word_byte(s[j + 1]),
    ensures
        run_yield(s, i, j) is None,
{
    assert(is_word_byte(s[j]));
}

/// The scanner is complete: every candidate the grammar and the boundary
/// policy admit appears in the scan, so an expected value can only be absent
/// when no span yields it.
pub proof fn law_scan_complete(s: Seq<u8>, k: int, i: int, v: i64)
    requires
        0 <= k <= i,
        yields_at(s, i, v),
    ensures
        scan_spec(s, k).contains(v),
    decreases i - k,
{
    if k == i {
        assert(scan_spec(s, k)[0] == v);
    } else {
        law_scan_complete(s, k + 1, i, v);
        let tail = scan_spec(s, k + 1);
        let idx = choose|idx: int| 0 <= idx < tail.len() && tail[idx] == v;
        if k < s.len() && is_digit(s[k]) && (k == 0 || !is_digit(s[k - 1])) {
            match run_yield(s, k, run_end(s, k)) {
                Option::Some(w) => {
                    assert(scan_spec(s, k)[idx + 1] == v);
                },
                Option::None => {},
            }
        }
    }
}

/// The scanner is sound: every value it extracts is the yield of some
/// maximal digit run under the boundary policy; nothing is invented.
pub proof fn law_scan_sound(s: Seq<u8>, k: int, v: i64)
    requires
        0 <= k <= s.len(),
        scan_spec(s, k).contains(v),
    ensures
        exists|i: int| i >= k && #[trigger] yields_at(s, i, v),
    decreases s.len() - k,
{
    let whole = scan_spec(s, k);
    let idx = choose|idx: int| 0 <= idx < whole.len() && whole[idx] == v;
    if k < s.len() && is_digit(s[k]) && (k == 0 || !is_digit(s[k - 1])) {
        match run_yield(s, k, run_end(s, k)) {
            Option::Some(w) => {
                if idx == 0 {
                    assert(yields_at(s, k, v));
                } else {
                    assert(scan_spec(s, k + 1)[idx - 1] == v);
                    law_scan_sound(s, k + 1, v);
                }
            },
            Option::None => {
                law_scan_sound(s, k + 1, v);
            },
        }
    } else {
        law_scan_sound(s, k + 1, v);
    }
}

/// Sign negation is guarded against double application: whatever a
/// successful negation returned, offering that result to the negation rule
/// again fails to match, so a second sign can never silently toggle the
/// value back to positive.
pub proof fn law_negation_applies_once(n: NumberValue, v: NumberValue)
    requires
        spec_negate(n) == Ok::<NumberValue, RuleError>(v),
    ensures
        spec_negate(v) == Err::<NumberValue, RuleError>(RuleError::InvalidComposition),
{
    assert(v.spec_prefixed());
}

} // verus!

