//! The numeric composer: combines atomic integers into larger integers and
//! exact decimals, and parses digit-literal tokens.
//!
//! Every operation takes already-reduced child values from adjacent matched
//! spans, never raw text, except for the literal parsers which take the bytes
//! a pattern captured. Every error is local to one candidate span.

use vstd::prelude::*;
use vstd::arithmetic::div_mod::{lemma_fundamental_div_mod, lemma_fundamental_div_mod_converse};
use crate::values::{Decimal, DecimalValue, IntegerValue, NumberValue, RuleError, pow10};

verus! {

/// `10^e` computed executably, for renormalizing decimal scales.
pub fn pow10_i64(e: u32) -> (r: i64)
    requires
        e <= 18,
    ensures
        r == pow10(e as nat),
{
    proof {
        lemma_pow10_bounds();
    }
    let mut r: i64 = 1;
    let mut i: u32 = 0;
    while i < e
        invariant
            i <= e <= 18,
            r == pow10(i as nat),
        decreases e - i,
    {
        proof {
            assert(pow10(i as nat + 1) == 10 * pow10(i as nat));
            lemma_pow10_increases(i as nat + 1, 18);
            lemma_pow10_bounds();
            lemma_pow10_pos(i as nat);
        }
        r = r * 10;
        i = i + 1;
    }
    r
}

/// `pow10` is positive.
pub proof fn lemma_pow10_pos(e: nat)
    ensures
        pow10(e) >= 1,
    decreases e,
{
    if e > 0 {
        lemma_pow10_pos((e - 1) as nat);
    }
}

/// `pow10` grows with the exponent.
pub proof fn lemma_pow10_increases(a: nat, b: nat)
    requires
        a <= b,
    ensures
        pow10(a) <= pow10(b),
    decreases b,
{
    if a < b {
        lemma_pow10_increases(a, (b - 1) as nat);
        lemma_pow10_pos((b - 1) as nat);
    }
}

/// The largest power the library renormalizes with still fits in `i64`.
pub proof fn lemma_pow10_bounds()
    ensures
        pow10(18) == 0x_de0_b6b3_a764_0000,
{
    reveal_with_fuel(pow10, 19);
}

/// An ASCII decimal digit.
pub open spec fn is_digit(b: u8) -> bool {
    48 <= b <= 57
}

/// Every byte of the sequence is an ASCII digit.
pub open spec fn all_digits(s: Seq<u8>) -> bool {
    forall|i: int| 0 <= i < s.len() ==> is_digit(#[trigger] s[i])
}

/// The integer the digit sequence denotes in base 10.
pub open spec fn digits_int(s: Seq<u8>) -> int
    decreases s.len(),
{
    if s.len() == 0 {
        0
    } else {
        digits_int(s.drop_last()) * 10 + (s.last() - 48)
    }
}

/// Parses a digit literal of 1 to 18 digits directly to an integer.
///
/// Succeeds exactly on non-empty all-digit tokens short enough to stay within
/// the 64-bit signed range; an all-digit token of 19 or more digits is a
/// `NumericOverflow`, anything else a `MalformedNumericLiteral`.
pub fn parse_integer_digits(s: &[u8]) -> (r: Result<IntegerValue, RuleError>)
    ensures
        r is Ok <==> 1 <= s@.len() <= 18 && all_digits(s@),
        r matches Ok(v) ==> v == (IntegerValue {
            value: digits_int(s@) as i64,
            prefixed: false,
            suffixed: false,
        }) && v.value == digits_int(s@),
        r matches Err(e) ==> e == (if s@.len() == 0 || !all_digits(s@) {
            RuleError::MalformedNumericLiteral
        } else {
            RuleError::NumericOverflow
        }),
{
    let n = s.len();
    if n == 0 {
        return Err(RuleError::MalformedNumericLiteral);
    }
    let mut i: usize = 0;
    while i < n
        invariant
            0 <= i <= n == s@.len(),
            forall|j: int| 0 <= j < i ==> is_digit(#[trigger] s@[j]),
        decreases n - i,
    {
        let b = s[i];
        if b < 48 || b > 57 {
            return Err(RuleError::MalformedNumericLiteral);
        }
        i = i + 1;
    }
    assert(all_digits(s@));
    if n > 18 {
        return Err(RuleError::NumericOverflow);
    }
    let mut acc: i64 = 0;
    let mut i: usize = 0;
    proof {
        lemma_pow10_bounds();
    }
    while i < n
        invariant
            0 <= i <= n == s@.len() <= 18,
            all_digits(s@),
            acc == digits_int(s@.subrange(0, i as int)),
            0 <= acc < pow10(i as nat),
        decreases n - i,
    {
        let ghost pre = s@.subrange(0, i as int);
        let b = s[i];
        proof {
            assert(s@.subrange(0, i as int + 1).drop_last() =~= pre);
            lemma_pow10_increases(i as nat + 1, 18);
            lemma_pow10_bounds();
        }
        acc = acc * 10 + ((b - 48) as i64);
        i = i + 1;
    }
    proof {
        assert(s@.subrange(0, n as int) =~= s@);
    }
    Ok(IntegerValue { value: acc, prefixed: false, suffixed: false })
}

/// The exact result of a teen composition: the sum of its parts when the
/// base is in [0, 10] and the units in [6, 9], rejected otherwise.
pub open spec fn spec_compose_teen(base: IntegerValue, units: IntegerValue) -> Result<
    IntegerValue,
    RuleError,
> {
    if 0 <= base.value <= 10 && 6 <= units.value <= 9 {
        Ok(
            IntegerValue {
                value: (base.value + units.value) as i64,
                prefixed: false,
                suffixed: false,
            },
        )
    } else {
        Err(RuleError::InvalidComposition)
    }
}

/// The exact result of a compound-ten composition: the sum of its parts when
/// the left part is a round tens value in {20, ..., 90} and the units are in
/// [1, 9], rejected otherwise.
pub open spec fn spec_compose_tens_units(tens: IntegerValue, units: IntegerValue) -> Result<
    IntegerValue,
    RuleError,
> {
    if 20 <= tens.value <= 90 && tens.value % 10 == 0 && 1 <= units.value <= 9 {
        Ok(
            IntegerValue {
                value: (tens.value + units.value) as i64,
                prefixed: false,
                suffixed: false,
            },
        )
    } else {
        Err(RuleError::InvalidComposition)
    }
}

/// The exact result of a hundreds composition: `multiplier * 100 +
/// remainder` when the multiplier is in [2, 9], the middle child is the
/// fixed 100 and the remainder is in [0, 99], rejected otherwise.
pub open spec fn spec_compose_hundreds(
    multiplier: IntegerValue,
    hundred: IntegerValue,
    rest: IntegerValue,
) -> Result<IntegerValue, RuleError> {
    if 2 <= multiplier.value <= 9 && hundred.value == 100 && 0 <= rest.value <= 99 {
        Ok(
            IntegerValue {
                value: (multiplier.value * 100 + rest.value) as i64,
                prefixed: false,
                suffixed: false,
            },
        )
    } else {
        Err(RuleError::InvalidComposition)
    }
}

/// Teen composition: a base in [0, 10], a linking token, units in [6, 9];
/// the composed value is the arithmetic sum of the two parsed parts.
pub fn compose_teen(base: &IntegerValue, units: &IntegerValue) -> (r: Result<
    IntegerValue,
    RuleError,
>)
    ensures
        r == spec_compose_teen(*base, *units),
        r is Ok <==> 0 <= base.value <= 10 && 6 <= units.value <= 9,
{
    if 0 <= base.value && base.value <= 10 && 6 <= units.value && units.value <= 9 {
        Ok(IntegerValue::new(base.value + units.value))
    } else {
        Err(RuleError::InvalidComposition)
    }
}

/// Compound-ten composition: a round tens value in {20, 30, ..., 90}, a
/// linking token, units in [1, 9]; the composed value is their sum.
pub fn compose_tens_units(tens: &IntegerValue, units: &IntegerValue) -> (r: Result<
    IntegerValue,
    RuleError,
>)
    ensures
        r == spec_compose_tens_units(*tens, *units),
        r is Ok <==> 20 <= tens.value <= 90 && tens.value % 10 == 0 && 1 <= units.value <= 9,
{
    if 20 <= tens.value && tens.value <= 90 && (tens.value as u64) % 10 == 0 && 1 <= units.value
        && units.value <= 9 {
        Ok(IntegerValue::new(tens.value + units.value))
    } else {
        Err(RuleError::InvalidComposition)
    }
}

/// Hundreds composition: a multiplier in [2, 9], the fixed literal 100, and a
/// tens-and-units remainder in [0, 99] compose to `multiplier * 100 +
/// remainder`. Multipliers outside [2, 9] are rejected.
pub fn compose_hundreds(
    multiplier: &IntegerValue,
    hundred: &IntegerValue,
    rest: &IntegerValue,
) -> (r: Result<IntegerValue, RuleError>)
    ensures
        r == spec_compose_hundreds(*multiplier, *hundred, *rest),
        r is Ok <==> 2 <= multiplier.value <= 9 && hundred.value == 100 && 0 <= rest.value <= 99,
{
    if 2 <= multiplier.value && multiplier.value <= 9 && hundred.value == 100 && 0 <= rest.value
        && rest.value <= 99 {
        Ok(IntegerValue::new(multiplier.value * 100 + rest.value))
    } else {
        Err(RuleError::InvalidComposition)
    }
}

/// The exact result of sign negation: a number that already carries a sign
/// is rejected (the rule does not match, so a second negation can never
/// silently toggle the sign back); otherwise the value is negated, the
/// variant and the suffix flag are kept, and the result is marked
/// `prefixed`.
pub open spec fn spec_negate(n: NumberValue) -> Result<NumberValue, RuleError> {
    if n.spec_prefixed() {
        Err(RuleError::InvalidComposition)
    } else {
        match n {
            NumberValue::Integer(i) => {
                if i.value == i64::MIN {
                    Err(RuleError::NumericOverflow)
                } else {
                    Ok(
                        NumberValue::Integer(
                            IntegerValue {
                                value: (-i.value) as i64,
                                prefixed: true,
                                suffixed: i.suffixed,
                            },
                        ),
                    )
                }
            },
            NumberValue::Decimal(d) => {
                if d.value.mantissa == i64::MIN {
                    Err(RuleError::NumericOverflow)
                } else {
                    Ok(
                        NumberValue::Decimal(
                            DecimalValue {
                                value: Decimal {
                                    mantissa: (-d.value.mantissa) as i64,
                                    scale: d.value.scale,
                                },
                                prefixed: true,
                                suffixed: d.suffixed,
                            },
                        ),
                    )
                }
            },
        }
    }
}

/// Sign negation: a leading negation token negates a number that does not
/// already carry a sign and marks it `prefixed`, so a second negation of the
/// same span fails to match instead of toggling the sign back.
pub fn negate(n: &NumberValue) -> (r: Result<NumberValue, RuleError>)
    ensures
        r == spec_negate(*n),
        r is Ok <==> !n.spec_prefixed() && n.spec_dec().mantissa != i64::MIN,
        r matches Ok(v) ==> v.spec_prefixed() && v.spec_suffixed() == n.spec_suffixed()
            && v.spec_dec().mantissa == -n.spec_dec().mantissa && v.spec_dec().scale
            == n.spec_dec().scale && (v is Integer <==> n is Integer),
{
    if n.prefixed() {
        return Err(RuleError::InvalidComposition);
    }
    match n {
        NumberValue::Integer(i) => {
            if i.value == i64::MIN {
                Err(RuleError::NumericOverflow)
            } else {
                Ok(
                    NumberValue::Integer(
                        IntegerValue { value: -i.value, prefixed: true, suffixed: i.suffixed },
                    ),
                )
            }
        },
        NumberValue::Decimal(d) => {
            if d.value.mantissa == i64::MIN {
                Err(RuleError::NumericOverflow)
            } else {
                Ok(
                    NumberValue::Decimal(
                        DecimalValue {
                            value: Decimal { mantissa: -d.value.mantissa, scale: d.value.scale },
                            prefixed: true,
                            suffixed: d.suffixed,
                        },
                    ),
                )
            }
        },
    }
}

/// The sequence with every occurrence of the separator byte removed.
pub open spec fn strip_seps(s: Seq<u8>, sep: u8) -> Seq<u8>
    decreases s.len(),
{
    if s.len() == 0 {
        Seq::empty()
    } else if s.last() == sep {
        strip_seps(s.drop_last(), sep)
    } else {
        strip_seps(s.drop_last(), sep).push(s.last())
    }
}

/// How many times the separator byte occurs in the sequence.
pub open spec fn sep_count(s: Seq<u8>, sep: u8) -> nat
    decreases s.len(),
{
    if s.len() == 0 {
        0
    } else {
        sep_count(s.drop_last(), sep) + if s.last() == sep {
            1nat
        } else {
            0nat
        }
    }
}

/// The number of digits the sequence ends with.
pub open spec fn tail_digit_len(s: Seq<u8>) -> int
    decreases s.len(),
{
    if s.len() == 0 {
        0
    } else if is_digit(s.last()) {
        1 + tail_digit_len(s.drop_last())
    } else {
        0
    }
}

proof fn lemma_one_sep(s: Seq<u8>, sep: u8, p: int)
    requires
        0 <= p < s.len(),
        s[p] == sep,
    ensures
        sep_count(s, sep) >= 1,
    decreases s.len(),
{
    if p < s.len() - 1 {
        assert(s.drop_last()[p] == s[p]);
        lemma_one_sep(s.drop_last(), sep, p);
    } else {
        assert(s.last() == s[p]);
    }
}

proof fn lemma_two_seps(s: Seq<u8>, sep: u8, p: int, q: int)
    requires
        0 <= p < q < s.len(),
        s[p] == sep,
        s[q] == sep,
    ensures
        sep_count(s, sep) >= 2,
    decreases s.len(),
{
    assert(s.drop_last()[p] == s[p]);
    if q == s.len() - 1 {
        lemma_one_sep(s.drop_last(), sep, p);
    } else {
        assert(s.drop_last()[q] == s[q]);
        lemma_two_seps(s.drop_last(), sep, p, q);
    }
}

proof fn lemma_tail_digit_len(s: Seq<u8>, p: int)
    requires
        0 <= p < s.len(),
        !is_digit(s[p]),
        forall|i: int| p < i < s.len() ==> is_digit(#[trigger] s[i]),
    ensures
        tail_digit_len(s) == s.len() - 1 - p,
    decreases s.len(),
{
    if p < s.len() - 1 {
        assert(s.drop_last()[p] == s[p]);
        assert(forall|i: int| p < i < s.len() - 1 ==> #[trigger] s.drop_last()[i] == s[i]);
        lemma_tail_digit_len(s.drop_last(), p);
    }
}

/// A locale decimal literal: digits, one decimal comma, then at least one
/// fraction digit (the integer part may be empty).
pub open spec fn decimal_shape(s: Seq<u8>) -> bool {
    &&& s.len() >= 2
    &&& sep_count(s, 44) == 1
    &&& forall|i: int| 0 <= i < s.len() ==> is_digit(#[trigger] s[i]) || s[i] == 44
    &&& is_digit(s.last())
}

/// Parses a comma-as-decimal-point literal ("3,5") into an exact decimal:
/// the digits with the comma removed become the mantissa and the number of
/// fraction digits the scale. Succeeds exactly on well-shaped literals with
/// at most 18 digits; a well-shaped literal with more digits is a
/// `NumericOverflow`, anything else a `MalformedNumericLiteral`.
pub fn parse_decimal(s: &[u8]) -> (r: Result<DecimalValue, RuleError>)
    ensures
        r is Ok <==> decimal_shape(s@) && s@.len() <= 19,
        r matches Ok(v) ==> v.value.mantissa == digits_int(strip_seps(s@, 44)) && v.value.scale
            == tail_digit_len(s@) && !v.prefixed && !v.suffixed && v.value.wf(),
        r matches Err(e) ==> e == (if decimal_shape(s@) {
            RuleError::NumericOverflow
        } else {
            RuleError::MalformedNumericLiteral
        }),
{
    let n = s.len();
    let mut digits: Vec<u8> = Vec::new();
    let mut comma: usize = n;
    let mut i: usize = 0;
    while i < n
        invariant
            0 <= i <= n == s@.len(),
            digits@ == strip_seps(s@.subrange(0, i as int), 44),
            all_digits(digits@),
            forall|j: int| 0 <= j < i ==> is_digit(#[trigger] s@[j]) || s@[j] == 44,
            comma <= n,
            comma == n ==> sep_count(s@.subrange(0, i as int), 44) == 0,
            comma < n ==> comma < i && s@[comma as int] == 44 && sep_count(
                s@.subrange(0, i as int),
                44,
            ) == 1 && digits@.len() == i - 1,
            comma == n ==> digits@.len() == i,
        decreases n - i,
    {
        let ghost pre = s@.subrange(0, i as int);
        proof {
            assert(s@.subrange(0, i as int + 1).drop_last() =~= pre);
        }
        let b = s[i];
        if b == 44 {
            if comma < n {
                proof {
                    lemma_two_seps(s@, 44, comma as int, i as int);
                }
                return Err(RuleError::MalformedNumericLiteral);
            }
            comma = i;
        } else if 48 <= b && b <= 57 {
            digits.push(b);
        } else {
            return Err(RuleError::MalformedNumericLiteral);
        }
        i = i + 1;
    }
    proof {
        assert(s@.subrange(0, n as int) =~= s@);
    }
    if comma == n {
        return Err(RuleError::MalformedNumericLiteral);
    }
    if comma == n - 1 {
        return Err(RuleError::MalformedNumericLiteral);
    }
    proof {
        if !is_digit(s@.last()) {
            assert(s@[n - 1] == 44);
            lemma_two_seps(s@, 44, comma as int, n - 1);
        }
        assert forall|j: int| comma < j < n implies is_digit(#[trigger] s@[j]) by {
            if s@[j] == 44 {
                lemma_two_seps(s@, 44, comma as int, j);
            }
        }
        lemma_tail_digit_len(s@, comma as int);
    }
    if n > 19 {
        return Err(RuleError::NumericOverflow);
    }
    let scale: u32 = (n - 1 - comma) as u32;
    match parse_integer_digits(digits.as_slice()) {
        Ok(iv) => Ok(
            DecimalValue {
                value: Decimal { mantissa: iv.value, scale },
                prefixed: false,
                suffixed: false,
            },
        ),
        Err(_) => {
            proof {
                assert(false);
            }
            Err(RuleError::MalformedNumericLiteral)
        },
    }
}

/// How one position of a dot-grouped digit literal must look: a dot at every
/// position whose distance to the end is a multiple of four, a digit
/// everywhere else.
pub open spec fn grouped_byte_ok(s: Seq<u8>, i: int) -> bool {
    if (s.len() - i) % 4 == 0 {
        s[i] == 46
    } else {
        is_digit(s[i])
    }
}

/// An integer literal with a thousands separator: one to three leading
/// digits, then one to five groups of a dot followed by exactly three digits.
pub open spec fn grouped_int_shape(s: Seq<u8>) -> bool {
    &&& 5 <= s.len() <= 23
    &&& s.len() % 4 != 0
    &&& forall|i: int| 0 <= i < s.len() ==> #[trigger] grouped_byte_ok(s, i)
}

proof fn lemma_strip_no_seps(s: Seq<u8>, sep: u8)
    requires
        forall|i: int| 0 <= i < s.len() ==> #[trigger] s[i] != sep,
    ensures
        strip_seps(s, sep) =~= s,
    decreases s.len(),
{
    if s.len() > 0 {
        lemma_strip_no_seps(s.drop_last(), sep);
    }
}

/// Under the grouped pattern, stripping the dots leaves only digits, at
/// least one and at most three for each four positions.
proof fn lemma_grouped_strip(s: Seq<u8>)
    requires
        s.len() % 4 != 0,
        forall|i: int| 0 <= i < s.len() ==> #[trigger] grouped_byte_ok(s, i),
    ensures
        all_digits(strip_seps(s, 46)),
        4 * strip_seps(s, 46).len() <= 3 * s.len() + 3,
        s.len() >= 1 ==> strip_seps(s, 46).len() >= 1,
    decreases s.len(),
{
    if s.len() < 4 {
        assert forall|i: int| 0 <= i < s.len() implies is_digit(#[trigger] s[i]) && s[i] != 46 by {
            assert(grouped_byte_ok(s, i));
        }
        lemma_strip_no_seps(s, 46);
        assert(strip_seps(s, 46) == s);
    } else {
        let t = s.subrange(0, s.len() - 4);
        assert forall|i: int| 0 <= i < t.len() implies #[trigger] grouped_byte_ok(t, i) by {
            assert(grouped_byte_ok(s, i));
        }
        lemma_grouped_strip(t);
        assert(grouped_byte_ok(s, s.len() - 4));
        assert(grouped_byte_ok(s, s.len() - 3));
        assert(grouped_byte_ok(s, s.len() - 2));
        assert(grouped_byte_ok(s, s.len() - 1));
        let s1 = s.drop_last();
        let s2 = s1.drop_last();
        let s3 = s2.drop_last();
        assert(s.last() == s[s.len() - 1] && is_digit(s.last()));
        assert(s1.last() == s[s.len() - 2] && is_digit(s1.last()));
        assert(s2.last() == s[s.len() - 3] && is_digit(s2.last()));
        assert(s3.last() == s[s.len() - 4] && s3.last() == 46);
        assert(strip_seps(s, 46) == strip_seps(s1, 46).push(s.last()));
        assert(strip_seps(s1, 46) == strip_seps(s2, 46).push(s1.last()));
        assert(strip_seps(s2, 46) == strip_seps(s3, 46).push(s2.last()));
        assert(s3.drop_last() =~= t);
        assert(strip_seps(s3, 46) == strip_seps(t, 46));
        let st = strip_seps(t, 46);
        let ss = strip_seps(s, 46);
        assert(ss == st.push(s2.last()).push(s1.last()).push(s.last()));
        assert(ss.len() == st.len() + 3);
        assert forall|j: int| 0 <= j < ss.len() implies is_digit(#[trigger] ss[j]) by {
            if j < st.len() {
                assert(ss[j] == st[j]);
            }
        }
    }
}

/// Parses a thousands-separator literal ("1.234") by stripping the dots and
/// parsing the digits as a plain integer. Succeeds exactly on tokens of one
/// to three leading digits followed by one to five dot-separated groups of
/// exactly three digits; malformed grouping is rejected.
pub fn parse_grouped_integer(s: &[u8]) -> (r: Result<IntegerValue, RuleError>)
    ensures
        r is Ok <==> grouped_int_shape(s@),
        r matches Ok(v) ==> v.value == digits_int(strip_seps(s@, 46)) && !v.prefixed
            && !v.suffixed,
        r matches Err(e) ==> e == RuleError::MalformedNumericLiteral,
{
    let n = s.len();
    if n < 5 || n > 23 || n % 4 == 0 {
        return Err(RuleError::MalformedNumericLiteral);
    }
    let mut digits: Vec<u8> = Vec::new();
    let mut i: usize = 0;
    while i < n
        invariant
            0 <= i <= n == s@.len(),
            digits@ == strip_seps(s@.subrange(0, i as int), 46),
            forall|j: int| 0 <= j < i ==> #[trigger] grouped_byte_ok(s@, j),
        decreases n - i,
    {
        let ghost pre = s@.subrange(0, i as int);
        proof {
            assert(s@.subrange(0, i as int + 1).drop_last() =~= pre);
        }
        let b = s[i];
        if (n - i) % 4 == 0 {
            if b != 46 {
                proof {
                    assert(!grouped_byte_ok(s@, i as int));
                }
                return Err(RuleError::MalformedNumericLiteral);
            }
        } else {
            if b < 48 || b > 57 {
                proof {
                    assert(!grouped_byte_ok(s@, i as int));
                }
                return Err(RuleError::MalformedNumericLiteral);
            }
            digits.push(b);
        }
        i = i + 1;
    }
    proof {
        assert(s@.subrange(0, n as int) =~= s@);
        lemma_grouped_strip(s@);
    }
    match parse_integer_digits(digits.as_slice()) {
        Ok(iv) => Ok(iv),
        Err(_) => {
            proof {
                assert(false);
            }
            Err(RuleError::MalformedNumericLiteral)
        },
    }
}

/// How one position of the dot-grouped integer part of a grouped decimal
/// literal must look, measured from the decimal comma at position `c`: a dot
/// at every position whose distance to the comma is a multiple of four, a
/// digit everywhere else.
pub open spec fn group_byte_ok(s: Seq<u8>, c: int, i: int) -> bool {
    if (c - i) % 4 == 0 {
        s[i] == 46
    } else {
        is_digit(s[i])
    }
}

/// A dot four positions times `j` before the comma at `c`.
pub open spec fn dot_at(s: Seq<u8>, c: int, j: int) -> bool {
    s[c - 4 * j] == 46
}

/// A grouped decimal literal, witnessed by its comma position `c` and its
/// number of dot groups `k`: one or more leading digits, `k` groups of a dot
/// and exactly three digits, the decimal comma, and one or more fraction
/// digits.
pub open spec fn grouped_decimal_shape_at(s: Seq<u8>, c: int, k: int) -> bool {
    &&& 0 <= c < s.len() - 1
    &&& s[c] == 44
    &&& forall|i: int| c < i < s.len() ==> is_digit(#[trigger] s[i])
    &&& 1 <= k
    &&& c - 4 * k >= 1
    &&& forall|i: int| c - 4 * k <= i < c ==> #[trigger] group_byte_ok(s, c, i)
    &&& forall|i: int| 0 <= i < c - 4 * k ==> is_digit(#[trigger] s[i])
}

/// A grouped decimal literal: a dot-grouped integer part, the decimal comma,
/// and a fraction part.
pub open spec fn grouped_decimal_shape(s: Seq<u8>) -> bool {
    exists|c: int, k: int| grouped_decimal_shape_at(s, c, k)
}

/// The digits of a grouped decimal literal, with both separators removed.
pub open spec fn strip_grouped(s: Seq<u8>) -> Seq<u8> {
    strip_seps(strip_seps(s, 46), 44)
}

/// A well-shaped grouped decimal literal has exactly one comma: every other
/// position holds a digit or a dot.
proof fn lemma_shape_comma_unique(s: Seq<u8>, c: int, k: int, p: int)
    requires
        grouped_decimal_shape_at(s, c, k),
        0 <= p < s.len(),
        s[p] == 44,
    ensures
        p == c,
{
    if p != c {
        if p > c {
            assert(is_digit(s[p]));
        } else if p >= c - 4 * k {
            assert(group_byte_ok(s, c, p));
        } else {
            assert(is_digit(s[p]));
        }
    }
}

/// Parses a grouped decimal literal ("1.234,5"): the grouping dots are
/// stripped, the comma becomes the decimal point, and the result is the
/// exact decimal whose mantissa is the remaining digits and whose scale is
/// the number of fraction digits. Succeeds exactly on well-shaped literals
/// of at most 18 digits; a well-shaped literal with more digits is a
/// `NumericOverflow`, anything else a `MalformedNumericLiteral`.
pub fn parse_grouped_decimal(s: &[u8]) -> (r: Result<DecimalValue, RuleError>)
    ensures
        r is Ok <==> grouped_decimal_shape(s@) && strip_grouped(s@).len() <= 18,
        r matches Ok(v) ==> v.value.mantissa == digits_int(strip_grouped(s@)) && v.value.scale
            == tail_digit_len(s@) && !v.prefixed && !v.suffixed && v.value.wf(),
        r matches Err(e) ==> e == (if grouped_decimal_shape(s@) {
            RuleError::NumericOverflow
        } else {
            RuleError::MalformedNumericLiteral
        }),
{
    let n = s.len();
    let mut comma: usize = n;
    let mut i: usize = 0;
    while i < n
        invariant
            0 <= i <= n == s@.len(),
            comma <= n,
            comma == n ==> forall|j: int| 0 <= j < i ==> s@[j] != 44,
            comma < n ==> comma < i && s@[comma as int] == 44 && forall|j: int|
                0 <= j < i && j != comma ==> s@[j] != 44,
        decreases n - i,
    {
        if s[i] == 44 {
            if comma < n {
                proof {
                    if grouped_decimal_shape(s@) {
                        let (c, k): (int, int) = choose|c: int, k: int|
                            grouped_decimal_shape_at(s@, c, k);
                        lemma_shape_comma_unique(s@, c, k, comma as int);
                        lemma_shape_comma_unique(s@, c, k, i as int);
                    }
                }
                return Err(RuleError::MalformedNumericLiteral);
            }
            comma = i;
        }
        i = i + 1;
    }
    if comma == n || comma < 5 || comma >= n - 1 {
        proof {
            if grouped_decimal_shape(s@) {
                let (c, k): (int, int) = choose|c: int, k: int|
                    grouped_decimal_shape_at(s@, c, k);
                if comma < n {
                    lemma_shape_comma_unique(s@, c, k, comma as int);
                }
            }
        }
        return Err(RuleError::MalformedNumericLiteral);
    }
    let c = comma;
    // Every byte after the comma must be a fraction digit.
    let mut i: usize = c + 1;
    while i < n
        invariant
            c + 1 <= i <= n == s@.len(),
            c < n - 1,
            s@[c as int] == 44,
            forall|j: int| 0 <= j < n && j != c ==> s@[j] != 44,
            forall|j: int| c < j < i ==> is_digit(#[trigger] s@[j]),
        decreases n - i,
    {
        let b = s[i];
        if b < 48 || b > 57 {
            proof {
                if grouped_decimal_shape(s@) {
                    let (cw, kw): (int, int) = choose|cw: int, kw: int|
                        grouped_decimal_shape_at(s@, cw, kw);
                    lemma_shape_comma_unique(s@, cw, kw, c as int);
                }
            }
            return Err(RuleError::MalformedNumericLiteral);
        }
        i = i + 1;
    }
    // Count the dot groups walking back from the comma.
    if s[c - 4] != 46 {
        proof {
            if grouped_decimal_shape(s@) {
                let (cw, kw): (int, int) = choose|cw: int, kw: int|
                    grouped_decimal_shape_at(s@, cw, kw);
                lemma_shape_comma_unique(s@, cw, kw, c as int);
                assert(group_byte_ok(s@, cw, cw - 4));
            }
        }
        return Err(RuleError::MalformedNumericLiteral);
    }
    let mut groups: usize = 1;
    while c - 4 * groups >= 5 && s[c - 4 * (groups + 1)] == 46
        invariant
            1 <= groups,
            4 * groups < c < n == s@.len(),
            forall|j: int| 1 <= j <= groups ==> #[trigger] dot_at(s@, c as int, j),
        decreases c - groups,
    {
        groups = groups + 1;
    }
    let ghost stopped_low = 4 * (groups + 1) + 1 > c;
    let ghost kk = groups as int;
    proof {
        assert(stopped_low || s@[c - 4 * (kk + 1)] != 46);
    }
    // Validate the group region and the head, collecting nothing yet.
    let head = c - 4 * groups;
    let mut i: usize = 0;
    while i < c
        invariant
            0 <= i <= c < n == s@.len(),
            head == c - 4 * groups,
            1 <= head,
            kk == groups as int,
            4 * groups < c,
            s@[c as int] == 44,
            forall|j: int| 0 <= j < n && j != c ==> s@[j] != 44,
            forall|j: int| c < j < n ==> is_digit(#[trigger] s@[j]),
            forall|j: int| 1 <= j <= kk ==> #[trigger] dot_at(s@, c as int, j),
            stopped_low == (4 * (kk + 1) + 1 > c),
            stopped_low || s@[c - 4 * (kk + 1)] != 46,
            forall|j: int| 0 <= j < i && j < head ==> is_digit(#[trigger] s@[j]),
            forall|j: int| head <= j < i ==> #[trigger] group_byte_ok(s@, c as int, j),
        decreases c - i,
    {
        let b = s[i];
        let ok = if i >= head && (c - i) % 4 == 0 {
            b == 46
        } else {
            48 <= b && b <= 57
        };
        if !ok {
            proof {
                if grouped_decimal_shape(s@) {
                    let (cw, kw): (int, int) = choose|cw: int, kw: int|
                        grouped_decimal_shape_at(s@, cw, kw);
                    lemma_shape_comma_unique(s@, cw, kw, c as int);
                    if kw < kk {
                        assert(dot_at(s@, c as int, kw + 1));
                        assert(is_digit(s@[cw - 4 * (kw + 1)]));
                    } else if kw > kk {
                        assert(cw - 4 * kw >= 1);
                        assert(group_byte_ok(s@, cw, cw - 4 * (kk + 1)));
                    } else {
                        if i < head {
                            assert(is_digit(s@[i as int]));
                        } else {
                            assert(group_byte_ok(s@, cw, i as int));
                        }
                    }
                }
            }
            return Err(RuleError::MalformedNumericLiteral);
        }
        i = i + 1;
    }
    proof {
        assert(grouped_decimal_shape_at(s@, c as int, kk));
        assert forall|j: int| 0 <= j < n implies is_digit(#[trigger] s@[j]) || s@[j] == 44 || s@[j]
            == 46 by {
            if j > c {
            } else if j == c {
            } else if j >= head {
                assert(group_byte_ok(s@, c as int, j));
            } else {
                assert(is_digit(s@[j]));
            }
        }
    }
    // The shape holds; strip both separators and parse the digits.
    let mut digits: Vec<u8> = Vec::new();
    let mut fd: usize = 0;
    let mut i: usize = 0;
    while i < n
        invariant
            0 <= i <= n == s@.len(),
            digits@ == strip_seps(strip_seps(s@.subrange(0, i as int), 46), 44),
            all_digits(digits@),
            forall|j: int| 0 <= j < n ==> is_digit(#[trigger] s@[j]) || s@[j] == 44 || s@[j] == 46,
            forall|j: int| c < j < n ==> is_digit(#[trigger] s@[j]),
            grouped_decimal_shape_at(s@, c as int, kk),
            c < n - 1,
            fd == if i > c {
                i - 1 - c
            } else {
                0
            },
            fd <= digits@.len(),
        decreases n - i,
    {
        let ghost pre = s@.subrange(0, i as int);
        let ghost inner = strip_seps(pre, 46);
        proof {
            assert(s@.subrange(0, i as int + 1).drop_last() =~= pre);
            if s@[i as int] != 46 {
                assert(inner.push(s@[i as int]).drop_last() =~= inner);
            }
        }
        let b = s[i];
        if b != 44 && b != 46 {
            digits.push(b);
            if i > c {
                fd = fd + 1;
            }
        }
        i = i + 1;
    }
    proof {
        assert(s@.subrange(0, n as int) =~= s@);
        assert(s@.last() == s@[n - 1] && is_digit(s@.last()));
        assert(strip_seps(s@, 46).last() == s@.last());
        assert(strip_grouped(s@).last() == s@.last());
        assert(strip_grouped(s@).len() >= 1);
        assert forall|j: int| c < j < n implies is_digit(#[trigger] s@[j]) by {}
        lemma_tail_digit_len(s@, c as int);
    }
    if digits.len() > 18 {
        return Err(RuleError::NumericOverflow);
    }
    let scale: u32 = fd as u32;
    match parse_integer_digits(digits.as_slice()) {
        Ok(iv) => Ok(
            DecimalValue {
                value: Decimal { mantissa: iv.value, scale },
                prefixed: false,
                suffixed: false,
            },
        ),
        Err(_) => {
            proof {
                assert(false);
            }
            Err(RuleError::MalformedNumericLiteral)
        },
    }
}

/// A mathematical integer representable as an `i64`.
pub open spec fn in_i64(x: int) -> bool {
    i64::MIN <= x <= i64::MAX
}

/// The scale of a spoken-decimal composition: one more than the right
/// operand's scale (the right operand is shifted one decimal place down), or
/// the left operand's scale if that is already larger.
pub open spec fn point_scale(a: Decimal, b: Decimal) -> int {
    if a.scale >= b.scale + 1 {
        a.scale as int
    } else {
        b.scale + 1
    }
}

/// The mantissa of a spoken-decimal composition at the common scale: the
/// exact value `a + b / 10` times `10^point_scale(a, b)`.
pub open spec fn point_mantissa(a: Decimal, b: Decimal) -> int {
    a.mantissa * pow10((point_scale(a, b) - a.scale) as nat) + b.mantissa * pow10(
        (point_scale(a, b) - b.scale - 1) as nat,
    )
}

/// Spoken decimal composition ("number point number"): the right operand is
/// scaled by one tenth and added to the left, modeling single-digit-at-a-time
/// fractional speech. The left operand must not already carry a sign and the
/// right operand must not already carry a magnitude suffix.
///
/// This scheme only encodes a right operand that stands for a single leading
/// decimal digit correctly; a multi-digit right operand composes to a value
/// below its intended magnitude. That ambiguity is part of the grammar and is
/// deliberately not special-cased here.
pub fn compose_point(a: &NumberValue, b: &NumberValue) -> (r: Result<DecimalValue, RuleError>)
    requires
        a.wf(),
        b.wf(),
    ensures
        r is Err <==> a.spec_prefixed() || b.spec_suffixed() || point_scale(
            a.spec_dec(),
            b.spec_dec(),
        ) > 18 || !in_i64(
            a.spec_dec().mantissa * pow10(
                (point_scale(a.spec_dec(), b.spec_dec()) - a.spec_dec().scale) as nat,
            ),
        ) || !in_i64(
            b.spec_dec().mantissa * pow10(
                (point_scale(a.spec_dec(), b.spec_dec()) - b.spec_dec().scale - 1) as nat,
            ),
        ) || !in_i64(point_mantissa(a.spec_dec(), b.spec_dec())),
        r matches Ok(v) ==> v == (DecimalValue {
            value: Decimal {
                mantissa: point_mantissa(a.spec_dec(), b.spec_dec()) as i64,
                scale: point_scale(a.spec_dec(), b.spec_dec()) as u32,
            },
            prefixed: false,
            suffixed: false,
        }) && v.value.mantissa == point_mantissa(a.spec_dec(), b.spec_dec()) && v.value.wf(),
        r matches Err(e) ==> e == (if a.spec_prefixed() || b.spec_suffixed() {
            RuleError::InvalidComposition
        } else {
            RuleError::NumericOverflow
        }),
{
    if a.prefixed() || b.suffixed() {
        return Err(RuleError::InvalidComposition);
    }
    let da = a.dec();
    let db = b.dec();
    let rs: u32 = if da.scale >= db.scale + 1 {
        da.scale
    } else {
        db.scale + 1
    };
    if rs > 18 {
        return Err(RuleError::NumericOverflow);
    }
    let f1 = pow10_i64(rs - da.scale);
    let f2 = pow10_i64(rs - db.scale - 1);
    match da.mantissa.checked_mul(f1) {
        None => Err(RuleError::NumericOverflow),
        Some(t1) => match db.mantissa.checked_mul(f2) {
            None => Err(RuleError::NumericOverflow),
            Some(t2) => match t1.checked_add(t2) {
                None => Err(RuleError::NumericOverflow),
                Some(m) => Ok(DecimalValue::new(Decimal { mantissa: m, scale: rs })),
            },
        },
    }
}

/// The decimal exponent a magnitude-suffix letter stands for: K, M and G
/// multiply by one thousand, one million and one billion.
pub open spec fn spec_magnitude_exp(suffix: u8) -> Option<u32> {
    if suffix == 107 {
        Some(3u32)
    } else if suffix == 109 {
        Some(6u32)
    } else if suffix == 103 {
        Some(9u32)
    } else {
        None
    }
}

/// The multiplier a magnitude-suffix letter stands for, or
/// `UnrecognizedLiteral` for any other byte.
pub fn magnitude_multiplier(suffix: u8) -> (r: Result<i64, RuleError>)
    ensures
        r == match spec_magnitude_exp(suffix) {
            Option::Some(e) => Ok::<i64, RuleError>(pow10(e as nat) as i64),
            Option::None => Err::<i64, RuleError>(RuleError::UnrecognizedLiteral),
        },
{
    proof {
        reveal_with_fuel(pow10, 10);
    }
    if suffix == 107 {
        Ok(1000)
    } else if suffix == 109 {
        Ok(1000000)
    } else if suffix == 103 {
        Ok(1000000000)
    } else {
        Err(RuleError::UnrecognizedLiteral)
    }
}

/// The exact result of applying a magnitude suffix to a number.
///
/// A number that already carries a suffix is rejected, so the rule cannot
/// match its own output. An integer is multiplied outright. A decimal is
/// multiplied exactly; when the product is a whole number the result narrows
/// to an integer (with the fresh-integer default of an unset sign flag, as a
/// narrowed product is a new span), otherwise it stays a decimal with its
/// scale reduced by the suffix exponent.
pub open spec fn spec_apply_suffix(n: NumberValue, suffix: u8) -> Result<NumberValue, RuleError> {
    if n.spec_suffixed() {
        Err(RuleError::InvalidComposition)
    } else {
        match spec_magnitude_exp(suffix) {
            Option::None => Err(RuleError::UnrecognizedLiteral),
            Option::Some(k) => match n {
                NumberValue::Integer(i) => {
                    let p = i.value * pow10(k as nat);
                    if in_i64(p) {
                        Ok(
                            NumberValue::Integer(
                                IntegerValue { value: p as i64, prefixed: i.prefixed, suffixed: true },
                            ),
                        )
                    } else {
                        Err(RuleError::NumericOverflow)
                    }
                },
                NumberValue::Decimal(d) => {
                    if d.value.scale <= k {
                        let p = d.value.mantissa * pow10((k - d.value.scale) as nat);
                        if in_i64(p) {
                            Ok(
                                NumberValue::Integer(
                                    IntegerValue { value: p as i64, prefixed: false, suffixed: true },
                                ),
                            )
                        } else {
                            Err(RuleError::NumericOverflow)
                        }
                    } else {
                        let f = pow10((d.value.scale - k) as nat);
                        if d.value.mantissa as int % f == 0 {
                            Ok(
                                NumberValue::Integer(
                                    IntegerValue {
                                        value: (d.value.mantissa as int / f) as i64,
                                        prefixed: false,
                                        suffixed: true,
                                    },
                                ),
                            )
                        } else {
                            Ok(
                                NumberValue::Decimal(
                                    DecimalValue {
                                        value: Decimal {
                                            mantissa: d.value.mantissa,
                                            scale: (d.value.scale - k) as u32,
                                        },
                                        prefixed: d.prefixed,
                                        suffixed: true,
                                    },
                                ),
                            )
                        }
                    }
                },
            },
        }
    }
}

/// Divisibility and exact quotients carry over between a negative integer and
/// its magnitude.
proof fn lemma_neg_div_mod(m: int, f: int)
    requires
        f >= 1,
        m < 0,
    ensures
        (-m) % f == 0 ==> m % f == 0 && m / f == -((-m) / f),
        (-m) % f != 0 ==> m % f != 0,
{
    let na = -m;
    lemma_fundamental_div_mod(na, f);
    let q = na / f;
    let rr = na % f;
    if rr == 0 {
        assert(m == (-q) * f + 0) by (nonlinear_arith)
            requires
                na == f * q + rr,
                m == -na,
                rr == 0,
        ;
        lemma_fundamental_div_mod_converse(m, f, -q, 0);
    } else {
        assert(m == (-q - 1) * f + (f - rr)) by (nonlinear_arith)
            requires
                na == f * q + rr,
                m == -na,
        ;
        lemma_fundamental_div_mod_converse(m, f, -q - 1, f - rr);
    }
}

/// Magnitude suffix (K, M, G): multiplies a number that does not already
/// carry a suffix by the suffix's power of ten, narrowing an exact whole
/// product back to an integer. See [`spec_apply_suffix`] for the full result.
pub fn apply_suffix(n: &NumberValue, suffix: u8) -> (r: Result<NumberValue, RuleError>)
    requires
        n.wf(),
    ensures
        r == spec_apply_suffix(*n, suffix),
        r matches Ok(v) ==> v.wf() && v.spec_suffixed(),
{
    if n.suffixed() {
        return Err(RuleError::InvalidComposition);
    }
    let k: u32 = if suffix == 107 {
        3
    } else if suffix == 109 {
        6
    } else if suffix == 103 {
        9
    } else {
        return Err(RuleError::UnrecognizedLiteral);
    };
    match n {
        NumberValue::Integer(i) => {
            let mult = pow10_i64(k);
            match i.value.checked_mul(mult) {
                None => Err(RuleError::NumericOverflow),
                Some(p) => Ok(
                    NumberValue::Integer(
                        IntegerValue { value: p, prefixed: i.prefixed, suffixed: true },
                    ),
                ),
            }
        },
        NumberValue::Decimal(d) => {
            let m = d.value.mantissa;
            if d.value.scale <= k {
                let mult = pow10_i64(k - d.value.scale);
                match m.checked_mul(mult) {
                    None => Err(RuleError::NumericOverflow),
                    Some(p) => Ok(
                        NumberValue::Integer(
                            IntegerValue { value: p, prefixed: false, suffixed: true },
                        ),
                    ),
                }
            } else {
                let f = pow10_i64(d.value.scale - k);
                proof {
                    lemma_pow10_pos((d.value.scale - k) as nat);
                }
                let na: u64 = if m >= 0 {
                    m as u64
                } else {
                    ((-(m + 1)) as u64) + 1
                };
                let fu = f as u64;
                proof {
                    assert(na == if m >= 0 {
                        m as int
                    } else {
                        -(m as int)
                    });
                }
                proof {
                    reveal_with_fuel(pow10, 2);
                    lemma_pow10_increases(1, (d.value.scale - k) as nat);
                    assert(pow10(1) == 10);
                }
                if na % fu == 0 {
                    let q = na / fu;
                    proof {
                        lemma_fundamental_div_mod(na as int, fu as int);
                        assert(na as int == fu as int * q as int);
                        assert(q as int <= 0x7fff_ffff_ffff_ffff) by (nonlinear_arith)
                            requires
                                na as int == fu as int * q as int,
                                fu >= 10,
                                q >= 0,
                                na as int <= 0x1_0000_0000_0000_0000,
                        ;
                        if m < 0 {
                            lemma_neg_div_mod(m as int, f as int);
                        }
                    }
                    let v: i64 = if m >= 0 {
                        q as i64
                    } else {
                        -(q as i64)
                    };
                    Ok(
                        NumberValue::Integer(
                            IntegerValue { value: v, prefixed: false, suffixed: true },
                        ),
                    )
                } else {
                    proof {
                        if m < 0 {
                            lemma_neg_div_mod(m as int, f as int);
                        }
                    }
                    Ok(
                        NumberValue::Decimal(
                            DecimalValue {
                                value: Decimal { mantissa: m, scale: d.value.scale - k },
                                prefixed: d.prefixed,
                                suffixed: true,
                            },
                        ),
                    )
                }
            }
        },
    }
}

} // verus!
