use ontology_rules::numbers::{
    apply_suffix, compose_hundreds, compose_point, compose_teen, compose_tens_units,
    magnitude_multiplier, negate, parse_decimal, parse_grouped_decimal, parse_grouped_integer,
    parse_integer_digits,
};
use ontology_rules::es::{
    compound_teens_literal, hundreds_literal, ordinal_literal, small_integer_literal, tens_literal,
};
use ontology_rules::values::{Decimal, DecimalValue, IntegerValue, NumberValue, RuleError};

fn int_value(v: i64) -> NumberValue {
    NumberValue::Integer(IntegerValue {
        value: v,
        prefixed: false,
        suffixed: false,
    })
}

fn dec(mantissa: i64, scale: u32) -> NumberValue {
    NumberValue::Decimal(DecimalValue {
        value: Decimal { mantissa, scale },
        prefixed: false,
        suffixed: false,
    })
}

#[test]
fn units_words() {
    let table = [
        ("cero", 0),
        ("zero", 0),
        ("un", 1),
        ("uno", 1),
        ("una", 1),
        ("dos", 2),
        ("tres", 3),
        ("trés", 3),
        ("cuatro", 4),
        ("cinco", 5),
        ("seis", 6),
        ("séis", 6),
        ("siete", 7),
        ("ocho", 8),
        ("nueve", 9),
        ("diez", 10),
        ("dies", 10),
        ("once", 11),
        ("doce", 12),
        ("trece", 13),
        ("catorce", 14),
        ("quince", 15),
    ];
    for (w, v) in table {
        assert_eq!(small_integer_literal(w).unwrap().value, v);
    }
    assert_eq!(
        small_integer_literal("foo"),
        Err(RuleError::UnrecognizedLiteral)
    );
}

#[test]
fn tens_words() {
    let table = [
        ("veinte", 20),
        ("treinta", 30),
        ("cuarenta", 40),
        ("cincuenta", 50),
        ("sesenta", 60),
        ("setenta", 70),
        ("ochenta", 80),
        ("noventa", 90),
    ];
    for (w, v) in table {
        assert_eq!(tens_literal(w).unwrap().value, v);
    }
    assert_eq!(tens_literal("diez"), Err(RuleError::UnrecognizedLiteral));
}

#[test]
fn compound_teens_words() {
    assert_eq!(compound_teens_literal("dieciséis").unwrap().value, 16);
    assert_eq!(compound_teens_literal("veintinueve").unwrap().value, 29);
    assert_eq!(compound_teens_literal("veintitrés").unwrap().value, 23);
    assert_eq!(
        compound_teens_literal("veinte"),
        Err(RuleError::UnrecognizedLiteral)
    );
}

// Every two-part composition in [0, 99] equals the sum of its parts.
#[test]
fn composition_is_sum_full_sweep() {
    for base in 0..=10 {
        for units in 6..=9 {
            let r = compose_teen(&IntegerValue::new(base), &IntegerValue::new(units)).unwrap();
            assert_eq!(r.value, base + units);
        }
    }
    for tens in [20, 30, 40, 50, 60, 70, 80, 90] {
        for units in 1..=9 {
            let r = compose_tens_units(&IntegerValue::new(tens), &IntegerValue::new(units))
                .unwrap();
            assert_eq!(r.value, tens + units);
        }
    }
    // "treinta y cinco" -> 35, "diez y siete" -> 17
    let treinta = tens_literal("treinta").unwrap();
    let cinco = small_integer_literal("cinco").unwrap();
    assert_eq!(compose_tens_units(&treinta, &cinco).unwrap().value, 35);
    let diez = small_integer_literal("diez").unwrap();
    let siete = small_integer_literal("siete").unwrap();
    assert_eq!(compose_teen(&diez, &siete).unwrap().value, 17);
}

#[test]
fn composition_guards() {
    assert_eq!(
        compose_teen(&IntegerValue::new(11), &IntegerValue::new(7)),
        Err(RuleError::InvalidComposition)
    );
    assert_eq!(
        compose_tens_units(&IntegerValue::new(25), &IntegerValue::new(1)),
        Err(RuleError::InvalidComposition)
    );
    assert_eq!(
        compose_hundreds(
            &IntegerValue::new(1),
            &IntegerValue::new(100),
            &IntegerValue::new(0)
        ),
        Err(RuleError::InvalidComposition)
    );
    assert_eq!(
        compose_hundreds(
            &IntegerValue::new(10),
            &IntegerValue::new(100),
            &IntegerValue::new(0)
        ),
        Err(RuleError::InvalidComposition)
    );
}

// The hundreds-composition path and the literal-token path agree wherever
// both grammars can express the value.
#[test]
fn hundreds_paths_agree() {
    let words = [
        (2, "doscientos"),
        (3, "trescientos"),
        (4, "cuatrocientos"),
        (5, "quinientos"),
        (6, "seiscientos"),
        (7, "setecientos"),
        (8, "ochocientos"),
        (9, "novecientos"),
    ];
    let cien = hundreds_literal("cientos").unwrap();
    for (m, w) in words {
        let lit = hundreds_literal(w).unwrap();
        for rest in 0..=99 {
            let composed = compose_hundreds(
                &IntegerValue::new(m),
                &cien,
                &IntegerValue::new(rest),
            )
            .unwrap();
            assert_eq!(composed.value, lit.value + rest);
            assert_eq!(composed.value, m * 100 + rest);
        }
    }
    assert_eq!(hundreds_literal("mil").unwrap().value, 1000);
}

#[test]
fn digit_literals() {
    assert_eq!(parse_integer_digits(b"0").unwrap().value, 0);
    assert_eq!(parse_integer_digits(b"100000").unwrap().value, 100000);
    assert_eq!(
        parse_integer_digits(b"999999999999999999").unwrap().value,
        999_999_999_999_999_999
    );
    assert_eq!(
        parse_integer_digits(b"9999999999999999999"),
        Err(RuleError::NumericOverflow)
    );
    assert_eq!(
        parse_integer_digits(b"12a"),
        Err(RuleError::MalformedNumericLiteral)
    );
    assert_eq!(
        parse_integer_digits(b""),
        Err(RuleError::MalformedNumericLiteral)
    );
}

// Decimal parsing round-trip: "3,5" -> 3.5; "1.234" -> integer 1234;
// "1.234,5" -> 1234.5.
#[test]
fn decimal_round_trip() {
    let d = parse_decimal(b"3,5").unwrap();
    assert_eq!((d.value.mantissa, d.value.scale), (35, 1));
    assert_eq!(d.value.mantissa as f64 / 10f64.powi(d.value.scale as i32), 3.5);

    let i = parse_grouped_integer(b"1.234").unwrap();
    assert_eq!(i.value, 1234);

    let g = parse_grouped_decimal(b"1.234,5").unwrap();
    assert_eq!((g.value.mantissa, g.value.scale), (12345, 1));
    assert_eq!(g.value.mantissa as f64 / 10f64.powi(g.value.scale as i32), 1234.5);
}

#[test]
fn decimal_edge_cases() {
    let d = parse_decimal(b",5").unwrap();
    assert_eq!((d.value.mantissa, d.value.scale), (5, 1));
    assert_eq!(
        parse_decimal(b"3,"),
        Err(RuleError::MalformedNumericLiteral)
    );
    assert_eq!(
        parse_decimal(b"3,5,5"),
        Err(RuleError::MalformedNumericLiteral)
    );
    assert_eq!(
        parse_decimal(b"35"),
        Err(RuleError::MalformedNumericLiteral)
    );
    assert_eq!(
        parse_decimal(b"1234567890,123456789"),
        Err(RuleError::NumericOverflow)
    );
}

#[test]
fn grouped_literals_reject_malformed_grouping() {
    assert_eq!(
        parse_grouped_integer(b"1.23"),
        Err(RuleError::MalformedNumericLiteral)
    );
    assert_eq!(
        parse_grouped_integer(b"1234.567"),
        Err(RuleError::MalformedNumericLiteral)
    );
    assert_eq!(
        parse_grouped_integer(b"1234"),
        Err(RuleError::MalformedNumericLiteral)
    );
    assert_eq!(parse_grouped_integer(b"12.345.678").unwrap().value, 12_345_678);
    assert_eq!(
        parse_grouped_decimal(b"1.23,5"),
        Err(RuleError::MalformedNumericLiteral)
    );
    assert_eq!(
        parse_grouped_decimal(b"1234,5"),
        Err(RuleError::MalformedNumericLiteral)
    );
    let wide = parse_grouped_decimal(b"1234.567,8").unwrap();
    assert_eq!((wide.value.mantissa, wide.value.scale), (12345678, 1));
}

// Spoken decimal composition: "tres punto cinco" = 3 + 5 * 0.1 = 3.5.
#[test]
fn spoken_decimal_composition() {
    let r = compose_point(&int_value(3), &int_value(5)).unwrap();
    assert_eq!((r.value.mantissa, r.value.scale), (35, 1));
    // the right operand is scaled one place down, even when itself decimal
    let r2 = compose_point(&int_value(3), &dec(55, 1)).unwrap();
    assert_eq!((r2.value.mantissa, r2.value.scale), (355, 2));
    // a signed left operand does not match
    let minus3 = negate(&int_value(3)).unwrap();
    assert_eq!(
        compose_point(&minus3, &int_value(5)),
        Err(RuleError::InvalidComposition)
    );
}

// Sign negation is guarded against double application.
#[test]
fn negation_applies_once() {
    let minus5 = negate(&int_value(5)).unwrap();
    match minus5 {
        NumberValue::Integer(i) => {
            assert_eq!(i.value, -5);
            assert!(i.prefixed);
        }
        NumberValue::Decimal(_) => panic!("variant must be preserved"),
    }
    assert_eq!(negate(&minus5), Err(RuleError::InvalidComposition));

    let minus_dec = negate(&dec(35, 1)).unwrap();
    match minus_dec {
        NumberValue::Decimal(d) => {
            assert_eq!((d.value.mantissa, d.value.scale), (-35, 1));
            assert!(d.prefixed);
        }
        NumberValue::Integer(_) => panic!("variant must be preserved"),
    }
    assert_eq!(negate(&minus_dec), Err(RuleError::InvalidComposition));
}

// The magnitude suffix multiplies once and only once.
#[test]
fn magnitude_suffix() {
    assert_eq!(magnitude_multiplier(b'k').unwrap(), 1000);
    assert_eq!(magnitude_multiplier(b'm').unwrap(), 1_000_000);
    assert_eq!(magnitude_multiplier(b'g').unwrap(), 1_000_000_000);
    assert_eq!(
        magnitude_multiplier(b'x'),
        Err(RuleError::UnrecognizedLiteral)
    );

    let r = apply_suffix(&int_value(100), b'k').unwrap();
    match r {
        NumberValue::Integer(i) => {
            assert_eq!(i.value, 100_000);
            assert!(i.suffixed);
        }
        NumberValue::Decimal(_) => panic!("integer stays integer"),
    }
    // a value already suffixed must not match again
    assert_eq!(apply_suffix(&r, b'k'), Err(RuleError::InvalidComposition));
    // overflow drops the candidate
    assert_eq!(
        apply_suffix(&int_value(999_999_999_999_999_999), b'g'),
        Err(RuleError::NumericOverflow)
    );
}

// A decimal whose suffixed product is whole narrows to an integer; one whose
// product stays fractional keeps the decimal variant.
#[test]
fn suffix_narrows_whole_products() {
    // 3.5 k = 3500, a whole number
    let narrowed = apply_suffix(&dec(35, 1), b'k').unwrap();
    match narrowed {
        NumberValue::Integer(i) => {
            assert_eq!(i.value, 3500);
            assert!(i.suffixed);
            assert!(!i.prefixed);
        }
        NumberValue::Decimal(_) => panic!("whole product must narrow"),
    }
    // 0.0001234 k = 0.1234, still fractional
    let kept = apply_suffix(&dec(1234, 7), b'k').unwrap();
    match kept {
        NumberValue::Decimal(d) => {
            assert_eq!((d.value.mantissa, d.value.scale), (1234, 4));
            assert!(d.suffixed);
        }
        NumberValue::Integer(_) => panic!("fractional product must stay decimal"),
    }
}
