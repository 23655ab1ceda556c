use ontology_rules::cycles::{
    cycle_after, cycle_before, future_cycles, last_cycle, next_cycle, ordinal_quarter,
    ordinal_quarter_of_year, past_cycles, this_cycle, CycleAnchor, TimeRef,
};
use ontology_rules::es::{cycle_word, ordinal_literal, temperature_unit_word};
use ontology_rules::temperature::{below_zero, number_as_temperature, with_unit};
use ontology_rules::numbers::negate;
use ontology_rules::values::{
    CycleValue, Grain, IntegerValue, NumberValue, OrdinalValue, RuleError, TemperatureUnit,
};

fn int_value(v: i64) -> NumberValue {
    NumberValue::Integer(IntegerValue {
        value: v,
        prefixed: false,
        suffixed: false,
    })
}

#[test]
fn cycle_words() {
    assert_eq!(cycle_word("semana").unwrap().grain, Grain::Week);
    assert_eq!(cycle_word("semanas").unwrap().grain, Grain::Week);
    assert_eq!(cycle_word("mes").unwrap().grain, Grain::Month);
    assert_eq!(cycle_word("meses").unwrap().grain, Grain::Month);
    assert_eq!(cycle_word("año").unwrap().grain, Grain::Year);
    assert_eq!(cycle_word("anos").unwrap().grain, Grain::Year);
    assert_eq!(cycle_word("día").unwrap().grain, Grain::Day);
    assert_eq!(cycle_word("trimestre").unwrap().grain, Grain::Quarter);
    assert_eq!(cycle_word("hora").unwrap().grain, Grain::Hour);
    assert_eq!(cycle_word("minutos").unwrap().grain, Grain::Minute);
    assert_eq!(cycle_word("segundos").unwrap().grain, Grain::Second);
    assert_eq!(cycle_word("siglo"), Err(RuleError::UnrecognizedLiteral));
}

// "this week" -> offset 0 on Week; "last month" -> -1 on Month;
// "next year" -> +1 on Year; "3 weeks ago" -> -3 on Week, not immediate.
#[test]
fn cycle_offsets() {
    let week = cycle_word("semana").unwrap();
    let this = this_cycle(&week);
    assert_eq!(this.grain, Grain::Week);
    assert_eq!(this.offset, 0);
    assert_eq!(this.anchor, CycleAnchor::Now);
    assert!(!this.not_immediate);

    let month = cycle_word("mes").unwrap();
    let last = last_cycle(&month);
    assert_eq!(last.grain, Grain::Month);
    assert_eq!(last.offset, -1);

    let year = cycle_word("año").unwrap();
    let next = next_cycle(&year);
    assert_eq!(next.grain, Grain::Year);
    assert_eq!(next.offset, 1);

    let ago = past_cycles(&IntegerValue::new(3), &week).unwrap();
    assert_eq!(ago.grain, Grain::Week);
    assert_eq!(ago.offset, -3);
    assert!(ago.not_immediate);
    // the adjacent rule's range never overlaps the N-cycle rule's range
    assert_eq!(
        past_cycles(&IntegerValue::new(1), &week),
        Err(RuleError::InvalidComposition)
    );
    assert_eq!(
        future_cycles(&IntegerValue::new(10000), &week),
        Err(RuleError::InvalidComposition)
    );
    let hence = future_cycles(&IntegerValue::new(2), &month).unwrap();
    assert_eq!(hence.offset, 2);
    assert!(hence.not_immediate);
}

#[test]
fn anchored_cycles() {
    let day = CycleValue::new(Grain::Day);
    let anchor = TimeRef { id: 7 };
    let after = cycle_after(&day, &anchor);
    assert_eq!(after.offset, 1);
    assert_eq!(after.anchor, CycleAnchor::Time(anchor));
    let before = cycle_before(&day, &anchor);
    assert_eq!(before.offset, -1);
    assert_eq!(before.anchor, CycleAnchor::Time(anchor));
}

// Ordinal 2 + Quarter + no explicit year -> second quarter of the current
// year; ordinal 3 + Quarter + explicit year -> third quarter of that year.
#[test]
fn quarter_of_year() {
    let quarter = cycle_word("trimestre").unwrap();
    let second = ordinal_literal("segundo").unwrap();
    let q2 = ordinal_quarter(&second, &quarter).unwrap();
    assert_eq!(q2.grain, Grain::Quarter);
    assert_eq!(q2.offset, 1);
    assert_eq!(q2.anchor, CycleAnchor::CurrentYear);

    let third = ordinal_literal("tercer").unwrap();
    let year = TimeRef { id: 2013 };
    let q3 = ordinal_quarter_of_year(&third, &quarter, &year).unwrap();
    assert_eq!(q3.offset, 2);
    assert_eq!(q3.anchor, CycleAnchor::Time(year));

    // the rule only matches the Quarter grain and ranks from 1 up
    let week = cycle_word("semana").unwrap();
    assert_eq!(
        ordinal_quarter(&second, &week),
        Err(RuleError::InvalidComposition)
    );
    assert_eq!(
        ordinal_quarter(&OrdinalValue { value: 0 }, &quarter),
        Err(RuleError::InvalidComposition)
    );
}

#[test]
fn ordinal_words() {
    assert_eq!(ordinal_literal("primer").unwrap().value, 1);
    assert_eq!(ordinal_literal("primeras").unwrap().value, 1);
    assert_eq!(ordinal_literal("décima").unwrap().value, 10);
    assert_eq!(ordinal_literal("decimos").unwrap().value, 10);
    assert_eq!(ordinal_literal("séptimo").unwrap().value, 7);
    assert_eq!(ordinal_literal("noveno").unwrap().value, 9);
    assert_eq!(ordinal_literal("onceavo"), Err(RuleError::UnrecognizedLiteral));
}

// A bare number is latent until a unit token confirms it.
#[test]
fn bare_number_is_latent() {
    let t = number_as_temperature(&int_value(20));
    assert!(t.latent);
    assert_eq!(t.unit, None);
    assert_eq!((t.value.mantissa, t.value.scale), (20, 0));

    let unit = temperature_unit_word("grados").unwrap();
    assert_eq!(unit, TemperatureUnit::Degree);
    let with_degree = with_unit(&t, unit);
    assert!(!with_degree.latent);
    assert_eq!(with_degree.unit, Some(TemperatureUnit::Degree));
}

#[test]
fn temperature_unit_words() {
    assert_eq!(
        temperature_unit_word("°").unwrap(),
        TemperatureUnit::Degree
    );
    assert_eq!(
        temperature_unit_word("centígrados").unwrap(),
        TemperatureUnit::Celsius
    );
    assert_eq!(temperature_unit_word("c").unwrap(), TemperatureUnit::Celsius);
    assert_eq!(
        temperature_unit_word("celsius").unwrap(),
        TemperatureUnit::Celsius
    );
    assert_eq!(
        temperature_unit_word("fahrenheit").unwrap(),
        TemperatureUnit::Fahrenheit
    );
    assert_eq!(temperature_unit_word("f.").unwrap(), TemperatureUnit::Fahrenheit);
    assert_eq!(
        temperature_unit_word("kelvin"),
        Err(RuleError::UnrecognizedLiteral)
    );
}

// "20 grados bajo cero" -> value -20, unit Degree, not latent.
#[test]
fn below_zero_after_unit() {
    let t = number_as_temperature(&int_value(20));
    let degrees = with_unit(&t, TemperatureUnit::Degree);
    let below = below_zero(&degrees);
    assert_eq!((below.value.mantissa, below.value.scale), (-20, 0));
    assert_eq!(below.unit, Some(TemperatureUnit::Degree));
    assert!(!below.latent);

    // it also composes with a bare latent number
    let bare_below = below_zero(&t);
    assert_eq!(bare_below.value.mantissa, -20);
    assert_eq!(bare_below.unit, None);
    assert!(!bare_below.latent);
}

// Pinned policy for an already negative temperature: the below-zero modifier
// negates unconditionally, so "-10 C" followed by "bajo cero" yields +10 C.
#[test]
fn below_zero_on_negative_temperature() {
    let minus10 = negate(&int_value(10)).unwrap();
    let t = number_as_temperature(&minus10);
    assert_eq!(t.value.mantissa, -10);
    let celsius = with_unit(&t, TemperatureUnit::Celsius);
    let below = below_zero(&celsius);
    assert_eq!(below.value.mantissa, 10);
    assert_eq!(below.unit, Some(TemperatureUnit::Celsius));
    assert!(!below.latent);
}
