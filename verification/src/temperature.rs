//! The temperature composer: promotes a latent numeric value into a
//! temperature once a disambiguating token appears, and applies the
//! below-zero modifier.

use vstd::prelude::*;
use crate::values::{Decimal, NumberValue, TemperatureUnit, TemperatureValue};

verus! {

/// A bare number as a temperature candidate: still latent (no unit token has
/// confirmed it), carrying the number's exact value.
pub fn number_as_temperature(n: &NumberValue) -> (r: TemperatureValue)
    ensures
        r == (TemperatureValue { value: n.spec_dec(), unit: Option::None, latent: true }),
{
    TemperatureValue { value: n.dec(), unit: None, latent: true }
}

/// A temperature followed by a unit token: the matched token's unit is
/// attached and the value stops being latent. The same reduction serves the
/// generic degree token and the Celsius and Fahrenheit variants.
pub fn with_unit(t: &TemperatureValue, unit: TemperatureUnit) -> (r: TemperatureValue)
    ensures
        r == (TemperatureValue { value: t.value, unit: Option::Some(unit), latent: false }),
{
    TemperatureValue { value: t.value, unit: Some(unit), latent: false }
}

/// The below-zero modifier: negates the temperature's value, keeps whatever
/// unit the operand already carries, and clears the latent flag. It composes
/// with the result of the unit rules, not only with bare latent numbers, and
/// it negates unconditionally: applied to a temperature that is already
/// negative it yields the positive value.
pub fn below_zero(t: &TemperatureValue) -> (r: TemperatureValue)
    requires
        t.value.mantissa != i64::MIN,
    ensures
        r == (TemperatureValue {
            value: Decimal { mantissa: (-t.value.mantissa) as i64, scale: t.value.scale },
            unit: t.unit,
            latent: false,
        }),
{
    TemperatureValue {
        value: Decimal { mantissa: -t.value.mantissa, scale: t.value.scale },
        unit: t.unit,
        latent: false,
    }
}

} // verus!
