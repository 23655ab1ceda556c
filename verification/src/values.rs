//! Core value types produced by rule reductions.
//!
//! Every value is created by one rule reduction over already-reduced child
//! spans and is immutable afterwards; composition always builds a new value.
//! The `prefixed` / `suffixed` / `latent` flags are idempotence guards: they
//! record that a class of transformation (sign, magnitude suffix, dimension
//! promotion) has already been applied to the span, so the same rule cannot
//! match its own output a second time.

use vstd::prelude::*;

verus! {

/// Calendar granularity, ordered from finest to coarsest.
#[derive(Clone, Copy, Debug, PartialEq, Eq, Structural)]
pub enum Grain {
    Second,
    Minute,
    Hour,
    Day,
    Week,
    Month,
    Quarter,
    Year,
}

/// Why a rule reduction rejected its input. Every error is local to one
/// candidate span: the candidate is dropped and other interpretations of the
/// sentence are still attempted.
#[derive(Clone, Copy, Debug, PartialEq, Eq, Structural)]
pub enum RuleError {
    /// A recognizer's captured text is not in its literal table.
    UnrecognizedLiteral,
    /// A numeric-literal token does not have the shape the rule expects.
    MalformedNumericLiteral,
    /// A numeric literal or product exceeds the representable integer range.
    NumericOverflow,
    /// An operand violates a composer's precondition (the rule does not match).
    InvalidComposition,
}

/// An exact decimal number: the rational value `mantissa / 10^scale`.
///
/// Non-integral values are kept exact, so that narrowing back to an integer
/// (after a magnitude suffix) is decided by divisibility, never by rounding.
#[derive(Clone, Copy, Debug, PartialEq, Eq, Structural)]
pub struct Decimal {
    pub mantissa: i64,
    pub scale: u32,
}

/// 10 raised to the power `e`.
pub open spec fn pow10(e: nat) -> int
    decreases e,
{
    if e == 0 {
        1
    } else {
        10 * pow10((e - 1) as nat)
    }
}

impl Decimal {
    /// A decimal is well formed when its scale stays within the range the
    /// library's 64-bit arithmetic can renormalize (`10^scale` fits in `i64`).
    pub open spec fn wf(self) -> bool {
        self.scale <= 18
    }
}

/// An integral number. `value` is immutable once constructed.
#[derive(Clone, Copy, Debug, PartialEq, Eq, Structural)]
pub struct IntegerValue {
    pub value: i64,
    /// A sign has already been applied to this span.
    pub prefixed: bool,
    /// A magnitude multiplier has already been applied to this span.
    pub suffixed: bool,
}

impl IntegerValue {
    /// A fresh integer with no transformation applied yet.
    pub fn new(value: i64) -> (r: IntegerValue)
        ensures
            r == (IntegerValue { value, prefixed: false, suffixed: false }),
    {
        IntegerValue { value, prefixed: false, suffixed: false }
    }
}

/// A non-integral number, carried as an exact decimal.
#[derive(Clone, Copy, Debug, PartialEq, Eq, Structural)]
pub struct DecimalValue {
    pub value: Decimal,
    /// A sign has already been applied to this span.
    pub prefixed: bool,
    /// A magnitude multiplier has already been applied to this span.
    pub suffixed: bool,
}

impl DecimalValue {
    /// A fresh decimal with no transformation applied yet.
    pub fn new(value: Decimal) -> (r: DecimalValue)
        ensures
            r == (DecimalValue { value, prefixed: false, suffixed: false }),
    {
        DecimalValue { value, prefixed: false, suffixed: false }
    }
}

/// Tagged union over integral and decimal numbers. Numeric rules operate
/// polymorphically over this union and preserve the variant, except where an
/// operation explicitly narrows a decimal that became whole to an integer.
#[derive(Clone, Copy, Debug, PartialEq, Eq, Structural)]
pub enum NumberValue {
    Integer(IntegerValue),
    Decimal(DecimalValue),
}

impl NumberValue {
    /// Whether a sign has already been applied to this number.
    pub open spec fn spec_prefixed(self) -> bool {
        match self {
            NumberValue::Integer(i) => i.prefixed,
            NumberValue::Decimal(d) => d.prefixed,
        }
    }

    /// Whether a magnitude multiplier has already been applied.
    pub open spec fn spec_suffixed(self) -> bool {
        match self {
            NumberValue::Integer(i) => i.suffixed,
            NumberValue::Decimal(d) => d.suffixed,
        }
    }

    /// The number's exact value, seen as a decimal (`mantissa / 10^scale`).
    pub open spec fn spec_dec(self) -> Decimal {
        match self {
            NumberValue::Integer(i) => Decimal { mantissa: i.value, scale: 0 },
            NumberValue::Decimal(d) => d.value,
        }
    }

    /// Well-formedness: a decimal payload keeps its scale in range.
    pub open spec fn wf(self) -> bool {
        self.spec_dec().wf()
    }

    /// Whether a sign has already been applied to this number.
    pub fn prefixed(&self) -> (r: bool)
        ensures
            r == self.spec_prefixed(),
    {
        match self {
            NumberValue::Integer(i) => i.prefixed,
            NumberValue::Decimal(d) => d.prefixed,
        }
    }

    /// Whether a magnitude multiplier has already been applied.
    pub fn suffixed(&self) -> (r: bool)
        ensures
            r == self.spec_suffixed(),
    {
        match self {
            NumberValue::Integer(i) => i.suffixed,
            NumberValue::Decimal(d) => d.suffixed,
        }
    }

    /// The number's exact value as a decimal.
    pub fn dec(&self) -> (r: Decimal)
        ensures
            r == self.spec_dec(),
    {
        match self {
            NumberValue::Integer(i) => Decimal { mantissa: i.value, scale: 0 },
            NumberValue::Decimal(d) => d.value,
        }
    }
}

/// An ordinal rank. The supplied vocabulary covers 1 to 10, but the type
/// itself is unbounded.
#[derive(Clone, Copy, Debug, PartialEq, Eq, Structural)]
pub struct OrdinalValue {
    pub value: i64,
}

/// A recognized calendar grain, produced by atomic recognizers and consumed
/// by the cycle resolver.
#[derive(Clone, Copy, Debug, PartialEq, Eq, Structural)]
pub struct CycleValue {
    pub grain: Grain,
}

impl CycleValue {
    /// A cycle selector for the given grain.
    pub fn new(grain: Grain) -> (r: CycleValue)
        ensures
            r == (CycleValue { grain }),
    {
        CycleValue { grain }
    }
}

/// A temperature unit attached by a disambiguating token.
#[derive(Clone, Copy, Debug, PartialEq, Eq, Structural)]
pub enum TemperatureUnit {
    Degree,
    Celsius,
    Fahrenheit,
}

/// A (possibly still latent) temperature. `latent == true` means the value is
/// a bare number not yet confirmed as a temperature; only rules that attach a
/// unit token or a below-zero modifier clear the flag.
#[derive(Clone, Copy, Debug, PartialEq, Eq, Structural)]
pub struct TemperatureValue {
    pub value: Decimal,
    pub unit: Option<TemperatureUnit>,
    pub latent: bool,
}

} // verus!
