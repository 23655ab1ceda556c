//! Atomic lexical recognizers for Spanish: per-language tables from literal
//! word forms to primitive semantic values.
//!
//! Accented and unaccented, singular, plural and gendered orthographic
//! variants appear as distinct keys mapping to the same value, because the
//! external text normalization does not collapse all of them. A captured text
//! that is not in the table it was expected to cover is an
//! `UnrecognizedLiteral`: the surrounding pattern should only ever capture
//! enumerated alternatives, so the miss marks a defect in the grammar/table
//! pairing and drops that one candidate instead of aborting the parse.

use vstd::prelude::*;
use vstd::string::StrSliceExecFns;
use crate::values::{CycleValue, Grain, IntegerValue, OrdinalValue, RuleError, TemperatureUnit};

verus! {

/// Character-exact equality of two string slices.
pub fn str_eq(a: &str, b: &str) -> (r: bool)
    ensures
        r == (a@ == b@),
{
    let na = a.unicode_len();
    let nb = b.unicode_len();
    if na != nb {
        proof {
            if a@ == b@ {
                assert(a@.len() == b@.len());
            }
        }
        return false;
    }
    let mut i: usize = 0;
    while i < na
        invariant
            i <= na,
            na == a@.len(),
            na == b@.len(),
            forall|j: int| 0 <= j < i ==> a@[j] == b@[j],
        decreases na - i,
    {
        if a.get_char(i) != b.get_char(i) {
            return false;
        }
        i = i + 1;
    }
    proof {
        assert(a@ =~= b@);
    }
    true
}

/// The value of a number word for 0 to 15, when the word is in the table.
pub open spec fn es_small_integer(w: Seq<char>) -> Option<i64> {
    if w == "cero"@ || w == "zero"@ {
        Some(0i64)
    } else if w == "un"@ || w == "uno"@ || w == "una"@ {
        Some(1i64)
    } else if w == "dos"@ {
        Some(2i64)
    } else if w == "tres"@ || w == "tr\u{e9}s"@ {
        Some(3i64)
    } else if w == "cuatro"@ {
        Some(4i64)
    } else if w == "cinco"@ {
        Some(5i64)
    } else if w == "seis"@ || w == "s\u{e9}is"@ {
        Some(6i64)
    } else if w == "siete"@ {
        Some(7i64)
    } else if w == "ocho"@ {
        Some(8i64)
    } else if w == "nueve"@ {
        Some(9i64)
    } else if w == "diez"@ || w == "dies"@ {
        Some(10i64)
    } else if w == "once"@ {
        Some(11i64)
    } else if w == "doce"@ {
        Some(12i64)
    } else if w == "trece"@ {
        Some(13i64)
    } else if w == "catorce"@ {
        Some(14i64)
    } else if w == "quince"@ {
        Some(15i64)
    } else {
        None
    }
}

/// Recognizes a number word for 0 to 15.
pub fn small_integer_literal(w: &str) -> (r: Result<IntegerValue, RuleError>)
    ensures
        r == match es_small_integer(w@) {
            Option::Some(v) => Ok::<IntegerValue, RuleError>(
                IntegerValue { value: v, prefixed: false, suffixed: false },
            ),
            Option::None => Err::<IntegerValue, RuleError>(RuleError::UnrecognizedLiteral),
        },
{
    if str_eq(w, "cero") || str_eq(w, "zero") {
        Ok(IntegerValue::new(0))
    } else if str_eq(w, "un") || str_eq(w, "uno") || str_eq(w, "una") {
        Ok(IntegerValue::new(1))
    } else if str_eq(w, "dos") {
        Ok(IntegerValue::new(2))
    } else if str_eq(w, "tres") || str_eq(w, "tr\u{e9}s") {
        Ok(IntegerValue::new(3))
    } else if str_eq(w, "cuatro") {
        Ok(IntegerValue::new(4))
    } else if str_eq(w, "cinco") {
        Ok(IntegerValue::new(5))
    } else if str_eq(w, "seis") || str_eq(w, "s\u{e9}is") {
        Ok(IntegerValue::new(6))
    } else if str_eq(w, "siete") {
        Ok(IntegerValue::new(7))
    } else if str_eq(w, "ocho") {
        Ok(IntegerValue::new(8))
    } else if str_eq(w, "nueve") {
        Ok(IntegerValue::new(9))
    } else if str_eq(w, "diez") || str_eq(w, "dies") {
        Ok(IntegerValue::new(10))
    } else if str_eq(w, "once") {
        Ok(IntegerValue::new(11))
    } else if str_eq(w, "doce") {
        Ok(IntegerValue::new(12))
    } else if str_eq(w, "trece") {
        Ok(IntegerValue::new(13))
    } else if str_eq(w, "catorce") {
        Ok(IntegerValue::new(14))
    } else if str_eq(w, "quince") {
        Ok(IntegerValue::new(15))
    } else {
        Err(RuleError::UnrecognizedLiteral)
    }
}

/// The value of a round tens word (20 to 90), when the word is in the table.
pub open spec fn es_tens(w: Seq<char>) -> Option<i64> {
    if w == "veinte"@ {
        Some(20i64)
    } else if w == "treinta"@ {
        Some(30i64)
    } else if w == "cuarenta"@ {
        Some(40i64)
    } else if w == "cincuenta"@ {
        Some(50i64)
    } else if w == "sesenta"@ {
        Some(60i64)
    } else if w == "setenta"@ {
        Some(70i64)
    } else if w == "ochenta"@ {
        Some(80i64)
    } else if w == "noventa"@ {
        Some(90i64)
    } else {
        None
    }
}

/// Recognizes a round tens word (20 to 90).
pub fn tens_literal(w: &str) -> (r: Result<IntegerValue, RuleError>)
    ensures
        r == match es_tens(w@) {
            Option::Some(v) => Ok::<IntegerValue, RuleError>(
                IntegerValue { value: v, prefixed: false, suffixed: false },
            ),
            Option::None => Err::<IntegerValue, RuleError>(RuleError::UnrecognizedLiteral),
        },
{
    if str_eq(w, "veinte") {
        Ok(IntegerValue::new(20))
    } else if str_eq(w, "treinta") {
        Ok(IntegerValue::new(30))
    } else if str_eq(w, "cuarenta") {
        Ok(IntegerValue::new(40))
    } else if str_eq(w, "cincuenta") {
        Ok(IntegerValue::new(50))
    } else if str_eq(w, "sesenta") {
        Ok(IntegerValue::new(60))
    } else if str_eq(w, "setenta") {
        Ok(IntegerValue::new(70))
    } else if str_eq(w, "ochenta") {
        Ok(IntegerValue::new(80))
    } else if str_eq(w, "noventa") {
        Ok(IntegerValue::new(90))
    } else {
        Err(RuleError::UnrecognizedLiteral)
    }
}

/// The value of a fused teens or twenties word (16 to 29), when the word is
/// in the table.
pub open spec fn es_compound_teens(w: Seq<char>) -> Option<i64> {
    if w == "dieciseis"@ || w == "diesiseis"@ || w == "diesis\u{e9}is"@ || w == "diecis\u{e9}is"@ {
        Some(16i64)
    } else if w == "diecisiete"@ {
        Some(17i64)
    } else if w == "dieciocho"@ {
        Some(18i64)
    } else if w == "diecinueve"@ {
        Some(19i64)
    } else if w == "veintiuno"@ || w == "veintiuna"@ {
        Some(21i64)
    } else if w == "veintidos"@ {
        Some(22i64)
    } else if w == "veintitres"@ || w == "veintitr\u{e9}s"@ {
        Some(23i64)
    } else if w == "veinticuatro"@ {
        Some(24i64)
    } else if w == "veinticinco"@ {
        Some(25i64)
    } else if w == "veintiseis"@ || w == "veintis\u{e9}is"@ {
        Some(26i64)
    } else if w == "veintisiete"@ {
        Some(27i64)
    } else if w == "veintiocho"@ {
        Some(28i64)
    } else if w == "veintinueve"@ {
        Some(29i64)
    } else {
        None
    }
}

/// Recognizes a fused teens or twenties word (16 to 29).
pub fn compound_teens_literal(w: &str) -> (r: Result<IntegerValue, RuleError>)
    ensures
        r == match es_compound_teens(w@) {
            Option::Some(v) => Ok::<IntegerValue, RuleError>(
                IntegerValue { value: v, prefixed: false, suffixed: false },
            ),
            Option::None => Err::<IntegerValue, RuleError>(RuleError::UnrecognizedLiteral),
        },
{
    if str_eq(w, "dieciseis") || str_eq(w, "diesiseis") || str_eq(w, "diesis\u{e9}is") || str_eq(
        w,
        "diecis\u{e9}is",
    ) {
        Ok(IntegerValue::new(16))
    } else if str_eq(w, "diecisiete") {
        Ok(IntegerValue::new(17))
    } else if str_eq(w, "dieciocho") {
        Ok(IntegerValue::new(18))
    } else if str_eq(w, "diecinueve") {
        Ok(IntegerValue::new(19))
    } else if str_eq(w, "veintiuno") || str_eq(w, "veintiuna") {
        Ok(IntegerValue::new(21))
    } else if str_eq(w, "veintidos") {
        Ok(IntegerValue::new(22))
    } else if str_eq(w, "veintitres") || str_eq(w, "veintitr\u{e9}s") {
        Ok(IntegerValue::new(23))
    } else if str_eq(w, "veinticuatro") {
        Ok(IntegerValue::new(24))
    } else if str_eq(w, "veinticinco") {
        Ok(IntegerValue::new(25))
    } else if str_eq(w, "veintiseis") || str_eq(w, "veintis\u{e9}is") {
        Ok(IntegerValue::new(26))
    } else if str_eq(w, "veintisiete") {
        Ok(IntegerValue::new(27))
    } else if str_eq(w, "veintiocho") {
        Ok(IntegerValue::new(28))
    } else if str_eq(w, "veintinueve") {
        Ok(IntegerValue::new(29))
    } else {
        Err(RuleError::UnrecognizedLiteral)
    }
}

/// The value of a hundreds word (100 to 1000), when the word is in the table.
pub open spec fn es_hundreds(w: Seq<char>) -> Option<i64> {
    if w == "cien"@ || w == "cientos"@ || w == "ciento"@ {
        Some(100i64)
    } else if w == "doscientos"@ {
        Some(200i64)
    } else if w == "trescientos"@ {
        Some(300i64)
    } else if w == "cuatrocientos"@ {
        Some(400i64)
    } else if w == "quinientos"@ {
        Some(500i64)
    } else if w == "seiscientos"@ {
        Some(600i64)
    } else if w == "setecientos"@ {
        Some(700i64)
    } else if w == "ochocientos"@ {
        Some(800i64)
    } else if w == "novecientos"@ {
        Some(900i64)
    } else if w == "mil"@ {
        Some(1000i64)
    } else {
        None
    }
}

/// Recognizes a hundreds word (100 to 1000).
pub fn hundreds_literal(w: &str) -> (r: Result<IntegerValue, RuleError>)
    ensures
        r == match es_hundreds(w@) {
            Option::Some(v) => Ok::<IntegerValue, RuleError>(
                IntegerValue { value: v, prefixed: false, suffixed: false },
            ),
            Option::None => Err::<IntegerValue, RuleError>(RuleError::UnrecognizedLiteral),
        },
{
    if str_eq(w, "cien") || str_eq(w, "cientos") || str_eq(w, "ciento") {
        Ok(IntegerValue::new(100))
    } else if str_eq(w, "doscientos") {
        Ok(IntegerValue::new(200))
    } else if str_eq(w, "trescientos") {
        Ok(IntegerValue::new(300))
    } else if str_eq(w, "cuatrocientos") {
        Ok(IntegerValue::new(400))
    } else if str_eq(w, "quinientos") {
        Ok(IntegerValue::new(500))
    } else if str_eq(w, "seiscientos") {
        Ok(IntegerValue::new(600))
    } else if str_eq(w, "setecientos") {
        Ok(IntegerValue::new(700))
    } else if str_eq(w, "ochocientos") {
        Ok(IntegerValue::new(800))
    } else if str_eq(w, "novecientos") {
        Ok(IntegerValue::new(900))
    } else if str_eq(w, "mil") {
        Ok(IntegerValue::new(1000))
    } else {
        Err(RuleError::UnrecognizedLiteral)
    }
}

/// The rank of an ordinal word (first to tenth, in all gendered, plural and
/// accent variants), when the word is in the table.
pub open spec fn es_ordinal(w: Seq<char>) -> Option<i64> {
    if w == "primer"@ || w == "primero"@ || w == "primeros"@ || w == "primera"@ || w
        == "primeras"@ {
        Some(1i64)
    } else if w == "segundo"@ || w == "segundos"@ || w == "segunda"@ || w == "segundas"@ {
        Some(2i64)
    } else if w == "tercer"@ || w == "tercero"@ || w == "terceros"@ || w == "tercera"@ || w
        == "terceras"@ {
        Some(3i64)
    } else if w == "cuarto"@ || w == "cuartos"@ || w == "cuarta"@ || w == "cuartas"@ {
        Some(4i64)
    } else if w == "quinto"@ || w == "quintos"@ || w == "quinta"@ || w == "quintas"@ {
        Some(5i64)
    } else if w == "sexto"@ || w == "sextos"@ || w == "sexta"@ || w == "sextas"@ {
        Some(6i64)
    } else if w == "s\u{e9}ptimo"@ || w == "septimo"@ || w == "s\u{e9}ptimos"@ || w == "septimos"@
        || w == "s\u{e9}ptima"@ || w == "septima"@ || w == "s\u{e9}ptimas"@ || w == "septimas"@ {
        Some(7i64)
    } else if w == "octavo"@ || w == "octavos"@ || w == "octava"@ || w == "octavas"@ {
        Some(8i64)
    } else if w == "noveno"@ || w == "novenos"@ || w == "novena"@ || w == "novenas"@ {
        Some(9i64)
    } else if w == "d\u{e9}cimo"@ || w == "decimo"@ || w == "d\u{e9}cimos"@ || w == "decimos"@ || w
        == "d\u{e9}cima"@ || w == "decima"@ || w == "d\u{e9}cimas"@ || w == "decimas"@ {
        Some(10i64)
    } else {
        None
    }
}

/// Recognizes an ordinal word (first to tenth).
pub fn ordinal_literal(w: &str) -> (r: Result<OrdinalValue, RuleError>)
    ensures
        r == match es_ordinal(w@) {
            Option::Some(v) => Ok::<OrdinalValue, RuleError>(OrdinalValue { value: v }),
            Option::None => Err::<OrdinalValue, RuleError>(RuleError::UnrecognizedLiteral),
        },
{
    if str_eq(w, "primer") || str_eq(w, "primero") || str_eq(w, "primeros") || str_eq(w, "primera")
        || str_eq(w, "primeras") {
        Ok(OrdinalValue { value: 1 })
    } else if str_eq(w, "segundo") || str_eq(w, "segundos") || str_eq(w, "segunda") || str_eq(
        w,
        "segundas",
    ) {
        Ok(OrdinalValue { value: 2 })
    } else if str_eq(w, "tercer") || str_eq(w, "tercero") || str_eq(w, "terceros") || str_eq(
        w,
        "tercera",
    ) || str_eq(w, "terceras") {
        Ok(OrdinalValue { value: 3 })
    } else if str_eq(w, "cuarto") || str_eq(w, "cuartos") || str_eq(w, "cuarta") || str_eq(
        w,
        "cuartas",
    ) {
        Ok(OrdinalValue { value: 4 })
    } else if str_eq(w, "quinto") || str_eq(w, "quintos") || str_eq(w, "quinta") || str_eq(
        w,
        "quintas",
    ) {
        Ok(OrdinalValue { value: 5 })
    } else if str_eq(w, "sexto") || str_eq(w, "sextos") || str_eq(w, "sexta") || str_eq(
        w,
        "sextas",
    ) {
        Ok(OrdinalValue { value: 6 })
    } else if str_eq(w, "s\u{e9}ptimo") || str_eq(w, "septimo") || str_eq(w, "s\u{e9}ptimos")
        || str_eq(w, "septimos") || str_eq(w, "s\u{e9}ptima") || str_eq(w, "septima") || str_eq(
        w,
        "s\u{e9}ptimas",
    ) || str_eq(w, "septimas") {
        Ok(OrdinalValue { value: 7 })
    } else if str_eq(w, "octavo") || str_eq(w, "octavos") || str_eq(w, "octava") || str_eq(
        w,
        "octavas",
    ) {
        Ok(OrdinalValue { value: 8 })
    } else if str_eq(w, "noveno") || str_eq(w, "novenos") || str_eq(w, "novena") || str_eq(
        w,
        "novenas",
    ) {
        Ok(OrdinalValue { value: 9 })
    } else if str_eq(w, "d\u{e9}cimo") || str_eq(w, "decimo") || str_eq(w, "d\u{e9}cimos")
        || str_eq(w, "decimos") || str_eq(w, "d\u{e9}cima") || str_eq(w, "decima") || str_eq(
        w,
        "d\u{e9}cimas",
    ) || str_eq(w, "decimas") {
        Ok(OrdinalValue { value: 10 })
    } else {
        Err(RuleError::UnrecognizedLiteral)
    }
}

/// The grain of a cycle-name word, when the word is in the table.
pub open spec fn es_cycle_grain(w: Seq<char>) -> Option<Grain> {
    if w == "segundo"@ || w == "segundos"@ {
        Some(Grain::Second)
    } else if w == "minuto"@ || w == "minutos"@ {
        Some(Grain::Minute)
    } else if w == "hora"@ || w == "horas"@ {
        Some(Grain::Hour)
    } else if w == "dia"@ || w == "d\u{ed}a"@ || w == "dias"@ || w == "d\u{ed}as"@ {
        Some(Grain::Day)
    } else if w == "semana"@ || w == "semanas"@ {
        Some(Grain::Week)
    } else if w == "mes"@ || w == "meses"@ {
        Some(Grain::Month)
    } else if w == "trimestre"@ || w == "trimestres"@ {
        Some(Grain::Quarter)
    } else if w == "ano"@ || w == "a\u{f1}o"@ || w == "anos"@ || w == "a\u{f1}os"@ {
        Some(Grain::Year)
    } else {
        None
    }
}

/// Recognizes a cycle-name word (second to year).
pub fn cycle_word(w: &str) -> (r: Result<CycleValue, RuleError>)
    ensures
        r == match es_cycle_grain(w@) {
            Option::Some(g) => Ok::<CycleValue, RuleError>(CycleValue { grain: g }),
            Option::None => Err::<CycleValue, RuleError>(RuleError::UnrecognizedLiteral),
        },
{
    if str_eq(w, "segundo") || str_eq(w, "segundos") {
        Ok(CycleValue::new(Grain::Second))
    } else if str_eq(w, "minuto") || str_eq(w, "minutos") {
        Ok(CycleValue::new(Grain::Minute))
    } else if str_eq(w, "hora") || str_eq(w, "horas") {
        Ok(CycleValue::new(Grain::Hour))
    } else if str_eq(w, "dia") || str_eq(w, "d\u{ed}a") || str_eq(w, "dias") || str_eq(
        w,
        "d\u{ed}as",
    ) {
        Ok(CycleValue::new(Grain::Day))
    } else if str_eq(w, "semana") || str_eq(w, "semanas") {
        Ok(CycleValue::new(Grain::Week))
    } else if str_eq(w, "mes") || str_eq(w, "meses") {
        Ok(CycleValue::new(Grain::Month))
    } else if str_eq(w, "trimestre") || str_eq(w, "trimestres") {
        Ok(CycleValue::new(Grain::Quarter))
    } else if str_eq(w, "ano") || str_eq(w, "a\u{f1}o") || str_eq(w, "anos") || str_eq(
        w,
        "a\u{f1}os",
    ) {
        Ok(CycleValue::new(Grain::Year))
    } else {
        Err(RuleError::UnrecognizedLiteral)
    }
}

/// The unit of a temperature-unit token, when the token is in the table:
/// degree words, the Celsius variants and abbreviations (with or without a
/// trailing period), and the Fahrenheit variants.
pub open spec fn es_temperature_unit(w: Seq<char>) -> Option<TemperatureUnit> {
    if w == "grado"@ || w == "grados"@ || w == "\u{b0}"@ {
        Some(TemperatureUnit::Degree)
    } else if w == "centigrado"@ || w == "centigrados"@ || w == "cent\u{ed}grado"@ || w
        == "cent\u{ed}grados"@ || w == "c"@ || w == "c."@ || w == "cel"@ || w == "cel."@ || w
        == "celc"@ || w == "celc."@ || w == "cels"@ || w == "cels."@ || w == "celius"@ || w
        == "celius."@ || w == "celcius"@ || w == "celcius."@ || w == "celsius"@ || w
        == "celsius."@ {
        Some(TemperatureUnit::Celsius)
    } else if w == "f"@ || w == "f."@ || w == "faren"@ || w == "faren."@ || w == "fahren"@ || w
        == "fahren."@ || w == "farehn"@ || w == "farehn."@ || w == "fahrehn"@ || w == "fahrehn."@
        || w == "fareneit"@ || w == "fareneit."@ || w == "farenheit"@ || w == "farenheit."@ || w
        == "fahreneit"@ || w == "fahreneit."@ || w == "fahrenheit"@ || w == "fahrenheit."@ || w
        == "farehneit"@ || w == "farehneit."@ || w == "farehnheit"@ || w == "farehnheit."@ || w
        == "fahrehneit"@ || w == "fahrehneit."@ || w == "fahrehnheit"@ || w == "fahrehnheit."@ {
        Some(TemperatureUnit::Fahrenheit)
    } else {
        None
    }
}

/// Recognizes a temperature-unit token.
pub fn temperature_unit_word(w: &str) -> (r: Result<TemperatureUnit, RuleError>)
    ensures
        r == match es_temperature_unit(w@) {
            Option::Some(u) => Ok::<TemperatureUnit, RuleError>(u),
            Option::None => Err::<TemperatureUnit, RuleError>(RuleError::UnrecognizedLiteral),
        },
{
    if str_eq(w, "grado") || str_eq(w, "grados") || str_eq(w, "\u{b0}") {
        Ok(TemperatureUnit::Degree)
    } else if str_eq(w, "centigrado") || str_eq(w, "centigrados") || str_eq(w, "cent\u{ed}grado")
        || str_eq(w, "cent\u{ed}grados") || str_eq(w, "c") || str_eq(w, "c.") || str_eq(w, "cel")
        || str_eq(w, "cel.") || str_eq(w, "celc") || str_eq(w, "celc.") || str_eq(w, "cels")
        || str_eq(w, "cels.") || str_eq(w, "celius") || str_eq(w, "celius.") || str_eq(
        w,
        "celcius",
    ) || str_eq(w, "celcius.") || str_eq(w, "celsius") || str_eq(w, "celsius.") {
        Ok(TemperatureUnit::Celsius)
    } else if str_eq(w, "f") || str_eq(w, "f.") || str_eq(w, "faren") || str_eq(w, "faren.")
        || str_eq(w, "fahren") || str_eq(w, "fahren.") || str_eq(w, "farehn") || str_eq(
        w,
        "farehn.",
    ) || str_eq(w, "fahrehn") || str_eq(w, "fahrehn.") || str_eq(w, "fareneit") || str_eq(
        w,
        "fareneit.",
    ) || str_eq(w, "farenheit") || str_eq(w, "farenheit.") || str_eq(w, "fahreneit") || str_eq(
        w,
        "fahreneit.",
    ) || str_eq(w, "fahrenheit") || str_eq(w, "fahrenheit.") || str_eq(w, "farehneit") || str_eq(
        w,
        "farehneit.",
    ) || str_eq(w, "farehnheit") || str_eq(w, "farehnheit.") || str_eq(w, "fahrehneit") || str_eq(
        w,
        "fahrehneit.",
    ) || str_eq(w, "fahrehnheit") || str_eq(w, "fahrehnheit.") {
        Ok(TemperatureUnit::Fahrenheit)
    } else {
        Err(RuleError::UnrecognizedLiteral)
    }
}

} // verus!
