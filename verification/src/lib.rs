//! Grammar composition and value-reduction layer for extracting typed values
//! (numbers, calendar cycles, temperatures) from natural-language text.
//!
//! The library holds the semantic side of the grammar: atomic lexical
//! recognizers that map literal word forms to primitive values, composers
//! that combine already-reduced child values into larger numbers, cycle
//! requests and temperatures, and the per-language rule-set assembly. The
//! pattern-matching engine that produces candidate spans, the calendar
//! arithmetic behind cycle requests, and text preprocessing are external
//! collaborators: this crate only computes what each matched span reduces to.

pub mod values;
pub mod numbers;
pub mod cycles;
pub mod temperature;
pub mod es;
pub mod scan;
pub mod laws;

use vstd::prelude::*;
use vstd::string::{StrSliceExecFns, StringExecFns};
use crate::values::RuleError;

verus! {

/// Enumerates the languages supported for the general-purpose rule sets.
#[derive(Clone, Copy, Debug, PartialEq, Eq, Structural)]
pub enum Lang {
    DE,
    EN,
    ES,
    FR,
    KO,
}

/// The word/boundary detection policy bound to a language's orthography:
/// permissive compound-word boundaries or strict whitespace/punctuation
/// boundaries. The external matcher enforces the policy; the assembler only
/// selects it.
#[derive(Clone, Copy, Debug, PartialEq, Eq, Structural)]
pub enum BoundaryPolicy {
    ComposedWordOrDetailed,
    Detailed,
}

/// A text-normalization step applied before matching begins.
#[derive(Clone, Copy, Debug, PartialEq, Eq, Structural)]
pub enum PreprocessingOption {
    RemoveDiacritics,
    Lowercase,
}

/// One rule group a language registers, named after the group provider.
#[derive(Clone, Copy, Debug, PartialEq, Eq, Structural)]
pub enum RuleGroup {
    Numbers,
    Time,
    Cycle,
    Duration,
    Temperature,
    Finance,
}

/// An output dimension a language supports.
#[derive(Clone, Copy, Debug, PartialEq, Eq, Structural)]
pub enum DimensionKind {
    Number,
    Ordinal,
    Time,
    Duration,
    Temperature,
    AmountOfMoney,
}

/// The assembled matcher configuration for one language: its boundary
/// policy, its rule groups in registration order, and its preprocessing
/// options. It is immutable once built and safe to share across parses.
pub struct RuleSetConfig {
    pub boundaries: BoundaryPolicy,
    pub groups: Vec<RuleGroup>,
    pub options: Vec<PreprocessingOption>,
}

impl Lang {
    /// Every supported language, in a stable order.
    pub fn all() -> (r: Vec<Lang>)
        ensures
            r@ == seq![Lang::DE, Lang::EN, Lang::ES, Lang::FR, Lang::KO],
    {
        let mut v: Vec<Lang> = Vec::new();
        v.push(Lang::DE);
        v.push(Lang::EN);
        v.push(Lang::ES);
        v.push(Lang::FR);
        v.push(Lang::KO);
        proof {
            assert(v@ =~= seq![Lang::DE, Lang::EN, Lang::ES, Lang::FR, Lang::KO]);
        }
        v
    }

    /// The language a two-letter code names, compared without regard to
    /// ASCII case, when the code is one of the supported identifiers.
    pub open spec fn spec_of_code(w: Seq<char>) -> Option<Lang> {
        if w.len() == 2 {
            let a = w[0];
            let b = w[1];
            if (a == 'e' || a == 'E') && (b == 'n' || b == 'N') {
                Some(Lang::EN)
            } else if (a == 'f' || a == 'F') && (b == 'r' || b == 'R') {
                Some(Lang::FR)
            } else if (a == 'e' || a == 'E') && (b == 's' || b == 'S') {
                Some(Lang::ES)
            } else if (a == 'k' || a == 'K') && (b == 'o' || b == 'O') {
                Some(Lang::KO)
            } else if (a == 'd' || a == 'D') && (b == 'e' || b == 'E') {
                Some(Lang::DE)
            } else {
                None
            }
        } else {
            None
        }
    }

    /// Resolves a language code ("en", "ES", ...) to its language; any other
    /// text is an unrecognized literal.
    pub fn from_str(code: &str) -> (r: Result<Lang, RuleError>)
        ensures
            r == match Lang::spec_of_code(code@) {
                Option::Some(l) => Ok::<Lang, RuleError>(l),
                Option::None => Err::<Lang, RuleError>(RuleError::UnrecognizedLiteral),
            },
    {
        if code.unicode_len() != 2 {
            return Err(RuleError::UnrecognizedLiteral);
        }
        let a = code.get_char(0);
        let b = code.get_char(1);
        if (a == 'e' || a == 'E') && (b == 'n' || b == 'N') {
            Ok(Lang::EN)
        } else if (a == 'f' || a == 'F') && (b == 'r' || b == 'R') {
            Ok(Lang::FR)
        } else if (a == 'e' || a == 'E') && (b == 's' || b == 'S') {
            Ok(Lang::ES)
        } else if (a == 'k' || a == 'K') && (b == 'o' || b == 'O') {
            Ok(Lang::KO)
        } else if (a == 'd' || a == 'D') && (b == 'e' || b == 'E') {
            Ok(Lang::DE)
        } else {
            Err(RuleError::UnrecognizedLiteral)
        }
    }

    /// The language's stable lower-case identifier.
    pub fn to_string(&self) -> (r: String)
        ensures
            r@ == match self {
                Lang::DE => "de"@,
                Lang::EN => "en"@,
                Lang::ES => "es"@,
                Lang::FR => "fr"@,
                Lang::KO => "ko"@,
            },
    {
        match self {
            Lang::DE => String::from_str("de"),
            Lang::EN => String::from_str("en"),
            Lang::ES => String::from_str("es"),
            Lang::FR => String::from_str("fr"),
            Lang::KO => String::from_str("ko"),
        }
    }
}

/// The rule groups one language registers, in registration order.
pub open spec fn spec_groups(lang: Lang) -> Seq<RuleGroup> {
    match lang {
        Lang::DE => seq![
            RuleGroup::Numbers,
            RuleGroup::Time,
            RuleGroup::Cycle,
            RuleGroup::Duration,
            RuleGroup::Temperature,
            RuleGroup::Finance,
        ],
        Lang::EN => seq![
            RuleGroup::Numbers,
            RuleGroup::Time,
            RuleGroup::Cycle,
            RuleGroup::Duration,
            RuleGroup::Temperature,
            RuleGroup::Finance,
        ],
        Lang::ES => seq![
            RuleGroup::Numbers,
            RuleGroup::Temperature,
            RuleGroup::Cycle,
            RuleGroup::Duration,
            RuleGroup::Time,
        ],
        Lang::FR => seq![
            RuleGroup::Numbers,
            RuleGroup::Time,
            RuleGroup::Temperature,
            RuleGroup::Cycle,
            RuleGroup::Duration,
        ],
        Lang::KO => seq![
            RuleGroup::Numbers,
            RuleGroup::Time,
            RuleGroup::Temperature,
            RuleGroup::Finance,
            RuleGroup::Cycle,
            RuleGroup::Duration,
        ],
    }
}

/// The boundary policy one language's orthography needs: German compound
/// words take the permissive checker, every other language the strict one.
pub open spec fn spec_boundaries(lang: Lang) -> BoundaryPolicy {
    match lang {
        Lang::DE => BoundaryPolicy::ComposedWordOrDetailed,
        _ => BoundaryPolicy::Detailed,
    }
}

/// The output dimensions one language supports. A language with no rules for
/// a dimension simply omits it; that is configuration, not an error.
pub open spec fn spec_dims(lang: Lang) -> Seq<DimensionKind> {
    match lang {
        Lang::DE | Lang::EN | Lang::KO => seq![
            DimensionKind::Number,
            DimensionKind::Ordinal,
            DimensionKind::Time,
            DimensionKind::Duration,
            DimensionKind::Temperature,
            DimensionKind::AmountOfMoney,
        ],
        Lang::ES | Lang::FR => seq![
            DimensionKind::Number,
            DimensionKind::Ordinal,
            DimensionKind::Time,
            DimensionKind::Duration,
            DimensionKind::Temperature,
        ],
    }
}

/// Obtain the matcher configuration for a given language: its boundary
/// policy, rule groups in registration order, and the normalization options
/// (diacritic stripping and case folding for every language).
pub fn rules(lang: Lang) -> (r: RuleSetConfig)
    ensures
        r.boundaries == spec_boundaries(lang),
        r.groups@ == spec_groups(lang),
        r.options@ == seq![PreprocessingOption::RemoveDiacritics, PreprocessingOption::Lowercase],
{
    let boundaries = match lang {
        Lang::DE => BoundaryPolicy::ComposedWordOrDetailed,
        _ => BoundaryPolicy::Detailed,
    };
    let mut groups: Vec<RuleGroup> = Vec::new();
    match lang {
        Lang::DE | Lang::EN => {
            groups.push(RuleGroup::Numbers);
            groups.push(RuleGroup::Time);
            groups.push(RuleGroup::Cycle);
            groups.push(RuleGroup::Duration);
            groups.push(RuleGroup::Temperature);
            groups.push(RuleGroup::Finance);
        },
        Lang::ES => {
            groups.push(RuleGroup::Numbers);
            groups.push(RuleGroup::Temperature);
            groups.push(RuleGroup::Cycle);
            groups.push(RuleGroup::Duration);
            groups.push(RuleGroup::Time);
        },
        Lang::FR => {
            groups.push(RuleGroup::Numbers);
            groups.push(RuleGroup::Time);
            groups.push(RuleGroup::Temperature);
            groups.push(RuleGroup::Cycle);
            groups.push(RuleGroup::Duration);
        },
        Lang::KO => {
            groups.push(RuleGroup::Numbers);
            groups.push(RuleGroup::Time);
            groups.push(RuleGroup::Temperature);
            groups.push(RuleGroup::Finance);
            groups.push(RuleGroup::Cycle);
            groups.push(RuleGroup::Duration);
        },
    }
    let mut options: Vec<PreprocessingOption> = Vec::new();
    options.push(PreprocessingOption::RemoveDiacritics);
    options.push(PreprocessingOption::Lowercase);
    proof {
        assert(groups@ =~= spec_groups(lang));
        assert(options@ =~= seq![
            PreprocessingOption::RemoveDiacritics,
            PreprocessingOption::Lowercase,
        ]);
    }
    RuleSetConfig { boundaries, groups, options }
}

/// Obtain the supported output dimensions for a given language.
pub fn dims(lang: Lang) -> (r: Vec<DimensionKind>)
    ensures
        r@ == spec_dims(lang),
{
    let mut v: Vec<DimensionKind> = Vec::new();
    v.push(DimensionKind::Number);
    v.push(DimensionKind::Ordinal);
    v.push(DimensionKind::Time);
    v.push(DimensionKind::Duration);
    v.push(DimensionKind::Temperature);
    match lang {
        Lang::DE | Lang::EN | Lang::KO => {
            v.push(DimensionKind::AmountOfMoney);
        },
        Lang::ES | Lang::FR => {},
    }
    proof {
        assert(v@ =~= spec_dims(lang));
    }
    v
}

} // verus!
