use ontology_rules::scan::scan_integers;
use ontology_rules::values::RuleError;
use ontology_rules::{dims, rules, BoundaryPolicy, DimensionKind, Lang, PreprocessingOption, RuleGroup};

// End-to-end over the numeric grammar: "100k" composes to 100000; a symbol
// boundary after the suffix still matches; trailing letters disqualify the
// suffix; a word byte before the digits rejects the whole candidate.
#[test]
fn ex_100k() {
    assert!(scan_integers(b"100k").into_iter().any(|it| it == 100000));
    assert!(!scan_integers(b"100kilo").into_iter().any(|it| it == 100000));
    assert!(scan_integers(b"100k$").into_iter().any(|it| it == 100000));
    assert!(!scan_integers(b"toto100k").into_iter().any(|it| it == 100000));
}

#[test]
fn scan_plain_and_mixed() {
    assert_eq!(scan_integers(b"100"), vec![100]);
    assert_eq!(scan_integers(b"hay 3 semanas"), vec![3]);
    assert_eq!(scan_integers(b"2m y 5"), vec![2_000_000, 5]);
    assert_eq!(scan_integers(b"1g"), vec![1_000_000_000]);
    // a 19-digit run overflows and that candidate is dropped
    assert_eq!(scan_integers(b"9999999999999999999"), Vec::<i64>::new());
    assert_eq!(scan_integers(b""), Vec::<i64>::new());
}

#[test]
fn language_codes() {
    assert_eq!(Lang::from_str("es").unwrap(), Lang::ES);
    assert_eq!(Lang::from_str("ES").unwrap(), Lang::ES);
    assert_eq!(Lang::from_str("eN").unwrap(), Lang::EN);
    assert_eq!(Lang::from_str("fr").unwrap(), Lang::FR);
    assert_eq!(Lang::from_str("ko").unwrap(), Lang::KO);
    assert_eq!(Lang::from_str("de").unwrap(), Lang::DE);
    assert_eq!(Lang::from_str("xx"), Err(RuleError::UnrecognizedLiteral));
    assert_eq!(Lang::from_str("esp"), Err(RuleError::UnrecognizedLiteral));
    for lang in Lang::all() {
        let code = lang.to_string();
        assert_eq!(Lang::from_str(&code).unwrap(), lang);
    }
    assert_eq!(Lang::ES.to_string(), "es");
}

#[test]
fn assembled_rule_sets() {
    let es = rules(Lang::ES);
    assert_eq!(es.boundaries, BoundaryPolicy::Detailed);
    assert_eq!(
        es.groups,
        vec![
            RuleGroup::Numbers,
            RuleGroup::Temperature,
            RuleGroup::Cycle,
            RuleGroup::Duration,
            RuleGroup::Time,
        ]
    );
    assert_eq!(
        es.options,
        vec![
            PreprocessingOption::RemoveDiacritics,
            PreprocessingOption::Lowercase,
        ]
    );
    let de = rules(Lang::DE);
    assert_eq!(de.boundaries, BoundaryPolicy::ComposedWordOrDetailed);
    assert_eq!(de.groups.len(), 6);
}

#[test]
fn supported_dimensions() {
    let es = dims(Lang::ES);
    assert_eq!(
        es,
        vec![
            DimensionKind::Number,
            DimensionKind::Ordinal,
            DimensionKind::Time,
            DimensionKind::Duration,
            DimensionKind::Temperature,
        ]
    );
    assert!(!es.contains(&DimensionKind::AmountOfMoney));
    let en = dims(Lang::EN);
    assert!(en.contains(&DimensionKind::AmountOfMoney));
    assert_eq!(en.len(), 6);
}
