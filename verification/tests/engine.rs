//! Tests of the generic engine: the mixed-radix encoding and its inverse,
//! table construction errors, absent-form propagation and the irregular
//! override layer.

use synthetic_language::encoding::decode;
use synthetic_language::encoding::encode;
use synthetic_language::encoding::enumerate_sets;
use synthetic_language::encoding::CategorySet;
use synthetic_language::inflection::Inflection;
use synthetic_language::inflection::InflectionError;
use synthetic_language::latin::conjugation::Mood;
use synthetic_language::latin::conjugation::Person;
use synthetic_language::latin::conjugation::VerbCategories;
use synthetic_language::latin::conjugation::Voice;
use synthetic_language::latin::conjugation::Number as VerbNumber;
use synthetic_language::InflectionalCategorySet;
use synthetic_language::IrregularForm;
use synthetic_language::Word;

fn slots(entries: &[Option<&str>]) -> Vec<Option<String>> {
    entries.iter().map(|e| e.map(|s| s.to_string())).collect()
}

#[test]
fn encode_decode_round_trip_covers_every_index() {
    let sizes: Vec<usize> = vec![4, 2, 7];
    for idx in 0..56 {
        let cs = decode(&sizes, idx);
        assert_eq!(encode(&sizes, &cs), idx);
    }
}

#[test]
fn decode_encode_round_trip_recovers_ordinals() {
    let sizes: Vec<usize> = vec![3, 5, 2];
    for a in 0..3 {
        for b in 0..5 {
            for c in 0..2 {
                let cs = CategorySet { ordinals: vec![a, b, c] };
                let idx = encode(&sizes, &cs);
                let back = decode(&sizes, idx);
                assert!(back.matches(&cs));
                assert_eq!(back.ordinals, vec![a, b, c]);
            }
        }
    }
}

#[test]
fn enumeration_visits_every_index_exactly_once_in_order() {
    let sizes: Vec<usize> = vec![2, 3];
    let all = enumerate_sets(&sizes);
    assert_eq!(all.len(), 6);
    let expected: Vec<Vec<usize>> = vec![
        vec![0, 0],
        vec![0, 1],
        vec![0, 2],
        vec![1, 0],
        vec![1, 1],
        vec![1, 2],
    ];
    for (i, cs) in all.iter().enumerate() {
        assert_eq!(cs.ordinals, expected[i]);
        assert_eq!(encode(&sizes, cs), i);
    }
}

#[test]
fn category_set_matches_is_componentwise() {
    let a = CategorySet { ordinals: vec![1, 0, 3] };
    let b = CategorySet { ordinals: vec![1, 0, 3] };
    let c = CategorySet { ordinals: vec![1, 1, 3] };
    let d = CategorySet { ordinals: vec![1, 0] };
    assert!(a.matches(&b));
    assert!(!a.matches(&c));
    assert!(!a.matches(&d));
}

#[test]
fn construction_rejects_empty_axis_list() {
    let r = Inflection::new("empty".to_string(), vec![], vec![]);
    assert_eq!(r.unwrap_err(), InflectionError::NoAxes);
}

#[test]
fn construction_rejects_zero_sized_axis() {
    let r = Inflection::new("zero".to_string(), vec![2, 0, 3], vec![]);
    assert_eq!(r.unwrap_err(), InflectionError::EmptyAxis);
}

#[test]
fn construction_rejects_suffix_count_mismatch() {
    let r = Inflection::new(
        "short".to_string(),
        vec![2, 3],
        slots(&[Some("a"), Some("b"), Some("c")]),
    );
    assert_eq!(r.unwrap_err(), InflectionError::SuffixCountMismatch);
}

#[test]
fn construction_accepts_exact_suffix_count() {
    let r = Inflection::new(
        "tiny".to_string(),
        vec![2],
        slots(&[Some("x"), None]),
    );
    let inf = r.unwrap();
    assert_eq!(inf.cells(), 2);
    assert_eq!(inf.name(), "tiny");
    assert_eq!(inf.axes(), &vec![2]);
}

#[test]
fn absent_slot_yields_no_form_not_empty_string() {
    let inf = Inflection::new(
        "toy".to_string(),
        vec![2],
        slots(&[Some("x"), None]),
    )
    .unwrap();
    let present = CategorySet { ordinals: vec![0] };
    let absent = CategorySet { ordinals: vec![1] };
    assert_eq!(inf.inflect("root", &present).unwrap(), "rootx");
    assert_eq!(inf.inflect("root", &absent), None);
    assert_ne!(inf.inflect("root", &absent), Some(String::new()));
    assert_ne!(inf.inflect("root", &absent), Some("root".to_string()));
}

#[test]
fn irregular_first_match_takes_precedence_over_later_entries() {
    let inf = Inflection::new(
        "toy".to_string(),
        vec![2],
        slots(&[Some("x"), Some("y")]),
    )
    .unwrap();
    let cs = CategorySet { ordinals: vec![0] };
    let word = Word {
        inflection: inf,
        lemma: "first".to_string(),
        root: "r".to_string(),
        regular: false,
        irregular_forms: vec![
            IrregularForm(CategorySet { ordinals: vec![0] }, Some("first".to_string())),
            IrregularForm(CategorySet { ordinals: vec![0] }, Some("second".to_string())),
        ],
    };
    assert_eq!(word.inflect(&cs).unwrap(), "first");
}

#[test]
fn irregular_absent_override_suppresses_regular_form() {
    let inf = Inflection::new(
        "toy".to_string(),
        vec![2],
        slots(&[Some("x"), Some("y")]),
    )
    .unwrap();
    let cs = CategorySet { ordinals: vec![1] };
    let word = Word {
        inflection: inf,
        lemma: "gap".to_string(),
        root: "r".to_string(),
        regular: false,
        irregular_forms: vec![IrregularForm(CategorySet { ordinals: vec![1] }, None)],
    };
    assert_eq!(word.inflect(&cs), None);
}

#[test]
fn irregular_word_falls_back_to_regular_table() {
    let inf = Inflection::new(
        "toy".to_string(),
        vec![2],
        slots(&[Some("x"), Some("y")]),
    )
    .unwrap();
    let regular_twin = Inflection::new(
        "toy".to_string(),
        vec![2],
        slots(&[Some("x"), Some("y")]),
    )
    .unwrap();
    let cs = CategorySet { ordinals: vec![1] };
    let word = Word {
        inflection: inf,
        lemma: "w".to_string(),
        root: "r".to_string(),
        regular: false,
        irregular_forms: vec![IrregularForm(CategorySet { ordinals: vec![0] }, Some("odd".to_string()))],
    };
    let regular_word = Word {
        inflection: regular_twin,
        lemma: "w".to_string(),
        root: "r".to_string(),
        regular: true,
        irregular_forms: vec![],
    };
    assert_eq!(word.inflect(&cs), regular_word.inflect(&cs));
    assert_eq!(word.inflect(&cs).unwrap(), "ry");
}

#[test]
fn paradigm_enumeration_pairs_every_cell_with_its_suffix() {
    let inf = Inflection::new(
        "toy".to_string(),
        vec![2, 2],
        slots(&[Some("a"), None, Some("c"), Some("d")]),
    )
    .unwrap();
    let cells = inf.category_sets();
    assert_eq!(cells.len(), 4);
    let mut seen: Vec<Option<String>> = Vec::new();
    for cs in &cells {
        seen.push(inf.suffix(cs).cloned());
    }
    assert_eq!(
        seen,
        vec![Some("a".to_string()), None, Some("c".to_string()), Some("d".to_string())]
    );
}

#[test]
fn verb_categories_flat_index() {
    // Axis sizes (3, 2, 2, 4) give strides (16, 8, 4, 1).
    assert_eq!(
        VerbCategories(Person::First, VerbNumber::Singular, Voice::Active, Mood::Indicative)
            .index(),
        0
    );
    assert_eq!(
        VerbCategories(Person::Third, VerbNumber::Plural, Voice::Passive, Mood::Participle)
            .index(),
        2 * 16 + 1 * 8 + 1 * 4 + 3
    );
    assert_eq!(
        VerbCategories(Person::Second, VerbNumber::Singular, Voice::Passive, Mood::Subjunctive)
            .index(),
        1 * 16 + 0 * 8 + 1 * 4 + 1
    );
}

#[test]
fn regular_word_ignores_irregular_entries() {
    let inf = Inflection::new(
        "toy".to_string(),
        vec![2],
        slots(&[Some("x"), Some("y")]),
    )
    .unwrap();
    let cs = CategorySet { ordinals: vec![0] };
    let word = Word {
        inflection: inf,
        lemma: "w".to_string(),
        root: "r".to_string(),
        regular: true,
        irregular_forms: vec![IrregularForm(CategorySet { ordinals: vec![0] }, Some("odd".to_string()))],
    };
    assert_eq!(word.inflect(&cs).unwrap(), "rx");
}
