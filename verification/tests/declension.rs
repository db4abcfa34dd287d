//! Tests of the Latin nominal data: the declension tables, the nominal
//! category axes, and a worked stride computation over the first declension.

use synthetic_language::latin::declension::first_declension;
use synthetic_language::latin::declension::first_second_adjective_declension;
use synthetic_language::latin::declension::second_declension;
use synthetic_language::latin::declension::third_declension;
use synthetic_language::latin::declension::fourth_declension;
use synthetic_language::latin::declension::fifth_declension;
use synthetic_language::latin::declension::Case;
use synthetic_language::latin::declension::Gender;
use synthetic_language::latin::declension::NominalCategories;
use synthetic_language::latin::declension::Number;
use synthetic_language::InflectionalCategory;
use synthetic_language::InflectionalCategorySet;
use synthetic_language::IrregularForm;
use synthetic_language::Word;

#[test]
fn test_suffixes() {
    let poeta = Word {
        inflection: first_declension(),
        lemma: "poeta".to_string(),
        root: "poet".to_string(),
        regular: true,
        irregular_forms: vec![],
    };

    assert_eq!(
        poeta
            .inflect(
                &NominalCategories(Gender::Masculine, Number::Plural, Case::Accusative)
                    .category_set()
            )
            .unwrap(),
        "poetās"
    );
    assert_eq!(
        NominalCategories(Gender::Common, Number::Plural, Case::Genitive).index(),
        36
    );
}

#[test]
fn first_declension_stride_arithmetic() {
    // 4 x 2 x 7 = 56 cells; (Common, Plural, Genitive) has ordinals (2, 1, 1)
    // and the strides are (14, 7, 1).
    assert_eq!(first_declension().cells(), 56);
    assert_eq!(Gender::Common.index(), 2);
    assert_eq!(Number::Plural.index(), 1);
    assert_eq!(Case::Genitive.index(), 1);
    assert_eq!(
        NominalCategories(Gender::Common, Number::Plural, Case::Genitive).index(),
        2 * 14 + 1 * 7 + 1 * 1
    );
}

#[test]
fn gender_axis_declaration_order() {
    let variants = Gender::variants();
    assert_eq!(
        variants,
        vec![Gender::Feminine, Gender::Masculine, Gender::Common, Gender::Neuter]
    );
    for (i, v) in variants.iter().enumerate() {
        assert_eq!(v.index(), i);
    }
}

#[test]
fn number_and_case_axis_declaration_order() {
    assert_eq!(Number::variants(), vec![Number::Singular, Number::Plural]);
    let cases = Case::variants();
    assert_eq!(cases.len(), 7);
    assert_eq!(cases[0], Case::Nominative);
    assert_eq!(cases[3], Case::Accusative);
    assert_eq!(cases[6], Case::Locative);
    for (i, c) in cases.iter().enumerate() {
        assert_eq!(c.index(), i);
    }
}

#[test]
fn first_declension_singular_cells() {
    let decl = first_declension();
    let nom = NominalCategories(Gender::Feminine, Number::Singular, Case::Nominative);
    assert_eq!(decl.suffix(&nom.category_set()).unwrap(), "a");
    let abl = NominalCategories(Gender::Feminine, Number::Singular, Case::Ablative);
    assert_eq!(decl.suffix(&abl.category_set()).unwrap(), "ā");
}

#[test]
fn first_declension_neuter_has_no_forms() {
    let decl = first_declension();
    for number in Number::variants() {
        for case in Case::variants() {
            let cs = NominalCategories(Gender::Neuter, number, case).category_set();
            assert_eq!(decl.suffix(&cs), None);
            assert_eq!(decl.inflect("poet", &cs), None);
        }
    }
}

#[test]
fn second_declension_cells() {
    let decl = second_declension();
    let masc_nom = NominalCategories(Gender::Masculine, Number::Singular, Case::Nominative);
    assert_eq!(decl.inflect("domin", &masc_nom.category_set()).unwrap(), "dominus");
    let neut_plur_nom = NominalCategories(Gender::Neuter, Number::Plural, Case::Nominative);
    assert_eq!(decl.inflect("bell", &neut_plur_nom.category_set()).unwrap(), "bella");
}

#[test]
fn third_declension_cells() {
    let decl = third_declension();
    let gen_sing = NominalCategories(Gender::Common, Number::Singular, Case::Genitive);
    assert_eq!(decl.inflect("reg", &gen_sing.category_set()).unwrap(), "regis");
    let dat_plur = NominalCategories(Gender::Masculine, Number::Plural, Case::Dative);
    assert_eq!(decl.inflect("reg", &dat_plur.category_set()).unwrap(), "regibus");
}

#[test]
fn fourth_declension_has_no_locative() {
    let decl = fourth_declension();
    for gender in Gender::variants() {
        for number in Number::variants() {
            let cs = NominalCategories(gender, number, Case::Locative).category_set();
            assert_eq!(decl.inflect("man", &cs), None);
        }
    }
    let abl = NominalCategories(Gender::Feminine, Number::Singular, Case::Ablative);
    assert_eq!(decl.inflect("man", &abl.category_set()).unwrap(), "manū");
}

#[test]
fn fifth_declension_has_no_neuter_forms() {
    let decl = fifth_declension();
    for number in Number::variants() {
        for case in Case::variants() {
            let cs = NominalCategories(Gender::Neuter, number, case).category_set();
            assert_eq!(decl.inflect("r", &cs), None);
        }
    }
    let gen = NominalCategories(Gender::Feminine, Number::Singular, Case::Genitive);
    assert_eq!(decl.inflect("r", &gen.category_set()).unwrap(), "rēī");
}

#[test]
fn adjective_declension_common_gender_absent() {
    let decl = first_second_adjective_declension();
    let common = NominalCategories(Gender::Common, Number::Singular, Case::Nominative);
    assert_eq!(decl.inflect("bon", &common.category_set()), None);
    let fem = NominalCategories(Gender::Feminine, Number::Singular, Case::Nominative);
    assert_eq!(decl.inflect("bon", &fem.category_set()).unwrap(), "bona");
    let masc = NominalCategories(Gender::Masculine, Number::Singular, Case::Nominative);
    assert_eq!(decl.inflect("bon", &masc.category_set()).unwrap(), "bonus");
}

#[test]
fn declension_names() {
    assert_eq!(first_declension().name(), "First Declension");
    assert_eq!(fifth_declension().name(), "Fifth Declension");
}

#[test]
fn irregular_word_overrides_regular_table() {
    // "vīs" has an irregular nominative singular; other cells fall back to
    // the regular third-declension table.
    let cs_nom = NominalCategories(Gender::Feminine, Number::Singular, Case::Nominative);
    let word = Word {
        inflection: third_declension(),
        lemma: "vīs".to_string(),
        root: "v".to_string(),
        regular: false,
        irregular_forms: vec![IrregularForm(
            cs_nom.category_set(),
            Some("vīs".to_string()),
        )],
    };
    assert_eq!(word.inflect(&cs_nom.category_set()).unwrap(), "vīs");
    let cs_gen = NominalCategories(Gender::Feminine, Number::Singular, Case::Genitive);
    assert_eq!(word.inflect(&cs_gen.category_set()).unwrap(), "vis");
}
