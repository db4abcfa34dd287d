//! The nominal axes of Latin — gender, number and case — and the declension
//! tables over them, in the fixed axis order (gender, number, case).

use vstd::prelude::*;
use crate::InflectionalCategory;
use crate::InflectionalCategorySet;
use crate::encoding::CategorySet;
use crate::encoding::int_view;
use crate::encoding::lemma_cell_count_triple;
use crate::encoding::lemma_flat_index_triple;
use crate::encoding::valid_sizes;
use crate::inflection::Inflection;
use crate::inflection::string_opt_view;

verus! {

/// The characters of an optional borrowed suffix, as an optional sequence.
pub open spec fn str_opt_view(s: Option<&str>) -> Option<Seq<char>> {
    match s {
        Some(s) => Some(s@),
        None => None,
    }
}

/// Turn a list of borrowed optional suffixes into owned table slots,
/// character for character.
fn owned_suffixes(entries: Vec<Option<&str>>) -> (r: Vec<Option<String>>)
    ensures
        r@.len() == entries@.len(),
        forall|i: int|
            0 <= i < entries@.len() ==> string_opt_view(r@[i]) == str_opt_view(
                #[trigger] entries@[i],
            ),
{
    let mut r: Vec<Option<String>> = Vec::new();
    let mut i: usize = 0;
    while i < entries.len()
        invariant
            i <= entries@.len(),
            r@.len() == i,
            forall|j: int|
                0 <= j < i ==> string_opt_view(r@[j]) == str_opt_view(#[trigger] entries@[j]),
        decreases entries@.len() - i,
    {
        match entries[i] {
            Some(s) => r.push(Some(s.to_owned())),
            None => r.push(None),
        }
        i += 1;
    }
    r
}

/// Build a nominal declension over (gender, number, case) from its name and
/// its 56 suffix slots in row-major order.
fn nominal_declension(name: &str, entries: Vec<Option<&str>>) -> (r: Inflection)
    requires
        entries@.len() == 56,
    ensures
        r.wf(),
        r.sizes() == NominalCategories::axis_sizes(),
        r.spec_name() == name@,
        r.table().len() == 56,
        forall|i: int|
            0 <= i < entries@.len() ==> r.table()[i] == str_opt_view(#[trigger] entries@[i]),
{
    let suffixes = owned_suffixes(entries);
    let mut sizes: Vec<usize> = Vec::new();
    sizes.push(4);
    sizes.push(2);
    sizes.push(7);
    proof {
        assert(int_view(sizes@) =~= seq![4int, 2int, 7int]);
        lemma_cell_count_triple(4, 2, 7);
        assert(valid_sizes(int_view(sizes@)));
    }
    match Inflection::new(name.to_owned(), sizes, suffixes) {
        Ok(inf) => inf,
        Err(_) => {
            proof {
                assert(false);
            }
            vstd::pervasive::unreached()
        },
    }
}

/// The first declension.
pub fn first_declension() -> (r: Inflection)
    ensures
        r.wf(),
        r.sizes() == NominalCategories::axis_sizes(),
{
    let entries: Vec<Option<&str>> = vec![
        Some("a"), Some("ae"), Some("ae"), Some("am"), Some("ā"), Some("a"), Some("ae"),
        Some("ae"), Some("arum"), Some("īs"), Some("ās"), Some("īs"), Some("ae"), Some("īs"),
        Some("a"), Some("ae"), Some("ae"), Some("am"), Some("ā"), Some("a"), Some("ae"),
        Some("ae"), Some("arum"), Some("īs"), Some("ās"), Some("īs"), Some("ae"), Some("īs"),
        Some("a"), Some("ae"), Some("ae"), Some("am"), Some("ā"), Some("a"), Some("ae"),
        Some("ae"), Some("arum"), Some("īs"), Some("ās"), Some("īs"), Some("ae"), Some("īs"),
        None, None, None, None, None, None, None,
        None, None, None, None, None, None, None,
    ];
    nominal_declension("First Declension", entries)
}

/// The second declension.
pub fn second_declension() -> (r: Inflection)
    ensures
        r.wf(),
        r.sizes() == NominalCategories::axis_sizes(),
{
    let entries: Vec<Option<&str>> = vec![
        Some("us"), Some("ī"), Some("o"), Some("um"), Some("o"), Some("e"), Some("ī"),
        Some("ī"), Some("ōrum"), Some("īs"), Some("ōs"), Some("īs"), Some("ī"), Some("īs"),
        Some("us"), Some("ī"), Some("o"), Some("um"), Some("o"), Some("e"), Some("ī"),
        Some("ī"), Some("ōrum"), Some("īs"), Some("ōs"), Some("īs"), Some("ī"), Some("īs"),
        Some("us"), Some("ī"), Some("o"), Some("um"), Some("o"), Some("e"), Some("ī"),
        Some("ī"), Some("ōrum"), Some("īs"), Some("ōs"), Some("īs"), Some("ī"), Some("īs"),
        Some("um"), Some("ī"), Some("o"), Some("um"), Some("o"), Some("um"), Some("ī"),
        Some("a"), Some("ōrum"), Some("īs"), Some("a"), Some("īs"), Some("a"), Some("īs"),
    ];
    nominal_declension("Second Declension", entries)
}

/// The third declension.
pub fn third_declension() -> (r: Inflection)
    ensures
        r.wf(),
        r.sizes() == NominalCategories::axis_sizes(),
{
    let entries: Vec<Option<&str>> = vec![
        Some("is"), Some("is"), Some("ī"), Some("em"), Some("e"), Some("is"), Some("ī"),
        Some("ēs"), Some("um"), Some("ibus"), Some("ēs"), Some("ibus"), Some("ēs"), Some("ibus"),
        Some("is"), Some("is"), Some("ī"), Some("em"), Some("e"), Some("is"), Some("ī"),
        Some("ēs"), Some("um"), Some("ibus"), Some("ēs"), Some("ibus"), Some("ēs"), Some("ibus"),
        Some("is"), Some("is"), Some("ī"), Some("em"), Some("e"), Some("is"), Some("ī"),
        Some("ēs"), Some("um"), Some("ibus"), Some("ēs"), Some("ibus"), Some("ēs"), Some("ibus"),
        Some("e"), Some("is"), Some("ī"), Some("e"), Some("e"), Some("e"), Some("ī"),
        Some("a"), Some("um"), Some("ibus"), Some("a"), Some("ibus"), Some("a"), Some("ibus"),
    ];
    nominal_declension("Third Declension", entries)
}

/// The fourth declension.
pub fn fourth_declension() -> (r: Inflection)
    ensures
        r.wf(),
        r.sizes() == NominalCategories::axis_sizes(),
{
    let entries: Vec<Option<&str>> = vec![
        Some("us"), Some("ūs"), Some("uī"), Some("um"), Some("ū"), Some("us"), None,
        Some("ūs"), Some("uum"), Some("ibus"), Some("ūs"), Some("ibus"), Some("ūs"), None,
        Some("us"), Some("ūs"), Some("uī"), Some("um"), Some("ū"), Some("us"), None,
        Some("ūs"), Some("uum"), Some("ibus"), Some("ūs"), Some("ibus"), Some("ūs"), None,
        Some("us"), Some("ūs"), Some("uī"), Some("um"), Some("ū"), Some("us"), None,
        Some("ūs"), Some("uum"), Some("ibus"), Some("ūs"), Some("ibus"), Some("ūs"), None,
        Some("ū"), Some("ūs"), Some("ū"), Some("ū"), Some("ū"), Some("ū"), None,
        Some("ua"), Some("uum"), Some("ibus"), Some("ua"), Some("ibus"), Some("ua"), None,
    ];
    nominal_declension("Fourth Declension", entries)
}

/// The fifth declension, which has no neuter forms in practice: its neuter
/// rows are marked absent rather than given empty suffixes.
pub fn fifth_declension() -> (r: Inflection)
    ensures
        r.wf(),
        r.sizes() == NominalCategories::axis_sizes(),
{
    let entries: Vec<Option<&str>> = vec![
        Some("ēs"), Some("ēī"), Some("ēī"), Some("em"), Some("ē"), Some("ēs"), None,
        Some("ēs"), Some("ērum"), Some("ēbus"), Some("ēs"), Some("ēbus"), Some("ēs"), None,
        Some("ēs"), Some("ēī"), Some("ēī"), Some("em"), Some("ē"), Some("ēs"), None,
        Some("ēs"), Some("ērum"), Some("ēbus"), Some("ēs"), Some("ēbus"), Some("ēs"), None,
        Some("ēs"), Some("ēī"), Some("ēī"), Some("em"), Some("ē"), Some("ēs"), None,
        Some("ēs"), Some("ērum"), Some("ēbus"), Some("ēs"), Some("ēbus"), Some("ēs"), None,
        None, None, None, None, None, None, None,
        None, None, None, None, None, None, None,
    ];
    nominal_declension("Fifth Declension", entries)
}

/// The first/second declension pattern of adjectives: feminine forms from
/// the first declension, masculine and neuter from the second, and no
/// common-gender forms.
pub fn first_second_adjective_declension() -> (r: Inflection)
    ensures
        r.wf(),
        r.sizes() == NominalCategories::axis_sizes(),
{
    let entries: Vec<Option<&str>> = vec![
        Some("a"), Some("ae"), Some("ae"), Some("am"), Some("ā"), Some("a"), Some("ae"),
        Some("ae"), Some("arum"), Some("īs"), Some("ās"), Some("īs"), Some("ae"), Some("īs"),
        Some("us"), Some("ī"), Some("o"), Some("um"), Some("o"), Some("e"), Some("ī"),
        Some("ī"), Some("ōrum"), Some("īs"), Some("ōs"), Some("īs"), Some("ī"), Some("īs"),
        None, None, None, None, None, None, None,
        None, None, None, None, None, None, None,
        Some("um"), Some("ī"), Some("o"), Some("um"), Some("o"), Some("um"), Some("ī"),
        Some("a"), Some("ōrum"), Some("īs"), Some("a"), Some("īs"), Some("a"), Some("īs"),
    ];
    nominal_declension("First/Second Adjective Declension", entries)
}

/// The third declension pattern of adjectives.
pub fn third_adjective_declension() -> (r: Inflection)
    ensures
        r.wf(),
        r.sizes() == NominalCategories::axis_sizes(),
{
    let entries: Vec<Option<&str>> = vec![
        Some("is"), Some("is"), Some("ī"), Some("em"), Some("e"), Some("is"), Some("ī"),
        Some("ēs"), Some("um"), Some("ibus"), Some("ēs"), Some("ibus"), Some("ēs"), Some("ibus"),
        Some("is"), Some("is"), Some("ī"), Some("em"), Some("e"), Some("is"), Some("ī"),
        Some("ēs"), Some("um"), Some("ibus"), Some("ēs"), Some("ibus"), Some("ēs"), Some("ibus"),
        Some("is"), Some("is"), Some("ī"), Some("em"), Some("e"), Some("is"), Some("ī"),
        Some("ēs"), Some("um"), Some("ibus"), Some("ēs"), Some("ibus"), Some("ēs"), Some("ibus"),
        Some("e"), Some("is"), Some("ī"), Some("e"), Some("e"), Some("e"), Some("ī"),
        Some("a"), Some("um"), Some("ibus"), Some("a"), Some("ibus"), Some("a"), Some("ibus"),
    ];
    nominal_declension("Third Adjective Declension", entries)
}

/// Grammatical gender.
#[derive(Clone, Copy, Debug, PartialEq, Eq, Structural)]
pub enum Gender {
    Feminine,
    Masculine,
    Common,
    Neuter,
}

/// Grammatical number.
#[derive(Clone, Copy, Debug, PartialEq, Eq, Structural)]
pub enum Number {
    Singular,
    Plural,
}

/// Grammatical case.
#[derive(Clone, Copy, Debug, PartialEq, Eq, Structural)]
pub enum Case {
    Nominative,
    Genitive,
    Dative,
    Accusative,
    Ablative,
    Vocative,
    Locative,
}

impl InflectionalCategory for Gender {
    open spec fn ordinal(&self) -> int {
        match self {
            Gender::Feminine => 0,
            Gender::Masculine => 1,
            Gender::Common => 2,
            Gender::Neuter => 3,
        }
    }

    open spec fn count() -> int {
        4
    }

    proof fn lemma_ordinal_in_range(&self) {
    }

    fn index(&self) -> usize {
        match self {
            Gender::Feminine => 0,
            Gender::Masculine => 1,
            Gender::Common => 2,
            Gender::Neuter => 3,
        }
    }

    fn variants() -> (r: Vec<Self>) {
        let mut r: Vec<Gender> = Vec::new();
        r.push(Gender::Feminine);
        r.push(Gender::Masculine);
        r.push(Gender::Common);
        r.push(Gender::Neuter);
        proof {
            assert forall|i: int| 0 <= i < r@.len() implies (#[trigger] r@[i]).ordinal() == i by {
                assert(r@[0] == Gender::Feminine);
                assert(r@[1] == Gender::Masculine);
                assert(r@[2] == Gender::Common);
                assert(r@[3] == Gender::Neuter);
            }
        }
        r
    }
}

impl InflectionalCategory for Number {
    open spec fn ordinal(&self) -> int {
        match self {
            Number::Singular => 0,
            Number::Plural => 1,
        }
    }

    open spec fn count() -> int {
        2
    }

    proof fn lemma_ordinal_in_range(&self) {
    }

    fn index(&self) -> usize {
        match self {
            Number::Singular => 0,
            Number::Plural => 1,
        }
    }

    fn variants() -> (r: Vec<Self>) {
        let mut r: Vec<Number> = Vec::new();
        r.push(Number::Singular);
        r.push(Number::Plural);
        proof {
            assert forall|i: int| 0 <= i < r@.len() implies (#[trigger] r@[i]).ordinal() == i by {
                assert(r@[0] == Number::Singular);
                assert(r@[1] == Number::Plural);
            }
        }
        r
    }
}

impl InflectionalCategory for Case {
    open spec fn ordinal(&self) -> int {
        match self {
            Case::Nominative => 0,
            Case::Genitive => 1,
            Case::Dative => 2,
            Case::Accusative => 3,
            Case::Ablative => 4,
            Case::Vocative => 5,
            Case::Locative => 6,
        }
    }

    open spec fn count() -> int {
        7
    }

    proof fn lemma_ordinal_in_range(&self) {
    }

    fn index(&self) -> usize {
        match self {
            Case::Nominative => 0,
            Case::Genitive => 1,
            Case::Dative => 2,
            Case::Accusative => 3,
            Case::Ablative => 4,
            Case::Vocative => 5,
            Case::Locative => 6,
        }
    }

    fn variants() -> (r: Vec<Self>) {
        let mut r: Vec<Case> = Vec::new();
        r.push(Case::Nominative);
        r.push(Case::Genitive);
        r.push(Case::Dative);
        r.push(Case::Accusative);
        r.push(Case::Ablative);
        r.push(Case::Vocative);
        r.push(Case::Locative);
        proof {
            assert forall|i: int| 0 <= i < r@.len() implies (#[trigger] r@[i]).ordinal() == i by {
                assert(r@[0] == Case::Nominative);
                assert(r@[1] == Case::Genitive);
                assert(r@[2] == Case::Dative);
                assert(r@[3] == Case::Accusative);
                assert(r@[4] == Case::Ablative);
                assert(r@[5] == Case::Vocative);
                assert(r@[6] == Case::Locative);
            }
        }
        r
    }
}

/// The category set that determines a nominal form: gender, number and case,
/// in that axis order.
#[derive(Clone, Copy, Debug, PartialEq, Eq, Structural)]
pub struct NominalCategories(pub Gender, pub Number, pub Case);

impl InflectionalCategorySet for NominalCategories {
    open spec fn axis_sizes() -> Seq<int> {
        seq![4, 2, 7]
    }

    open spec fn ordinals(&self) -> Seq<int> {
        seq![self.0.ordinal(), self.1.ordinal(), self.2.ordinal()]
    }

    proof fn lemma_well_formed(&self) {
        self.0.lemma_ordinal_in_range();
        self.1.lemma_ordinal_in_range();
        self.2.lemma_ordinal_in_range();
    }

    fn index(&self) -> (r: usize) {
        proof {
            self.0.lemma_ordinal_in_range();
            self.1.lemma_ordinal_in_range();
            self.2.lemma_ordinal_in_range();
            lemma_flat_index_triple(
                4,
                2,
                7,
                self.0.ordinal(),
                self.1.ordinal(),
                self.2.ordinal(),
            );
        }
        self.0.index() * 14 + self.1.index() * 7 + self.2.index()
    }

    fn category_set(&self) -> (r: CategorySet) {
        let mut ordinals: Vec<usize> = Vec::new();
        ordinals.push(self.0.index());
        ordinals.push(self.1.index());
        ordinals.push(self.2.index());
        proof {
            self.0.lemma_ordinal_in_range();
            self.1.lemma_ordinal_in_range();
            self.2.lemma_ordinal_in_range();
            assert(int_view(ordinals@) =~= self.ordinals());
        }
        CategorySet { ordinals }
    }
}

} // verus!
